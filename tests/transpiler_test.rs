use pbrlang::ast::{Declaracao, Expressao, Programa, Tipo};
use pbrlang::parser::analisar_codigo;
use pbrlang::transpiler::{escapar_string_para_rust, gerar_codigo_rust};

const PREAMBULO: &str = "use std::io::{self, Write};\nuse std::collections::HashMap;\n\n";

fn gerar(codigo: &str) -> String {
    let programa = analisar_codigo(codigo).unwrap();
    gerar_codigo_rust(programa).unwrap()
}

fn corpo(codigo: &str) -> String {
    let saida = gerar(codigo);
    assert!(saida.starts_with(PREAMBULO));
    saida[PREAMBULO.len()..].to_string()
}

#[test]
fn gera_precedencia_com_parenteses() {
    assert_eq!(corpo("5 + 3 * 2"), "(5 + (3 * 2));\n\n");
    assert_eq!(corpo("10 - 3 - 2"), "((10 - 3) - 2);\n\n");
    assert_eq!(corpo("8 / 4 * 2 + 1 - 6 / 3"), "((((8 / 4) * 2) + 1) - (6 / 3));\n\n");
}

#[test]
fn repita_executa_o_corpo_antes_da_condicao() {
    assert_eq!(
        corpo("repita { x = x - 1 } até x <= 0"),
        "loop {\nx = (x - 1);\n    if (x <= 0) { break; }\n}\n\n"
    );
}

#[test]
fn modelo_gera_estrutura_com_visibilidade() {
    assert_eq!(
        corpo("público modelo Pessoa { público nome: texto, idade: número }"),
        "#[derive(Default)]\npub struct Pessoa {\n    pub nome: String,\n    idade: f64,\n}\n\n"
    );
    assert_eq!(
        corpo("modelo P { x: lógico }"),
        "#[derive(Default)]\nstruct P {\n    x: bool,\n}\n\n"
    );
}

#[test]
fn geracao_e_deterministica() {
    let codigo = "pense x: número; se x > 1 { mostre x } senão { mostre \"não\" }";
    let programa = analisar_codigo(codigo).unwrap();
    let copia = programa.clone();
    let a = gerar_codigo_rust(programa).unwrap();
    let b = gerar_codigo_rust(copia).unwrap();
    assert_eq!(a, b);
    assert!(a.contains("if (x > 1) {"));
}

#[test]
fn gera_programa_vazio() {
    assert_eq!(gerar_codigo_rust(Programa::new()).unwrap(), PREAMBULO);
}

#[test]
fn gera_variaveis_com_valor_padrao() {
    assert_eq!(
        corpo("pense a: texto; pense b: número; pense c: lógico; pense d: Pessoa; pense e; público pense f = 1"),
        "let mut a = String::new();\n\nlet mut b = 0.0;\n\nlet mut c = false;\n\n\
         let mut d = Pessoa::default();\n\nlet mut e = Default::default();\n\nlet mut f = 1;\n\n"
    );
}

#[test]
fn gera_tipos_vazio_e_opcional() {
    let mut programa = Programa::new();
    programa.adicionar_declaracao(Declaracao::Variavel {
        nome: "o".to_string(),
        tipo: Some(Tipo::Opcional(Box::new(Tipo::Texto))),
        valor: None,
        publico: false,
    });
    programa.adicionar_declaracao(Declaracao::Funcao {
        nome: "f".to_string(),
        parametros: vec![("a".to_string(), Tipo::Opcional(Box::new(Tipo::Numero)))],
        tipo_retorno: Some(Tipo::Void),
        corpo: Box::new(Declaracao::Bloco(vec![])),
        publico: false,
    });
    assert_eq!(
        gerar_codigo_rust(programa).unwrap(),
        format!("{}let mut o = None;\n\nfn f(a: Option<f64>) -> () {{\n}}\n\n", PREAMBULO)
    );
}

#[test]
fn gera_funcao_e_chamada() {
    assert_eq!(
        corpo("público faça soma(a: número, b: número): número { volte a + b }"),
        "pub fn soma(a: f64, b: f64) -> f64 {\nreturn (a + b);\n}\n\n"
    );
    assert_eq!(corpo("faça f() { volte }"), "fn f() {\nreturn;\n}\n\n");
    assert_eq!(corpo("mostre f(1, g(2), p.x)"), "println!(\"{:?}\", f(1, g(2), p.x));\n\n");
}

#[test]
fn gera_controle_de_fluxo() {
    assert_eq!(
        corpo("para cada i de 1 até 10 { se i == 5 { continue } senão { pare } }"),
        "for i in 1..=10 {\nif (i == 5) {\ncontinue;\n} else {\nbreak;\n}\n}\n\n"
    );
    assert_eq!(corpo("enquanto não x { x = verdadeiro }"), "while !x {\nx = true;\n}\n\n");
}

#[test]
fn gera_tratamento_de_erro() {
    assert_eq!(
        corpo("tente { f() } quando der erro (falha) { mostre falha }"),
        "match (|| -> Result<(), Box<dyn std::error::Error>> {\nf();\n    Ok(())\n})() {\n    Ok(_) => {},\n    Err(falha) => {\nprintln!(\"{:?}\", falha);\n    }\n}\n\n"
    );
}

#[test]
fn gera_modulo_e_importacao() {
    assert_eq!(
        corpo("importar a.b/c módulo m { pense x = nada }"),
        "use a::b::c;\n\nmod m {\nlet mut x = None;\n}\n\n"
    );
}

#[test]
fn gera_literais_compostos_e_pertinencia() {
    assert_eq!(
        corpo("pense l = [1, 2]; pense d = {\"a\": 1, \"b\": 2}; pense t = 2 em l; pense v = []"),
        "let mut l = vec![1, 2];\n\nlet mut d = HashMap::from([(\"a\", 1), (\"b\", 2)]);\n\n\
         let mut t = (l.contains(&2));\n\nlet mut v = vec![];\n\n"
    );
}

#[test]
fn escapa_textos() {
    assert_eq!(escapar_string_para_rust("a\"b\\c\nd\re\tf"), "a\\\"b\\\\c\\nd\\re\\tf");
    assert_eq!(escapar_string_para_rust(""), "");
    let mut programa = Programa::new();
    programa.adicionar_declaracao(Declaracao::Mostrar(Expressao::TextoLiteral("diz \"oi\"\n".to_string())));
    assert_eq!(
        gerar_codigo_rust(programa).unwrap(),
        format!("{}println!(\"{{:?}}\", \"diz \\\"oi\\\"\\n\");\n\n", PREAMBULO)
    );
}
