use vstd::prelude::*;
use crate::ast::{Declaracao, Expressao, Operador, Programa, Tipo};
use crate::texto::{caracteres, empurrar};

verus! {

/// Erro do gerador: uma construção da árvore que não sabe traduzir.
#[derive(Debug)]
pub enum ErroGeracao {
    ConstrucaoNaoSuportada(String),
}

/// O texto de um caractere dentro de um literal de texto de Rust.
pub open spec fn escape_char(c: char) -> Seq<char> {
    if c == '\\' {
        seq!['\\', '\\']
    } else if c == '"' {
        seq!['\\', '"']
    } else if c == '\n' {
        seq!['\\', 'n']
    } else if c == '\r' {
        seq!['\\', 'r']
    } else if c == '\t' {
        seq!['\\', 't']
    } else {
        seq![c]
    }
}

/// Um texto escapado, caractere a caractere, para um literal de Rust.
pub open spec fn escapado(s: Seq<char>) -> Seq<char>
    decreases s.len(),
{
    if s.len() == 0 {
        Seq::empty()
    } else {
        escapado(s.drop_last()) + escape_char(s.last())
    }
}

/// O texto de um tipo em Rust.
pub open spec fn tipo_rust(t: Tipo) -> Seq<char>
    decreases t,
{
    match t {
        Tipo::Texto => "String"@,
        Tipo::Numero => "f64"@,
        Tipo::Logico => "bool"@,
        Tipo::Void => "()"@,
        Tipo::Personalizado(n) => n@,
        Tipo::Opcional(b) => "Option<"@ + tipo_rust(*b) + ">"@,
    }
}

/// O texto de um operador infixo em Rust (`Contem` vira uma chamada de método
/// sobre a coleção, o operando direito).
pub open spec fn operador_rust(o: Operador) -> Seq<char> {
    match o {
        Operador::Soma => " + "@,
        Operador::Subtracao => " - "@,
        Operador::Multiplicacao => " * "@,
        Operador::Divisao => " / "@,
        Operador::Resto => " % "@,
        Operador::Igual => " == "@,
        Operador::Diferente => " != "@,
        Operador::Maior => " > "@,
        Operador::Menor => " < "@,
        Operador::MaiorIgual => " >= "@,
        Operador::MenorIgual => " <= "@,
        Operador::Contem => ".contains(&"@,
        Operador::E => " && "@,
        Operador::Ou => " || "@,
    }
}

/// O separador entre o elemento de índice `n - 1` e os anteriores de uma lista.
pub open spec fn separador(n: int) -> Seq<char> {
    if n > 1 {
        ", "@
    } else {
        Seq::empty()
    }
}

/// O código Rust de uma expressão; toda operação binária sai entre parênteses.
pub open spec fn expr_rust(e: Expressao) -> Seq<char>
    decreases e,
{
    match e {
        Expressao::TextoLiteral(t) => "\""@ + escapado(t@) + "\""@,
        Expressao::NumeroLiteral(n) => n@,
        Expressao::LogicoLiteral(b) => if b {
            "true"@
        } else {
            "false"@
        },
        Expressao::Nada => "None"@,
        Expressao::ListaLiteral(v) => "vec!["@ + lista_rust(v@) + "]"@,
        Expressao::DicionarioLiteral(v) => "HashMap::from(["@ + pares_rust(v@) + "])"@,
        Expressao::Identificador(n) => n@,
        Expressao::Chamada { nome, argumentos } => nome@ + "("@ + lista_rust(argumentos@) + ")"@,
        Expressao::Operacao { operador, esquerda, direita } => if operador == Operador::Contem {
            "("@ + expr_rust(*direita) + ".contains(&"@ + expr_rust(*esquerda) + "))"@
        } else {
            "("@ + expr_rust(*esquerda) + operador_rust(operador) + expr_rust(*direita) + ")"@
        },
        Expressao::Atribuicao { nome, valor } => nome@ + " = "@ + expr_rust(*valor),
        Expressao::AcessoMembro { objeto, membro } => expr_rust(*objeto) + "."@ + membro@,
        Expressao::Negacao { expressao } => "!"@ + expr_rust(*expressao),
    }
}

/// As expressões de `s` em Rust, separadas por vírgulas.
pub open spec fn lista_rust(s: Seq<Expressao>) -> Seq<char>
    decreases s,
{
    if s.len() == 0 {
        Seq::empty()
    } else {
        lista_rust(s.drop_last()) + separador(s.len() as int) + expr_rust(s.last())
    }
}

/// Os pares chave-valor de `s` em Rust, como tuplas separadas por vírgulas.
pub open spec fn pares_rust(s: Seq<(Expressao, Expressao)>) -> Seq<char>
    decreases s,
{
    if s.len() == 0 {
        Seq::empty()
    } else {
        pares_rust(s.drop_last()) + separador(s.len() as int) + "("@ + expr_rust(s.last().0)
            + ", "@ + expr_rust(s.last().1) + ")"@
    }
}

} // verus!

verus! {

/// Escapa um texto para um literal de texto de Rust: barra invertida, aspas,
/// nova linha, retorno de carro e tabulação.
pub fn escapar_string_para_rust(texto: &str) -> (r: String)
    ensures
        r@ == escapado(texto@),
{
    let cs = caracteres(texto);
    let mut r = String::new();
    let mut i: usize = 0;
    while i < cs.len()
        invariant
            i <= cs.len(),
            cs@ == texto@,
            r@ == escapado(cs@.take(i as int)),
        decreases cs.len() - i,
    {
        let c = cs[i];
        proof {
            assert(cs@.take(i + 1).drop_last() =~= cs@.take(i as int));
        }
        if c == '\\' {
            empurrar(&mut r, '\\');
            empurrar(&mut r, '\\');
        } else if c == '"' {
            empurrar(&mut r, '\\');
            empurrar(&mut r, '"');
        } else if c == '\n' {
            empurrar(&mut r, '\\');
            empurrar(&mut r, 'n');
        } else if c == '\r' {
            empurrar(&mut r, '\\');
            empurrar(&mut r, 'r');
        } else if c == '\t' {
            empurrar(&mut r, '\\');
            empurrar(&mut r, 't');
        } else {
            empurrar(&mut r, c);
        }
        proof {
            assert(r@ =~= escapado(cs@.take(i + 1)));
        }
        i += 1;
    }
    proof {
        assert(cs@.take(cs.len() as int) =~= cs@);
    }
    r
}

fn gerar_tipo(tipo: &Tipo, saida: &mut String)
    ensures
        final(saida)@ == old(saida)@ + tipo_rust(*tipo),
    decreases tipo,
{
    let ghost ini = saida@;
    match tipo {
        Tipo::Texto => saida.append("String"),
        Tipo::Numero => saida.append("f64"),
        Tipo::Logico => saida.append("bool"),
        Tipo::Void => saida.append("()"),
        Tipo::Personalizado(nome) => saida.append(nome.as_str()),
        Tipo::Opcional(t) => {
            saida.append("Option<");
            gerar_tipo(t, saida);
            saida.append(">");
        },
    }
    proof {
        assert(saida@ =~= ini + tipo_rust(*tipo));
    }
}

fn gerar_lista(v: &Vec<Expressao>, saida: &mut String)
    ensures
        final(saida)@ == old(saida)@ + lista_rust(v@),
    decreases v,
{
    let ghost ini = saida@;
    let mut i: usize = 0;
    while i < v.len()
        invariant
            i <= v.len(),
            saida@ == ini + lista_rust(v@.take(i as int)),
        decreases v.len() - i,
    {
        proof {
            assert(v@.take(i + 1).drop_last() =~= v@.take(i as int));
        }
        if i > 0 {
            saida.append(", ");
        }
        gerar_expressao(&v[i], saida);
        proof {
            assert(saida@ =~= ini + lista_rust(v@.take(i + 1)));
        }
        i += 1;
    }
    proof {
        assert(v@.take(v.len() as int) =~= v@);
    }
}

fn gerar_pares(v: &Vec<(Expressao, Expressao)>, saida: &mut String)
    ensures
        final(saida)@ == old(saida)@ + pares_rust(v@),
    decreases v,
{
    let ghost ini = saida@;
    let mut i: usize = 0;
    while i < v.len()
        invariant
            i <= v.len(),
            saida@ == ini + pares_rust(v@.take(i as int)),
        decreases v.len() - i,
    {
        proof {
            assert(v@.take(i + 1).drop_last() =~= v@.take(i as int));
        }
        if i > 0 {
            saida.append(", ");
        }
        saida.append("(");
        gerar_expressao(&v[i].0, saida);
        saida.append(", ");
        gerar_expressao(&v[i].1, saida);
        saida.append(")");
        proof {
            assert(saida@ =~= ini + pares_rust(v@.take(i + 1)));
        }
        i += 1;
    }
    proof {
        assert(v@.take(v.len() as int) =~= v@);
    }
}

fn gerar_expressao(expr: &Expressao, saida: &mut String)
    ensures
        final(saida)@ == old(saida)@ + expr_rust(*expr),
    decreases expr,
{
    let ghost ini = saida@;
    match expr {
        Expressao::TextoLiteral(texto) => {
            saida.append("\"");
            let esc = escapar_string_para_rust(texto.as_str());
            saida.append(esc.as_str());
            saida.append("\"");
        },
        Expressao::NumeroLiteral(n) => saida.append(n.as_str()),
        Expressao::LogicoLiteral(b) => {
            if *b {
                saida.append("true")
            } else {
                saida.append("false")
            }
        },
        Expressao::Nada => saida.append("None"),
        Expressao::ListaLiteral(elementos) => {
            saida.append("vec![");
            gerar_lista(elementos, saida);
            saida.append("]");
        },
        Expressao::DicionarioLiteral(pares) => {
            saida.append("HashMap::from([");
            gerar_pares(pares, saida);
            saida.append("])");
        },
        Expressao::Identificador(nome) => saida.append(nome.as_str()),
        Expressao::Chamada { nome, argumentos } => {
            saida.append(nome.as_str());
            saida.append("(");
            gerar_lista(argumentos, saida);
            saida.append(")");
        },
        Expressao::Negacao { expressao } => {
            saida.append("!");
            gerar_expressao(expressao, saida);
        },
        Expressao::Operacao { operador, esquerda, direita } => {
            saida.append("(");
            if *operador == Operador::Contem {
                gerar_expressao(direita, saida);
                saida.append(".contains(&");
                gerar_expressao(esquerda, saida);
                saida.append("))");
            } else {
                gerar_expressao(esquerda, saida);
                match operador {
                    Operador::Soma => saida.append(" + "),
                    Operador::Subtracao => saida.append(" - "),
                    Operador::Multiplicacao => saida.append(" * "),
                    Operador::Divisao => saida.append(" / "),
                    Operador::Resto => saida.append(" % "),
                    Operador::Igual => saida.append(" == "),
                    Operador::Diferente => saida.append(" != "),
                    Operador::Maior => saida.append(" > "),
                    Operador::Menor => saida.append(" < "),
                    Operador::MaiorIgual => saida.append(" >= "),
                    Operador::MenorIgual => saida.append(" <= "),
                    Operador::Contem => saida.append(".contains(&"),
                    Operador::E => saida.append(" && "),
                    Operador::Ou => saida.append(" || "),
                }
                gerar_expressao(direita, saida);
                saida.append(")");
            }
        },
        Expressao::Atribuicao { nome, valor } => {
            saida.append(nome.as_str());
            saida.append(" = ");
            gerar_expressao(valor, saida);
        },
        Expressao::AcessoMembro { objeto, membro } => {
            gerar_expressao(objeto, saida);
            saida.append(".");
            saida.append(membro.as_str());
        },
    }
    proof {
        assert(saida@ =~= ini + expr_rust(*expr));
    }
}

} // verus!

verus! {

/// O marcador de visibilidade de Rust, quando público.
pub open spec fn visibilidade_rust(publico: bool) -> Seq<char> {
    if publico {
        "pub "@
    } else {
        Seq::empty()
    }
}

/// O valor inicial de uma variável declarada sem valor, pelo seu tipo.
pub open spec fn valor_padrao(tipo: Option<Tipo>) -> Seq<char> {
    match tipo {
        None => "Default::default()"@,
        Some(Tipo::Texto) => "String::new()"@,
        Some(Tipo::Numero) => "0.0"@,
        Some(Tipo::Logico) => "false"@,
        Some(Tipo::Void) => "()"@,
        Some(Tipo::Personalizado(n)) => n@ + "::default()"@,
        Some(Tipo::Opcional(_)) => "None"@,
    }
}

/// A lista de parâmetros de uma função em Rust.
pub open spec fn parametros_rust(s: Seq<(String, Tipo)>) -> Seq<char>
    decreases s.len(),
{
    if s.len() == 0 {
        Seq::empty()
    } else {
        parametros_rust(s.drop_last()) + separador(s.len() as int) + s.last().0@ + ": "@
            + tipo_rust(s.last().1)
    }
}

/// Um campo de estrutura em Rust, com o seu próprio marcador de visibilidade.
pub open spec fn campo_rust(c: (String, Tipo, bool)) -> Seq<char> {
    (if c.2 {
        "    pub "@
    } else {
        "    "@
    }) + c.0@ + ": "@ + tipo_rust(c.1) + ",\n"@
}

/// Os campos de uma estrutura em Rust, um por linha, na ordem dada.
pub open spec fn campos_rust(s: Seq<(String, Tipo, bool)>) -> Seq<char>
    decreases s.len(),
{
    if s.len() == 0 {
        Seq::empty()
    } else {
        campos_rust(s.drop_last()) + campo_rust(s.last())
    }
}

/// Um caminho de importação: os segmentos unidos por `::`.
pub open spec fn caminho_rust(s: Seq<String>) -> Seq<char>
    decreases s.len(),
{
    if s.len() == 0 {
        Seq::empty()
    } else {
        caminho_rust(s.drop_last()) + (if s.len() > 1 {
            "::"@
        } else {
            Seq::empty()
        }) + s.last()@
    }
}

/// O cabeçalho de uma estrutura gerada a partir de um modelo.
pub open spec fn cabecalho_modelo(publico: bool) -> Seq<char> {
    if publico {
        "#[derive(Default)]\npub struct "@
    } else {
        "#[derive(Default)]\nstruct "@
    }
}

/// O código Rust de uma declaração.
pub open spec fn decl_rust(d: Declaracao) -> Seq<char>
    decreases d,
{
    match d {
        Declaracao::Variavel { nome, tipo, valor, .. } => "let mut "@ + nome@ + " = "@ + (match valor {
            Some(v) => expr_rust(v),
            None => valor_padrao(tipo),
        }) + ";\n"@,
        Declaracao::Expressao(e) => expr_rust(e) + ";\n"@,
        Declaracao::Bloco(ds) => decls_rust(ds@),
        Declaracao::Se { condicao, bloco_se, bloco_senao } => "if "@ + expr_rust(condicao)
            + " {\n"@ + decl_rust(*bloco_se) + (match bloco_senao {
            Some(b) => "} else {\n"@ + decl_rust(*b),
            None => Seq::empty(),
        }) + "}\n"@,
        Declaracao::ParaCada { variavel, inicio, fim, corpo } => "for "@ + variavel@ + " in "@
            + expr_rust(inicio) + "..="@ + expr_rust(fim) + " {\n"@ + decl_rust(*corpo) + "}\n"@,
        Declaracao::Enquanto { condicao, corpo } => "while "@ + expr_rust(condicao) + " {\n"@
            + decl_rust(*corpo) + "}\n"@,
        Declaracao::Repita { corpo, condicao } => "loop {\n"@ + decl_rust(*corpo) + "    if "@
            + expr_rust(condicao) + " { break; }\n}\n"@,
        Declaracao::Pare => "break;\n"@,
        Declaracao::Continue => "continue;\n"@,
        Declaracao::QuandoDerErro { bloco_try, variavel_erro, bloco_catch } =>
            "match (|| -> Result<(), Box<dyn std::error::Error>> {\n"@ + decl_rust(*bloco_try)
            + "    Ok(())\n})() {\n"@ + "    Ok(_) => {},\n"@ + "    Err("@ + variavel_erro@
            + ") => {\n"@ + decl_rust(*bloco_catch) + "    }\n}\n"@,
        Declaracao::Funcao { nome, parametros, tipo_retorno, corpo, publico } =>
            visibilidade_rust(publico) + "fn "@ + nome@ + "("@ + parametros_rust(parametros@)
            + ")"@ + (match tipo_retorno {
            Some(t) => " -> "@ + tipo_rust(t),
            None => Seq::empty(),
        }) + " {\n"@ + decl_rust(*corpo) + "}\n"@,
        Declaracao::Retorno(e) => "return"@ + (match e {
            Some(e) => " "@ + expr_rust(e),
            None => Seq::empty(),
        }) + ";\n"@,
        Declaracao::Mostrar(e) => "println!(\"{:?}\", "@ + expr_rust(e) + ");\n"@,
        Declaracao::Modelo { nome, campos, publico } => cabecalho_modelo(publico) + nome@
            + " {\n"@ + campos_rust(campos@) + "}\n"@,
        Declaracao::Modulo { nome, declaracoes } => "mod "@ + nome@ + " {\n"@ + decls_rust(
            declaracoes@,
        ) + "}\n"@,
        Declaracao::Importar { caminho } => "use "@ + caminho_rust(caminho@) + ";\n"@,
    }
}

/// As declarações de `s` em Rust, em ordem, sem separador.
pub open spec fn decls_rust(s: Seq<Declaracao>) -> Seq<char>
    decreases s,
{
    if s.len() == 0 {
        Seq::empty()
    } else {
        decls_rust(s.drop_last()) + decl_rust(s.last())
    }
}

/// As declarações de topo em Rust, cada uma seguida de uma linha em branco.
pub open spec fn topo_rust(s: Seq<Declaracao>) -> Seq<char>
    decreases s.len(),
{
    if s.len() == 0 {
        Seq::empty()
    } else {
        topo_rust(s.drop_last()) + decl_rust(s.last()) + "\n"@
    }
}

/// O preâmbulo fixo do código gerado.
pub open spec fn preambulo() -> Seq<char> {
    "use std::io::{self, Write};\n"@ + "use std::collections::HashMap;\n\n"@
}

/// O código Rust de um programa inteiro.
pub open spec fn codigo_rust(p: Programa) -> Seq<char> {
    preambulo() + topo_rust(p.declaracoes@)
}

} // verus!

verus! {

fn gerar_parametros(v: &Vec<(String, Tipo)>, saida: &mut String)
    ensures
        final(saida)@ == old(saida)@ + parametros_rust(v@),
{
    let ghost ini = saida@;
    let mut i: usize = 0;
    while i < v.len()
        invariant
            i <= v.len(),
            saida@ == ini + parametros_rust(v@.take(i as int)),
        decreases v.len() - i,
    {
        proof {
            assert(v@.take(i + 1).drop_last() =~= v@.take(i as int));
        }
        if i > 0 {
            saida.append(", ");
        }
        saida.append(v[i].0.as_str());
        saida.append(": ");
        gerar_tipo(&v[i].1, saida);
        proof {
            assert(saida@ =~= ini + parametros_rust(v@.take(i + 1)));
        }
        i += 1;
    }
    proof {
        assert(v@.take(v.len() as int) =~= v@);
    }
}

fn gerar_campos(v: &Vec<(String, Tipo, bool)>, saida: &mut String)
    ensures
        final(saida)@ == old(saida)@ + campos_rust(v@),
{
    let ghost ini = saida@;
    let mut i: usize = 0;
    while i < v.len()
        invariant
            i <= v.len(),
            saida@ == ini + campos_rust(v@.take(i as int)),
        decreases v.len() - i,
    {
        proof {
            assert(v@.take(i + 1).drop_last() =~= v@.take(i as int));
        }
        if v[i].2 {
            saida.append("    pub ");
        } else {
            saida.append("    ");
        }
        saida.append(v[i].0.as_str());
        saida.append(": ");
        gerar_tipo(&v[i].1, saida);
        saida.append(",\n");
        proof {
            assert(saida@ =~= ini + campos_rust(v@.take(i + 1)));
        }
        i += 1;
    }
    proof {
        assert(v@.take(v.len() as int) =~= v@);
    }
}

fn gerar_caminho(v: &Vec<String>, saida: &mut String)
    ensures
        final(saida)@ == old(saida)@ + caminho_rust(v@),
{
    let ghost ini = saida@;
    let mut i: usize = 0;
    while i < v.len()
        invariant
            i <= v.len(),
            saida@ == ini + caminho_rust(v@.take(i as int)),
        decreases v.len() - i,
    {
        proof {
            assert(v@.take(i + 1).drop_last() =~= v@.take(i as int));
        }
        if i > 0 {
            saida.append("::");
        }
        saida.append(v[i].as_str());
        proof {
            assert(saida@ =~= ini + caminho_rust(v@.take(i + 1)));
        }
        i += 1;
    }
    proof {
        assert(v@.take(v.len() as int) =~= v@);
    }
}

fn gerar_valor_padrao(tipo: &Option<Tipo>, saida: &mut String)
    ensures
        final(saida)@ == old(saida)@ + valor_padrao(*tipo),
{
    let ghost ini = saida@;
    match tipo {
        None => saida.append("Default::default()"),
        Some(Tipo::Texto) => saida.append("String::new()"),
        Some(Tipo::Numero) => saida.append("0.0"),
        Some(Tipo::Logico) => saida.append("false"),
        Some(Tipo::Void) => saida.append("()"),
        Some(Tipo::Personalizado(t)) => {
            saida.append(t.as_str());
            saida.append("::default()");
        },
        Some(Tipo::Opcional(_)) => saida.append("None"),
    }
    proof {
        assert(saida@ =~= ini + valor_padrao(*tipo));
    }
}

fn gerar_declaracoes(v: &Vec<Declaracao>, saida: &mut String)
    ensures
        final(saida)@ == old(saida)@ + decls_rust(v@),
    decreases v,
{
    let ghost ini = saida@;
    let mut i: usize = 0;
    while i < v.len()
        invariant
            i <= v.len(),
            saida@ == ini + decls_rust(v@.take(i as int)),
        decreases v.len() - i,
    {
        proof {
            assert(v@.take(i + 1).drop_last() =~= v@.take(i as int));
        }
        gerar_declaracao(&v[i], saida);
        proof {
            assert(saida@ =~= ini + decls_rust(v@.take(i + 1)));
        }
        i += 1;
    }
    proof {
        assert(v@.take(v.len() as int) =~= v@);
    }
}

fn gerar_variavel(decl: &Declaracao, saida: &mut String)
    requires
        decl is Variavel,
    ensures
        final(saida)@ == old(saida)@ + decl_rust(*decl),
{
    let ghost ini = saida@;
    match decl {
        Declaracao::Variavel { nome, tipo, valor, .. } => {
            saida.append("let mut ");
            saida.append(nome.as_str());
            saida.append(" = ");
            match valor {
                Some(v) => gerar_expressao(v, saida),
                None => gerar_valor_padrao(tipo, saida),
            }
            saida.append(";\n");
            proof {
                assert(saida@ =~= ini + decl_rust(*decl));
            }
        },
        _ => {},
    }
}

fn gerar_modelo(decl: &Declaracao, saida: &mut String)
    requires
        decl is Modelo,
    ensures
        final(saida)@ == old(saida)@ + decl_rust(*decl),
{
    let ghost ini = saida@;
    match decl {
        Declaracao::Modelo { nome, campos, publico } => {
            if *publico {
                saida.append("#[derive(Default)]\npub struct ");
            } else {
                saida.append("#[derive(Default)]\nstruct ");
            }
            saida.append(nome.as_str());
            saida.append(" {\n");
            gerar_campos(campos, saida);
            saida.append("}\n");
            proof {
                assert(saida@ =~= ini + decl_rust(*decl));
            }
        },
        _ => {},
    }
}

fn gerar_importacao(decl: &Declaracao, saida: &mut String)
    requires
        decl is Importar,
    ensures
        final(saida)@ == old(saida)@ + decl_rust(*decl),
{
    let ghost ini = saida@;
    match decl {
        Declaracao::Importar { caminho } => {
            saida.append("use ");
            gerar_caminho(caminho, saida);
            saida.append(";\n");
            proof {
                assert(saida@ =~= ini + decl_rust(*decl));
            }
        },
        _ => {},
    }
}

#[verifier::spinoff_prover]
#[verifier::rlimit(40)]
fn gerar_declaracao(decl: &Declaracao, saida: &mut String)
    ensures
        final(saida)@ == old(saida)@ + decl_rust(*decl),
    decreases decl,
{
    let ghost ini = saida@;
    match decl {
        Declaracao::Importar { .. } => gerar_importacao(decl, saida),
        Declaracao::Modelo { .. } => gerar_modelo(decl, saida),
        Declaracao::Variavel { .. } => gerar_variavel(decl, saida),
        Declaracao::Funcao { nome, parametros, tipo_retorno, corpo, publico } => {
            if *publico {
                saida.append("pub ");
            }
            saida.append("fn ");
            saida.append(nome.as_str());
            saida.append("(");
            gerar_parametros(parametros, saida);
            saida.append(")");
            match tipo_retorno {
                Some(t) => {
                    saida.append(" -> ");
                    gerar_tipo(t, saida);
                },
                None => {},
            }
            saida.append(" {\n");
            gerar_declaracao(corpo, saida);
            saida.append("}\n");
            proof {
                assert(saida@ =~= ini + decl_rust(*decl));
            }
        },
        Declaracao::Modulo { nome, declaracoes } => {
            saida.append("mod ");
            saida.append(nome.as_str());
            saida.append(" {\n");
            gerar_declaracoes(declaracoes, saida);
            saida.append("}\n");
            proof {
                assert(saida@ =~= ini + decl_rust(*decl));
            }
        },
        Declaracao::Enquanto { condicao, corpo } => {
            saida.append("while ");
            gerar_expressao(condicao, saida);
            saida.append(" {\n");
            gerar_declaracao(corpo, saida);
            saida.append("}\n");
            proof {
                assert(saida@ =~= ini + decl_rust(*decl));
            }
        },
        Declaracao::Repita { corpo, condicao } => {
            saida.append("loop {\n");
            gerar_declaracao(corpo, saida);
            saida.append("    if ");
            gerar_expressao(condicao, saida);
            saida.append(" { break; }\n}\n");
            proof {
                assert(saida@ =~= ini + decl_rust(*decl));
            }
        },
        Declaracao::Pare => {
            saida.append("break;\n");
            proof {
                assert(saida@ =~= ini + decl_rust(*decl));
            }
        },
        Declaracao::Continue => {
            saida.append("continue;\n");
            proof {
                assert(saida@ =~= ini + decl_rust(*decl));
            }
        },
        Declaracao::Se { condicao, bloco_se, bloco_senao } => {
            saida.append("if ");
            gerar_expressao(condicao, saida);
            saida.append(" {\n");
            gerar_declaracao(bloco_se, saida);
            match bloco_senao {
                Some(senao) => {
                    saida.append("} else {\n");
                    gerar_declaracao(senao, saida);
                },
                None => {},
            }
            saida.append("}\n");
            proof {
                assert(saida@ =~= ini + decl_rust(*decl));
            }
        },
        Declaracao::ParaCada { variavel, inicio, fim, corpo } => {
            saida.append("for ");
            saida.append(variavel.as_str());
            saida.append(" in ");
            gerar_expressao(inicio, saida);
            saida.append("..=");
            gerar_expressao(fim, saida);
            saida.append(" {\n");
            gerar_declaracao(corpo, saida);
            saida.append("}\n");
            proof {
                assert(saida@ =~= ini + decl_rust(*decl));
            }
        },
        Declaracao::QuandoDerErro { bloco_try, variavel_erro, bloco_catch } => {
            saida.append("match (|| -> Result<(), Box<dyn std::error::Error>> {\n");
            gerar_declaracao(bloco_try, saida);
            saida.append("    Ok(())\n})() {\n");
            saida.append("    Ok(_) => {},\n");
            saida.append("    Err(");
            saida.append(variavel_erro.as_str());
            saida.append(") => {\n");
            gerar_declaracao(bloco_catch, saida);
            saida.append("    }\n}\n");
            proof {
                assert(saida@ =~= ini + decl_rust(*decl));
            }
        },
        Declaracao::Retorno(expr) => {
            saida.append("return");
            match expr {
                Some(e) => {
                    saida.append(" ");
                    gerar_expressao(e, saida);
                },
                None => {},
            }
            saida.append(";\n");
            proof {
                assert(saida@ =~= ini + decl_rust(*decl));
            }
        },
        Declaracao::Mostrar(expr) => {
            saida.append("println!(\"{:?}\", ");
            gerar_expressao(expr, saida);
            saida.append(");\n");
            proof {
                assert(saida@ =~= ini + decl_rust(*decl));
            }
        },
        Declaracao::Bloco(declaracoes) => {
            gerar_declaracoes(declaracoes, saida);
            proof {
                assert(saida@ =~= ini + decl_rust(*decl));
            }
        },
        Declaracao::Expressao(expr) => {
            gerar_expressao(expr, saida);
            saida.append(";\n");
            proof {
                assert(saida@ =~= ini + decl_rust(*decl));
            }
        },
    }
}

/// Gera o código Rust de um programa: o preâmbulo e, em ordem, cada declaração
/// de topo seguida de uma linha em branco. Toda construção da árvore tem tradução,
/// de modo que a geração sempre termina em `Ok`.
pub fn gerar_codigo_rust(programa: Programa) -> (r: Result<String, ErroGeracao>)
    ensures
        r matches Ok(s) && s@ == codigo_rust(programa),
{
    let mut saida = String::new();
    saida.append("use std::io::{self, Write};\n");
    saida.append("use std::collections::HashMap;\n\n");
    let v = &programa.declaracoes;
    let mut i: usize = 0;
    while i < v.len()
        invariant
            i <= v.len(),
            saida@ == preambulo() + topo_rust(v@.take(i as int)),
        decreases v.len() - i,
    {
        proof {
            assert(v@.take(i + 1).drop_last() =~= v@.take(i as int));
        }
        gerar_declaracao(&v[i], &mut saida);
        empurrar(&mut saida, '\n');
        proof {
            reveal_strlit("\n");
            assert(saida@ =~= preambulo() + topo_rust(v@.take(i + 1)));
        }
        i += 1;
    }
    proof {
        assert(v@.take(v.len() as int) =~= v@);
    }
    Ok(saida)
}

} // verus!

verus! {

/// Gerar duas vezes a partir do mesmo programa dá o mesmo texto, caractere a
/// caractere: o texto gerado depende só do programa.
pub proof fn lei_geracao_idempotente(p: Programa, primeira: String, segunda: String)
    requires
        primeira@ == codigo_rust(p),
        segunda@ == codigo_rust(p),
    ensures
        primeira@ == segunda@,
{
}

/// Um `repita ... até` vira um laço incondicional em que o corpo vem primeiro e
/// a condição só é testada depois dele, num `break` condicional no fim: o corpo
/// roda ao menos uma vez.
pub proof fn lei_repita_corpo_primeiro(corpo: Declaracao, condicao: Expressao)
    ensures
        ({
            let s = decl_rust(Declaracao::Repita { corpo: Box::new(corpo), condicao });
            let a = "loop {\n"@.len() as int;
            let b = a + decl_rust(corpo).len();
            &&& s.subrange(0, a) == "loop {\n"@
            &&& s.subrange(a, b) == decl_rust(corpo)
            &&& s.subrange(b, s.len() as int) == "    if "@ + expr_rust(condicao)
                + " { break; }\n}\n"@
        }),
{
    let s = decl_rust(Declaracao::Repita { corpo: Box::new(corpo), condicao });
    let a = "loop {\n"@.len() as int;
    let b = a + decl_rust(corpo).len();
    assert(s.subrange(0, a) =~= "loop {\n"@);
    assert(s.subrange(a, b) =~= decl_rust(corpo));
    assert(s.subrange(b, s.len() as int) =~= "    if "@ + expr_rust(condicao) + " { break; }\n}\n"@);
}

/// Toda operação aritmética sai entre parênteses, com cada operando inteiro
/// dentro deles: a ordem de avaliação fica explícita e não depende da
/// precedência da linguagem de destino.
pub proof fn lei_aritmetica_entre_parenteses(operador: Operador, esquerda: Expressao, direita: Expressao)
    requires
        operador == Operador::Soma || operador == Operador::Subtracao || operador
            == Operador::Multiplicacao || operador == Operador::Divisao,
    ensures
        ({
            let s = expr_rust(
                Expressao::Operacao { operador, esquerda: Box::new(esquerda), direita: Box::new(direita) },
            );
            let a = 1 + expr_rust(esquerda).len() as int;
            let b = a + 3;
            &&& s[0] == '('
            &&& s.last() == ')'
            &&& s.subrange(1, a) == expr_rust(esquerda)
            &&& s.subrange(a, b) == operador_rust(operador)
            &&& s.subrange(b, s.len() - 1) == expr_rust(direita)
        }),
{
    let s = expr_rust(
        Expressao::Operacao { operador, esquerda: Box::new(esquerda), direita: Box::new(direita) },
    );
    let a = 1 + expr_rust(esquerda).len() as int;
    let b = a + 3;
    reveal_strlit("(");
    reveal_strlit(")");
    reveal_strlit(" + ");
    reveal_strlit(" - ");
    reveal_strlit(" * ");
    reveal_strlit(" / ");
    assert(operador_rust(operador).len() == 3);
    assert(s.subrange(1, a) =~= expr_rust(esquerda));
    assert(s.subrange(a, b) =~= operador_rust(operador));
    assert(s.subrange(b, s.len() - 1) =~= expr_rust(direita));
}

} // verus!
