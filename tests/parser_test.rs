use pbrlang::ast::{Declaracao, Expressao, Operador, Tipo};
use pbrlang::parser::{analisar_codigo, ErroSintaxe};

#[test]
fn test_parser_string_interpolation() -> Result<(), ErroSintaxe> {
    let codigo = r#"pense msg = "Olá, ${nome}!";"#;
    let programa = analisar_codigo(codigo)?;
    assert!(!programa.declaracoes.is_empty());

    if let Some(Declaracao::Variavel { nome, valor, .. }) = programa.declaracoes.first() {
        assert_eq!(nome, "msg");
        assert!(matches!(valor, Some(Expressao::TextoLiteral(_))));
    } else {
        panic!("Esperava uma declaração de variável");
    }

    Ok(())
}

#[test]
fn test_parser_estruturas_controle() -> Result<(), ErroSintaxe> {
    let codigo = r#"
        se x > 0 {
            mostre "Positivo";
        } senão {
            mostre "Não positivo";
        }
        
        para cada i de 1 até 10 {
            se i == 5 { continue; }
            se i == 8 { pare; }
        }
        
        enquanto x < 10 {
            x = x + 1;
        }
        
        repita {
            x = x - 1;
        } até x <= 0;
    "#;
    let programa = analisar_codigo(codigo)?;
    assert!(!programa.declaracoes.is_empty());

    let tem_se = programa.declaracoes.iter().any(|d| matches!(d, Declaracao::Se { .. }));
    let tem_para = programa.declaracoes.iter().any(|d| matches!(d, Declaracao::ParaCada { .. }));
    let tem_enquanto = programa.declaracoes.iter().any(|d| matches!(d, Declaracao::Enquanto { .. }));
    let tem_repita = programa.declaracoes.iter().any(|d| matches!(d, Declaracao::Repita { .. }));

    assert!(tem_se, "Deve conter estrutura 'se'");
    assert!(tem_para, "Deve conter estrutura 'para cada'");
    assert!(tem_enquanto, "Deve conter estrutura 'enquanto'");
    assert!(tem_repita, "Deve conter estrutura 'repita'");

    Ok(())
}

#[test]
fn test_parser_operadores() -> Result<(), ErroSintaxe> {
    let codigo = r#"
        pense a = 5 + 3 * 2;
        pense b = 10 resto 3;
        pense c = não verdadeiro;
        pense d = x em lista;
        pense e = a > b e b < c;
    "#;
    let programa = analisar_codigo(codigo)?;
    assert!(!programa.declaracoes.is_empty());

    let tem_aritmetico = programa.declaracoes.iter().any(|d| {
        if let Declaracao::Variavel { valor: Some(Expressao::Operacao { operador, .. }), .. } = d {
            matches!(operador, Operador::Soma | Operador::Multiplicacao)
        } else {
            false
        }
    });

    let tem_resto = programa.declaracoes.iter().any(|d| {
        if let Declaracao::Variavel { valor: Some(Expressao::Operacao { operador, .. }), .. } = d {
            matches!(operador, Operador::Resto)
        } else {
            false
        }
    });

    assert!(tem_aritmetico, "Deve conter operadores aritméticos");
    assert!(tem_resto, "Deve conter operador 'resto'");

    Ok(())
}

fn numero(e: &Expressao, n: &str) -> bool {
    matches!(e, Expressao::NumeroLiteral(t) if t == n)
}

#[test]
fn precedencia_de_soma_e_produto() {
    let programa = analisar_codigo("5 + 3 * 2").unwrap();
    assert_eq!(programa.declaracoes.len(), 1);
    match &programa.declaracoes[0] {
        Declaracao::Expressao(Expressao::Operacao { operador: Operador::Soma, esquerda, direita }) => {
            assert!(numero(esquerda, "5"));
            match &**direita {
                Expressao::Operacao { operador: Operador::Multiplicacao, esquerda, direita } => {
                    assert!(numero(esquerda, "3"));
                    assert!(numero(direita, "2"));
                }
                outro => panic!("esperava um produto: {:?}", outro),
            }
        }
        outro => panic!("esperava uma soma: {:?}", outro),
    }
}

#[test]
fn subtracao_associa_a_esquerda() {
    let programa = analisar_codigo("10 - 3 - 2").unwrap();
    match &programa.declaracoes[0] {
        Declaracao::Expressao(Expressao::Operacao { operador: Operador::Subtracao, esquerda, direita }) => {
            assert!(numero(direita, "2"));
            match &**esquerda {
                Expressao::Operacao { operador: Operador::Subtracao, esquerda, direita } => {
                    assert!(numero(esquerda, "10"));
                    assert!(numero(direita, "3"));
                }
                outro => panic!("esperava (10 - 3): {:?}", outro),
            }
        }
        outro => panic!("esperava uma subtração: {:?}", outro),
    }
}

#[test]
fn comparacoes_associam_a_esquerda() {
    let programa = analisar_codigo("a < b == c").unwrap();
    match &programa.declaracoes[0] {
        Declaracao::Expressao(Expressao::Operacao { operador: Operador::Igual, esquerda, .. }) => {
            assert!(matches!(&**esquerda, Expressao::Operacao { operador: Operador::Menor, .. }));
        }
        outro => panic!("esperava uma igualdade: {:?}", outro),
    }
}

#[test]
fn igualdade_por_extenso_e_logicos() {
    let programa = analisar_codigo("x é igual a 1 ou y e z").unwrap();
    match &programa.declaracoes[0] {
        Declaracao::Expressao(Expressao::Operacao { operador: Operador::Ou, esquerda, direita }) => {
            assert!(matches!(&**esquerda, Expressao::Operacao { operador: Operador::Igual, .. }));
            assert!(matches!(&**direita, Expressao::Operacao { operador: Operador::E, .. }));
        }
        outro => panic!("esperava uma disjunção: {:?}", outro),
    }
}

#[test]
fn atribuicao_exige_identificador() {
    let erro = analisar_codigo("1 = 2").unwrap_err();
    assert!(erro.esperado.contains("identificador"));
    let programa = analisar_codigo("x = y = 3").unwrap();
    match &programa.declaracoes[0] {
        Declaracao::Expressao(Expressao::Atribuicao { nome, valor }) => {
            assert_eq!(nome, "x");
            assert!(matches!(&**valor, Expressao::Atribuicao { .. }));
        }
        outro => panic!("esperava uma atribuição: {:?}", outro),
    }
}

#[test]
fn modelo_preserva_visibilidade() {
    let programa = analisar_codigo("público modelo Pessoa { público nome: texto, idade: número }").unwrap();
    match &programa.declaracoes[0] {
        Declaracao::Modelo { nome, campos, publico } => {
            assert_eq!(nome, "Pessoa");
            assert!(*publico);
            assert_eq!(campos.len(), 2);
            assert_eq!(campos[0].0, "nome");
            assert!(matches!(campos[0].1, Tipo::Texto));
            assert!(campos[0].2);
            assert_eq!(campos[1].0, "idade");
            assert!(matches!(campos[1].1, Tipo::Numero));
            assert!(!campos[1].2);
        }
        outro => panic!("esperava um modelo: {:?}", outro),
    }
}

#[test]
fn modulo_funcao_e_importacao() {
    let codigo = r#"
        importar util.texto
        módulo principal {
            público faça calcular_soma(a: número, b: número): número {
                volte a + b
            }
            faça principal() {
                mostre calcular_soma(1, 2)
            }
        }
    "#;
    let programa = analisar_codigo(codigo).unwrap();
    assert_eq!(programa.declaracoes.len(), 2);
    match &programa.declaracoes[0] {
        Declaracao::Importar { caminho } => assert_eq!(caminho, &vec!["util".to_string(), "texto".to_string()]),
        outro => panic!("esperava uma importação: {:?}", outro),
    }
    match &programa.declaracoes[1] {
        Declaracao::Modulo { nome, declaracoes } => {
            assert_eq!(nome, "principal");
            assert_eq!(declaracoes.len(), 2);
            match &declaracoes[0] {
                Declaracao::Funcao { nome, parametros, tipo_retorno, publico, .. } => {
                    assert_eq!(nome, "calcular_soma");
                    assert_eq!(parametros.len(), 2);
                    assert!(matches!(tipo_retorno, Some(Tipo::Numero)));
                    assert!(*publico);
                }
                outro => panic!("esperava uma função: {:?}", outro),
            }
            assert!(matches!(&declaracoes[1], Declaracao::Funcao { publico: false, .. }));
        }
        outro => panic!("esperava um módulo: {:?}", outro),
    }
}

#[test]
fn tente_quando_der_erro() {
    let programa = analisar_codigo("tente { f() } quando der erro falha { mostre falha }").unwrap();
    match &programa.declaracoes[0] {
        Declaracao::QuandoDerErro { variavel_erro, .. } => assert_eq!(variavel_erro, "falha"),
        outro => panic!("esperava tratamento de erro: {:?}", outro),
    }
}

#[test]
fn literais_compostos() {
    let programa = analisar_codigo(r#"pense l = [1, 2.5, "a"]; pense d = {"k": nada}; pense m = p.nome"#).unwrap();
    assert_eq!(programa.declaracoes.len(), 3);
    assert!(matches!(&programa.declaracoes[0],
        Declaracao::Variavel { valor: Some(Expressao::ListaLiteral(v)), .. } if v.len() == 3));
    assert!(matches!(&programa.declaracoes[1],
        Declaracao::Variavel { valor: Some(Expressao::DicionarioLiteral(v)), .. } if v.len() == 1));
    assert!(matches!(&programa.declaracoes[2],
        Declaracao::Variavel { valor: Some(Expressao::AcessoMembro { membro, .. }), .. } if membro == "nome"));
}

#[test]
fn texto_de_varias_linhas() {
    let programa = analisar_codigo("pense t = \"\"\"um\ndois\"\"\"").unwrap();
    assert!(matches!(&programa.declaracoes[0],
        Declaracao::Variavel { valor: Some(Expressao::TextoLiteral(t)), .. } if t == "um\ndois"));
}

#[test]
fn erro_de_sintaxe_para_no_primeiro() {
    let erro = analisar_codigo("pense = 3").unwrap_err();
    assert_eq!(erro.posicao, 6);
    assert!(analisar_codigo("se x { ").is_err());
    assert!(analisar_codigo("pense t = \"aberto").is_err());
}

#[test]
fn programa_vazio_e_comentarios() {
    let programa = analisar_codigo("  // só um comentário\n\n").unwrap();
    assert!(programa.declaracoes.is_empty());
}

#[test]
fn declaracoes_em_ordem_e_e_mais_frouxo_que_comparacao() {
    let programa = analisar_codigo("pense a = 1; pense f = a > b e b < c;").unwrap();
    assert_eq!(programa.declaracoes.len(), 2);
    assert!(matches!(&programa.declaracoes[0], Declaracao::Variavel { nome, .. } if nome == "a"));
    match &programa.declaracoes[1] {
        Declaracao::Variavel { valor: Some(Expressao::Operacao { operador: Operador::E, esquerda, direita }), .. } => {
            assert!(matches!(&**esquerda, Expressao::Operacao { operador: Operador::Maior, .. }));
            assert!(matches!(&**direita, Expressao::Operacao { operador: Operador::Menor, .. }));
        }
        outro => panic!("esperava uma conjunção: {:?}", outro),
    }
    let copia = programa.declaracoes[1].clone();
    assert!(matches!(copia, Declaracao::Variavel { nome, .. } if nome == "f"));
}
