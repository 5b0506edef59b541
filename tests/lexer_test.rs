use pbrlang::lexer::{tokenizar, Lexer, LexerError, Token};

#[test]
fn para_cada_e_uma_palavra_reservada() {
    let tokens = tokenizar("para cada i").unwrap();
    assert_eq!(tokens, vec![Token::ParaCada, Token::Identificador("i".to_string()), Token::EOF]);
}

#[test]
fn para_sem_cada_volta_atras() {
    let tokens = tokenizar("para casa").unwrap();
    assert_eq!(
        tokens,
        vec![
            Token::Identificador("para".to_string()),
            Token::Identificador("casa".to_string()),
            Token::EOF
        ]
    );
    let tokens = tokenizar("para x").unwrap();
    assert_eq!(tokens[0], Token::Identificador("para".to_string()));
    assert_eq!(tokens[1], Token::Identificador("x".to_string()));
}

#[test]
fn palavras_reservadas_compostas() {
    let tokens = tokenizar("quando der erro falhar com x é igual a y").unwrap();
    assert_eq!(
        tokens,
        vec![
            Token::QuandoDerErro,
            Token::FalharCom,
            Token::Identificador("x".to_string()),
            Token::IgualA,
            Token::Identificador("y".to_string()),
            Token::EOF
        ]
    );
    let tokens = tokenizar("quando der x").unwrap();
    assert_eq!(tokens[0], Token::Identificador("quando".to_string()));
    assert_eq!(tokens[1], Token::Identificador("der".to_string()));
}

#[test]
fn texto_nao_terminado_falha() {
    assert_eq!(tokenizar("pense x = \"abc"), Err(LexerError::StringNaoTerminada));
}

#[test]
fn caractere_inesperado() {
    assert_eq!(tokenizar("a ! b"), Err(LexerError::CaractereInesperado('!')));
    assert_eq!(tokenizar("a # b"), Err(LexerError::CaractereInesperado('#')));
}

#[test]
fn operadores_e_comentarios() {
    let tokens = tokenizar("a >= 1 // comentário\n b != 2 <= 3 < 4 > 5 / 6").unwrap();
    assert_eq!(
        tokens,
        vec![
            Token::Identificador("a".to_string()),
            Token::MaiorIgual,
            Token::NumeroLiteral("1".to_string()),
            Token::Identificador("b".to_string()),
            Token::Diferente,
            Token::NumeroLiteral("2".to_string()),
            Token::MenorIgual,
            Token::NumeroLiteral("3".to_string()),
            Token::Menor,
            Token::NumeroLiteral("4".to_string()),
            Token::Maior,
            Token::NumeroLiteral("5".to_string()),
            Token::Dividido,
            Token::NumeroLiteral("6".to_string()),
            Token::EOF
        ]
    );
}

#[test]
fn literais_e_palavras() {
    let tokens = tokenizar("pense número n = 3.14 \"olá\" verdadeiro").unwrap();
    assert_eq!(
        tokens,
        vec![
            Token::Pense,
            Token::TipoNumero,
            Token::Identificador("n".to_string()),
            Token::Igual,
            Token::NumeroLiteral("3.14".to_string()),
            Token::TextoLiteral("olá".to_string()),
            Token::Verdadeiro,
            Token::EOF
        ]
    );
    assert_eq!(tokenizar("1.2.3"), Err(LexerError::CaractereInesperado('.')));
}

#[test]
fn lexer_passo_a_passo() {
    let mut lexer = Lexer::new("  { }");
    assert_eq!(lexer.proximo_token(), Ok(Token::AbreChave));
    assert_eq!(lexer.proximo_token(), Ok(Token::FechaChave));
    assert_eq!(lexer.proximo_token(), Ok(Token::EOF));
    assert_eq!(lexer.proximo_token(), Ok(Token::EOF));
}

#[test]
fn lexer_conta_linhas_e_colunas() {
    let mut lexer = Lexer::new("a\n  bc");
    assert_eq!((lexer.linha(), lexer.coluna()), (1, 1));
    assert_eq!(lexer.proximo_token(), Ok(Token::Identificador("a".to_string())));
    assert_eq!((lexer.linha(), lexer.coluna()), (1, 2));
    assert_eq!(lexer.proximo_token(), Ok(Token::Identificador("bc".to_string())));
    assert_eq!((lexer.linha(), lexer.coluna()), (2, 5));
}
