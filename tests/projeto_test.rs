use pbrlang::projeto::{nome_pacote, valor_configuracao};

#[test]
fn valor_de_configuracao() {
    let config = "nome = \"meu_projeto\"\nversao = \"0.2.1\"\r\nentrada = \"programa.pbr\"\n";
    assert_eq!(valor_configuracao(config, "nome ="), Some("meu_projeto".to_string()));
    assert_eq!(valor_configuracao(config, "versao ="), Some("0.2.1".to_string()));
    assert_eq!(valor_configuracao(config, "entrada ="), Some("programa.pbr".to_string()));
    assert_eq!(valor_configuracao(config, "autor ="), None);
    assert_eq!(valor_configuracao("nome = a = b", "nome ="), Some("a".to_string()));
    assert_eq!(valor_configuracao("  nome = x", "nome ="), None);
}

#[test]
fn nome_do_pacote() {
    assert_eq!(nome_pacote("app", "1.2.3"), "app_1_2_3");
    assert_eq!(nome_pacote("app", ""), "app_");
}
