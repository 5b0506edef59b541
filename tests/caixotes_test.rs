use pbrlang::caixotes::{default_arquivo_principal, GerenciadorPacotes, Manifesto};

#[test]
fn manifesto_novo_tem_padroes() {
    let m = Manifesto::novo("pacote", "1.2.3");
    assert_eq!(m.nome, "pacote");
    assert_eq!(m.versao, "1.2.3");
    assert!(m.autores.is_empty());
    assert_eq!(m.principal, "src/principal.pbr");
    assert_eq!(m.principal, default_arquivo_principal());
    assert_eq!(m.licenca, "MIT");
    assert!(m.dependencias.is_empty());
    assert!(m.repositorio.is_empty());
}

#[test]
fn manifesto_em_texto_omite_vazios() {
    let m = Manifesto::novo("pkg", "1.0");
    assert_eq!(
        m.to_string().unwrap(),
        "nome = \"pkg\"\nversao = \"1.0\"\nprincipal = \"src/principal.pbr\"\nlicenca = \"MIT\""
    );
}

#[test]
fn manifesto_em_texto_completo() {
    let mut m = Manifesto::novo("pkg", "1.0");
    m.autores = vec!["Ana".to_string(), "Bia".to_string()];
    m.descricao = "Um pacote".to_string();
    m.dependencias = vec![("util".to_string(), "0.2".to_string()), ("rede".to_string(), "1".to_string())];
    m.palavras_chave = vec!["x".to_string()];
    m.repositorio = "https://exemplo".to_string();
    m.licenca = String::new();
    assert_eq!(
        m.to_string().unwrap(),
        "nome = \"pkg\"\nversao = \"1.0\"\nautores = [\"Ana\", \"Bia\"]\ndescricao = \"Um pacote\"\n\
         principal = \"src/principal.pbr\"\ndependencias = {\n    \"util\" = \"0.2\"\n    \"rede\" = \"1\"\n}\n\
         palavras_chave = [\"x\"]\nrepositorio = \"https://exemplo\""
    );
}

#[test]
fn manifesto_lido_de_texto() {
    let texto = "# comentário\nnome = \"meu\"\r\nversao = \"0.3\"\n\nautores = [\"Ana\", Bia ]\n\
                 dependencias = {\n  \"util\" = \"0.2\"\n  \"rede\" = \"1\"\n  \"util\" = \"0.5\"\n}\n\
                 desconhecida = 1\nlicenca = \"GPL\"\nsem igual\n";
    let m = Manifesto::parse(texto).unwrap();
    assert_eq!(m.nome, "meu");
    assert_eq!(m.versao, "0.3");
    assert_eq!(m.autores, vec!["Ana".to_string(), "Bia".to_string()]);
    assert_eq!(
        m.dependencias,
        vec![("util".to_string(), "0.5".to_string()), ("rede".to_string(), "1".to_string())]
    );
    assert_eq!(m.licenca, "GPL");
    assert_eq!(m.principal, "src/principal.pbr");
}

#[test]
fn manifesto_vazio_comeca_do_temporario() {
    let m = Manifesto::parse("").unwrap();
    assert_eq!(m.nome, "temp");
    assert_eq!(m.versao, "0.1.0");
    let m = Manifesto::parse("autores = []\npalavras_chave = nada").unwrap();
    assert_eq!(m.autores, vec![String::new()]);
    assert!(m.palavras_chave.is_empty());
}

#[test]
fn manifesto_ida_e_volta() {
    let mut m = Manifesto::novo("pkg", "2.0");
    m.autores = vec!["Ana".to_string()];
    m.dependencias = vec![("util".to_string(), "0.2".to_string())];
    let lido = Manifesto::parse(&m.to_string().unwrap()).unwrap();
    assert_eq!(lido.nome, "pkg");
    assert_eq!(lido.versao, "2.0");
    assert_eq!(lido.autores, m.autores);
    assert_eq!(lido.dependencias, m.dependencias);
    assert_eq!(lido.licenca, "MIT");
}

#[test]
fn gerenciador_de_pacotes() {
    let mut g = GerenciadorPacotes::novo("/tmp/cache".to_string());
    assert_eq!(g.repositorio(), "https://caixotes.pbrlang.org");
    assert_eq!(g.cache_dir(), "/tmp/cache");
    g.definir_repositorio("https://outro");
    assert_eq!(g.repositorio(), "https://outro");
    assert_eq!(g.listar_pacotes().unwrap(), vec!["exemplo".to_string(), "teste".to_string()]);
    assert_eq!(GerenciadorPacotes::versao_pedida(None), "latest");
    assert_eq!(GerenciadorPacotes::versao_pedida(Some("1.0")), "1.0");
}
