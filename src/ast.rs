use vstd::prelude::*;
use crate::gramatica::{
    campos_v, decl_v, decls_v, expr_v, exprs_v, nomes_v, opcional_v, parametros_v, pares_v,
    programa_v, tipo_opcional_v,
};

verus! {

/// Tipos da linguagem; recursivo apenas por `Opcional`.
#[derive(Debug)]
pub enum Tipo {
    Texto,
    Numero,
    Logico,
    Void,
    Personalizado(String),
    Opcional(Box<Tipo>),
}

/// Expressões da linguagem. Um literal numérico guarda o seu texto decimal
/// (dígitos com no máximo um ponto).
#[derive(Debug)]
pub enum Expressao {
    TextoLiteral(String),
    NumeroLiteral(String),
    LogicoLiteral(bool),
    Nada,
    ListaLiteral(Vec<Expressao>),
    DicionarioLiteral(Vec<(Expressao, Expressao)>),
    Identificador(String),
    Chamada { nome: String, argumentos: Vec<Expressao> },
    Operacao { operador: Operador, esquerda: Box<Expressao>, direita: Box<Expressao> },
    Atribuicao { nome: String, valor: Box<Expressao> },
    AcessoMembro { objeto: Box<Expressao>, membro: String },
    Negacao { expressao: Box<Expressao> },
}

/// Operadores binários.
#[derive(Debug, Clone, Copy, PartialEq, Eq, Structural)]
pub enum Operador {
    Soma,
    Subtracao,
    Multiplicacao,
    Divisao,
    Resto,
    Igual,
    Diferente,
    Maior,
    Menor,
    MaiorIgual,
    MenorIgual,
    Contem,
    E,
    Ou,
}

/// Declarações (instruções) da linguagem.
#[derive(Debug)]
pub enum Declaracao {
    Variavel { nome: String, tipo: Option<Tipo>, valor: Option<Expressao>, publico: bool },
    Expressao(Expressao),
    Bloco(Vec<Declaracao>),
    Se { condicao: Expressao, bloco_se: Box<Declaracao>, bloco_senao: Option<Box<Declaracao>> },
    ParaCada { variavel: String, inicio: Expressao, fim: Expressao, corpo: Box<Declaracao> },
    Enquanto { condicao: Expressao, corpo: Box<Declaracao> },
    Repita { corpo: Box<Declaracao>, condicao: Expressao },
    Pare,
    Continue,
    QuandoDerErro { bloco_try: Box<Declaracao>, variavel_erro: String, bloco_catch: Box<Declaracao> },
    Funcao {
        nome: String,
        parametros: Vec<(String, Tipo)>,
        tipo_retorno: Option<Tipo>,
        corpo: Box<Declaracao>,
        publico: bool,
    },
    Retorno(Option<Expressao>),
    Mostrar(Expressao),
    Modelo { nome: String, campos: Vec<(String, Tipo, bool)>, publico: bool },
    Modulo { nome: String, declaracoes: Vec<Declaracao> },
    Importar { caminho: Vec<String> },
}

/// Um programa: as declarações de topo, na ordem do código-fonte.
#[derive(Debug)]
pub struct Programa {
    pub declaracoes: Vec<Declaracao>,
}

impl Programa {
    pub fn new() -> (r: Programa)
        ensures
            r.declaracoes@.len() == 0,
    {
        Programa { declaracoes: Vec::new() }
    }

    pub fn adicionar_declaracao(&mut self, declaracao: Declaracao)
        ensures
            final(self).declaracoes@ == old(self).declaracoes@.push(declaracao),
    {
        self.declaracoes.push(declaracao);
    }
}

} // verus!

verus! {

fn clonar_tipo(t: &Tipo) -> (r: Tipo)
    ensures
        crate::gramatica::tipo_v(r) == crate::gramatica::tipo_v(*t),
    decreases t,
{
    match t {
        Tipo::Texto => Tipo::Texto,
        Tipo::Numero => Tipo::Numero,
        Tipo::Logico => Tipo::Logico,
        Tipo::Void => Tipo::Void,
        Tipo::Personalizado(n) => Tipo::Personalizado(n.clone()),
        Tipo::Opcional(b) => Tipo::Opcional(Box::new(clonar_tipo(b))),
    }
}

impl Clone for Tipo {
    fn clone(&self) -> (r: Tipo)
        ensures
            crate::gramatica::tipo_v(r) == crate::gramatica::tipo_v(*self),
    {
        clonar_tipo(self)
    }
}

} // verus!

verus! {

fn clonar_expr(e: &Expressao) -> (r: Expressao)
    ensures
        expr_v(r) == expr_v(*e),
    decreases e,
{
    match e {
        Expressao::TextoLiteral(t) => Expressao::TextoLiteral(t.clone()),
        Expressao::NumeroLiteral(n) => Expressao::NumeroLiteral(n.clone()),
        Expressao::LogicoLiteral(b) => Expressao::LogicoLiteral(*b),
        Expressao::Nada => Expressao::Nada,
        Expressao::ListaLiteral(v) => Expressao::ListaLiteral(clonar_exprs(v)),
        Expressao::DicionarioLiteral(v) => Expressao::DicionarioLiteral(clonar_pares(v)),
        Expressao::Identificador(n) => Expressao::Identificador(n.clone()),
        Expressao::Chamada { nome, argumentos } => Expressao::Chamada {
            nome: nome.clone(),
            argumentos: clonar_exprs(argumentos),
        },
        Expressao::Operacao { operador, esquerda, direita } => Expressao::Operacao {
            operador: *operador,
            esquerda: Box::new(clonar_expr(esquerda)),
            direita: Box::new(clonar_expr(direita)),
        },
        Expressao::Atribuicao { nome, valor } => Expressao::Atribuicao {
            nome: nome.clone(),
            valor: Box::new(clonar_expr(valor)),
        },
        Expressao::AcessoMembro { objeto, membro } => Expressao::AcessoMembro {
            objeto: Box::new(clonar_expr(objeto)),
            membro: membro.clone(),
        },
        Expressao::Negacao { expressao } => Expressao::Negacao {
            expressao: Box::new(clonar_expr(expressao)),
        },
    }
}

fn clonar_exprs(v: &Vec<Expressao>) -> (r: Vec<Expressao>)
    ensures
        exprs_v(r@) == exprs_v(v@),
    decreases v,
{
    let mut r: Vec<Expressao> = Vec::new();
    let mut i: usize = 0;
    while i < v.len()
        invariant
            i <= v.len(),
            r.len() == i,
            exprs_v(r@) == exprs_v(v@.take(i as int)),
        decreases v.len() - i,
    {
        let e = clonar_expr(&v[i]);
        proof {
            assert(v@.take(i + 1).drop_last() =~= v@.take(i as int));
            assert(r@.push(e).drop_last() =~= r@);
        }
        r.push(e);
        i += 1;
    }
    proof {
        assert(v@.take(v.len() as int) =~= v@);
    }
    r
}

fn clonar_pares(v: &Vec<(Expressao, Expressao)>) -> (r: Vec<(Expressao, Expressao)>)
    ensures
        pares_v(r@) == pares_v(v@),
    decreases v,
{
    let mut r: Vec<(Expressao, Expressao)> = Vec::new();
    let mut i: usize = 0;
    while i < v.len()
        invariant
            i <= v.len(),
            r.len() == i,
            pares_v(r@) == pares_v(v@.take(i as int)),
        decreases v.len() - i,
    {
        let p = (clonar_expr(&v[i].0), clonar_expr(&v[i].1));
        proof {
            assert(v@.take(i + 1).drop_last() =~= v@.take(i as int));
            assert(r@.push(p).drop_last() =~= r@);
        }
        r.push(p);
        i += 1;
    }
    proof {
        assert(v@.take(v.len() as int) =~= v@);
    }
    r
}

impl Clone for Expressao {
    fn clone(&self) -> (r: Expressao)
        ensures
            expr_v(r) == expr_v(*self),
    {
        clonar_expr(self)
    }
}

fn clonar_tipo_opcional(t: &Option<Tipo>) -> (r: Option<Tipo>)
    ensures
        tipo_opcional_v(r) == tipo_opcional_v(*t),
{
    match t {
        Some(t) => Some(clonar_tipo(t)),
        None => None,
    }
}

fn clonar_parametros(v: &Vec<(String, Tipo)>) -> (r: Vec<(String, Tipo)>)
    ensures
        parametros_v(r@) == parametros_v(v@),
{
    let mut r: Vec<(String, Tipo)> = Vec::new();
    let mut i: usize = 0;
    while i < v.len()
        invariant
            i <= v.len(),
            r.len() == i,
            parametros_v(r@) == parametros_v(v@.take(i as int)),
        decreases v.len() - i,
    {
        let p = (v[i].0.clone(), clonar_tipo(&v[i].1));
        proof {
            assert forall|k: int| 0 <= k < i implies #[trigger] parametros_v(r@.push(p))[k] == parametros_v(
                v@.take(i + 1),
            )[k] by {
                assert(r@.push(p)[k] == r@[k]);
                assert(v@.take(i + 1)[k] == v@.take(i as int)[k]);
                assert(parametros_v(r@)[k] == parametros_v(v@.take(i as int))[k]);
            }
            assert(parametros_v(r@.push(p)) =~= parametros_v(v@.take(i + 1)));
        }
        r.push(p);
        i += 1;
    }
    proof {
        assert(v@.take(v.len() as int) =~= v@);
    }
    r
}

fn clonar_campos(v: &Vec<(String, Tipo, bool)>) -> (r: Vec<(String, Tipo, bool)>)
    ensures
        campos_v(r@) == campos_v(v@),
{
    let mut r: Vec<(String, Tipo, bool)> = Vec::new();
    let mut i: usize = 0;
    while i < v.len()
        invariant
            i <= v.len(),
            r.len() == i,
            campos_v(r@) == campos_v(v@.take(i as int)),
        decreases v.len() - i,
    {
        let c = (v[i].0.clone(), clonar_tipo(&v[i].1), v[i].2);
        proof {
            assert forall|k: int| 0 <= k < i implies #[trigger] campos_v(r@.push(c))[k] == campos_v(
                v@.take(i + 1),
            )[k] by {
                assert(r@.push(c)[k] == r@[k]);
                assert(v@.take(i + 1)[k] == v@.take(i as int)[k]);
                assert(campos_v(r@)[k] == campos_v(v@.take(i as int))[k]);
            }
            assert(campos_v(r@.push(c)) =~= campos_v(v@.take(i + 1)));
        }
        r.push(c);
        i += 1;
    }
    proof {
        assert(v@.take(v.len() as int) =~= v@);
    }
    r
}

fn clonar_nomes(v: &Vec<String>) -> (r: Vec<String>)
    ensures
        nomes_v(r@) == nomes_v(v@),
{
    let mut r: Vec<String> = Vec::new();
    let mut i: usize = 0;
    while i < v.len()
        invariant
            i <= v.len(),
            r.len() == i,
            nomes_v(r@) == nomes_v(v@.take(i as int)),
        decreases v.len() - i,
    {
        let n = v[i].clone();
        proof {
            assert forall|k: int| 0 <= k < i implies #[trigger] nomes_v(r@.push(n))[k] == nomes_v(
                v@.take(i + 1),
            )[k] by {
                assert(r@.push(n)[k] == r@[k]);
                assert(v@.take(i + 1)[k] == v@.take(i as int)[k]);
                assert(nomes_v(r@)[k] == nomes_v(v@.take(i as int))[k]);
            }
            assert(nomes_v(r@.push(n)) =~= nomes_v(v@.take(i + 1)));
        }
        r.push(n);
        i += 1;
    }
    proof {
        assert(v@.take(v.len() as int) =~= v@);
    }
    r
}

fn clonar_opcional(e: &Option<Expressao>) -> (r: Option<Expressao>)
    ensures
        opcional_v(r) == opcional_v(*e),
{
    match e {
        Some(e) => Some(clonar_expr(e)),
        None => None,
    }
}

#[verifier::spinoff_prover]
#[verifier::rlimit(100)]
fn clonar_decl(d: &Declaracao) -> (r: Declaracao)
    ensures
        decl_v(r) == decl_v(*d),
    decreases d,
{
    match d {
        Declaracao::Variavel { nome, tipo, valor, publico } => Declaracao::Variavel {
            nome: nome.clone(),
            tipo: clonar_tipo_opcional(tipo),
            valor: clonar_opcional(valor),
            publico: *publico,
        },
        Declaracao::Expressao(e) => Declaracao::Expressao(clonar_expr(e)),
        Declaracao::Bloco(ds) => Declaracao::Bloco(clonar_decls(ds)),
        Declaracao::Se { condicao, bloco_se, bloco_senao } => Declaracao::Se {
            condicao: clonar_expr(condicao),
            bloco_se: Box::new(clonar_decl(bloco_se)),
            bloco_senao: match bloco_senao {
                Some(b) => Some(Box::new(clonar_decl(b))),
                None => None,
            },
        },
        Declaracao::ParaCada { variavel, inicio, fim, corpo } => Declaracao::ParaCada {
            variavel: variavel.clone(),
            inicio: clonar_expr(inicio),
            fim: clonar_expr(fim),
            corpo: Box::new(clonar_decl(corpo)),
        },
        Declaracao::Enquanto { condicao, corpo } => Declaracao::Enquanto {
            condicao: clonar_expr(condicao),
            corpo: Box::new(clonar_decl(corpo)),
        },
        Declaracao::Repita { corpo, condicao } => Declaracao::Repita {
            corpo: Box::new(clonar_decl(corpo)),
            condicao: clonar_expr(condicao),
        },
        Declaracao::Pare => Declaracao::Pare,
        Declaracao::Continue => Declaracao::Continue,
        Declaracao::QuandoDerErro { bloco_try, variavel_erro, bloco_catch } =>
            Declaracao::QuandoDerErro {
            bloco_try: Box::new(clonar_decl(bloco_try)),
            variavel_erro: variavel_erro.clone(),
            bloco_catch: Box::new(clonar_decl(bloco_catch)),
        },
        Declaracao::Funcao { nome, parametros, tipo_retorno, corpo, publico } => Declaracao::Funcao {
            nome: nome.clone(),
            parametros: clonar_parametros(parametros),
            tipo_retorno: clonar_tipo_opcional(tipo_retorno),
            corpo: Box::new(clonar_decl(corpo)),
            publico: *publico,
        },
        Declaracao::Retorno(e) => Declaracao::Retorno(clonar_opcional(e)),
        Declaracao::Mostrar(e) => Declaracao::Mostrar(clonar_expr(e)),
        Declaracao::Modelo { nome, campos, publico } => Declaracao::Modelo {
            nome: nome.clone(),
            campos: clonar_campos(campos),
            publico: *publico,
        },
        Declaracao::Modulo { nome, declaracoes } => Declaracao::Modulo {
            nome: nome.clone(),
            declaracoes: clonar_decls(declaracoes),
        },
        Declaracao::Importar { caminho } => Declaracao::Importar { caminho: clonar_nomes(caminho) },
    }
}

fn clonar_decls(v: &Vec<Declaracao>) -> (r: Vec<Declaracao>)
    ensures
        decls_v(r@) == decls_v(v@),
    decreases v,
{
    let mut r: Vec<Declaracao> = Vec::new();
    let mut i: usize = 0;
    while i < v.len()
        invariant
            i <= v.len(),
            r.len() == i,
            decls_v(r@) == decls_v(v@.take(i as int)),
        decreases v.len() - i,
    {
        let d = clonar_decl(&v[i]);
        proof {
            assert(v@.take(i + 1).drop_last() =~= v@.take(i as int));
            assert(r@.push(d).drop_last() =~= r@);
        }
        r.push(d);
        i += 1;
    }
    proof {
        assert(v@.take(v.len() as int) =~= v@);
    }
    r
}

impl Clone for Declaracao {
    fn clone(&self) -> (r: Declaracao)
        ensures
            decl_v(r) == decl_v(*self),
    {
        clonar_decl(self)
    }
}

impl Clone for Programa {
    fn clone(&self) -> (r: Programa)
        ensures
            programa_v(r) == programa_v(*self),
    {
        Programa { declaracoes: clonar_decls(&self.declaracoes) }
    }
}

} // verus!
