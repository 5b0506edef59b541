use vstd::prelude::*;
use crate::ast::{Declaracao, Expressao, Operador, Programa, Tipo};
use crate::lexer::{de_palavra, digito, espaco, fim_palavra, inicio_de_palavra};

verus! {

/// Um tipo como valor matemático.
pub enum TipoV {
    Texto,
    Numero,
    Logico,
    Void,
    Personalizado(Seq<char>),
    Opcional(Box<TipoV>),
}

/// Uma expressão como valor matemático.
pub enum ExprV {
    Texto(Seq<char>),
    Numero(Seq<char>),
    Logico(bool),
    Nada,
    Lista(Seq<ExprV>),
    Dicionario(Seq<(ExprV, ExprV)>),
    Ident(Seq<char>),
    Chamada(Seq<char>, Seq<ExprV>),
    Op(Operador, Box<ExprV>, Box<ExprV>),
    Atrib(Seq<char>, Box<ExprV>),
    Membro(Box<ExprV>, Seq<char>),
    Neg(Box<ExprV>),
}

/// Uma declaração como valor matemático.
pub enum DeclV {
    Variavel(Seq<char>, Option<TipoV>, Option<ExprV>, bool),
    Expr(ExprV),
    Bloco(Seq<DeclV>),
    Se(ExprV, Box<DeclV>, Option<Box<DeclV>>),
    ParaCada(Seq<char>, ExprV, ExprV, Box<DeclV>),
    Enquanto(ExprV, Box<DeclV>),
    Repita(Box<DeclV>, ExprV),
    Pare,
    Continue,
    QuandoDerErro(Box<DeclV>, Seq<char>, Box<DeclV>),
    Funcao(Seq<char>, Seq<(Seq<char>, TipoV)>, Option<TipoV>, Box<DeclV>, bool),
    Retorno(Option<ExprV>),
    Mostrar(ExprV),
    Modelo(Seq<char>, Seq<(Seq<char>, TipoV, bool)>, bool),
    Modulo(Seq<char>, Seq<DeclV>),
    Importar(Seq<Seq<char>>),
}

pub open spec fn tipo_v(t: Tipo) -> TipoV
    decreases t,
{
    match t {
        Tipo::Texto => TipoV::Texto,
        Tipo::Numero => TipoV::Numero,
        Tipo::Logico => TipoV::Logico,
        Tipo::Void => TipoV::Void,
        Tipo::Personalizado(n) => TipoV::Personalizado(n@),
        Tipo::Opcional(b) => TipoV::Opcional(Box::new(tipo_v(*b))),
    }
}

pub open spec fn tipo_opcional_v(t: Option<Tipo>) -> Option<TipoV> {
    match t {
        Some(t) => Some(tipo_v(t)),
        None => None,
    }
}

pub open spec fn expr_v(e: Expressao) -> ExprV
    decreases e,
{
    match e {
        Expressao::TextoLiteral(t) => ExprV::Texto(t@),
        Expressao::NumeroLiteral(n) => ExprV::Numero(n@),
        Expressao::LogicoLiteral(b) => ExprV::Logico(b),
        Expressao::Nada => ExprV::Nada,
        Expressao::ListaLiteral(v) => ExprV::Lista(exprs_v(v@)),
        Expressao::DicionarioLiteral(v) => ExprV::Dicionario(pares_v(v@)),
        Expressao::Identificador(n) => ExprV::Ident(n@),
        Expressao::Chamada { nome, argumentos } => ExprV::Chamada(nome@, exprs_v(argumentos@)),
        Expressao::Operacao { operador, esquerda, direita } => ExprV::Op(
            operador,
            Box::new(expr_v(*esquerda)),
            Box::new(expr_v(*direita)),
        ),
        Expressao::Atribuicao { nome, valor } => ExprV::Atrib(nome@, Box::new(expr_v(*valor))),
        Expressao::AcessoMembro { objeto, membro } => ExprV::Membro(Box::new(expr_v(*objeto)), membro@),
        Expressao::Negacao { expressao } => ExprV::Neg(Box::new(expr_v(*expressao))),
    }
}

pub open spec fn exprs_v(s: Seq<Expressao>) -> Seq<ExprV>
    decreases s,
{
    if s.len() == 0 {
        Seq::empty()
    } else {
        exprs_v(s.drop_last()).push(expr_v(s.last()))
    }
}

pub open spec fn pares_v(s: Seq<(Expressao, Expressao)>) -> Seq<(ExprV, ExprV)>
    decreases s,
{
    if s.len() == 0 {
        Seq::empty()
    } else {
        pares_v(s.drop_last()).push((expr_v(s.last().0), expr_v(s.last().1)))
    }
}

pub open spec fn opcional_v(e: Option<Expressao>) -> Option<ExprV> {
    match e {
        Some(e) => Some(expr_v(e)),
        None => None,
    }
}

pub open spec fn parametros_v(s: Seq<(String, Tipo)>) -> Seq<(Seq<char>, TipoV)> {
    s.map_values(|p: (String, Tipo)| (p.0@, tipo_v(p.1)))
}

pub open spec fn campos_v(s: Seq<(String, Tipo, bool)>) -> Seq<(Seq<char>, TipoV, bool)> {
    s.map_values(|c: (String, Tipo, bool)| (c.0@, tipo_v(c.1), c.2))
}

pub open spec fn nomes_v(s: Seq<String>) -> Seq<Seq<char>> {
    s.map_values(|n: String| n@)
}

pub open spec fn decl_v(d: Declaracao) -> DeclV
    decreases d,
{
    match d {
        Declaracao::Variavel { nome, tipo, valor, publico } => DeclV::Variavel(
            nome@,
            tipo_opcional_v(tipo),
            opcional_v(valor),
            publico,
        ),
        Declaracao::Expressao(e) => DeclV::Expr(expr_v(e)),
        Declaracao::Bloco(ds) => DeclV::Bloco(decls_v(ds@)),
        Declaracao::Se { condicao, bloco_se, bloco_senao } => DeclV::Se(
            expr_v(condicao),
            Box::new(decl_v(*bloco_se)),
            match bloco_senao {
                Some(b) => Some(Box::new(decl_v(*b))),
                None => None,
            },
        ),
        Declaracao::ParaCada { variavel, inicio, fim, corpo } => DeclV::ParaCada(
            variavel@,
            expr_v(inicio),
            expr_v(fim),
            Box::new(decl_v(*corpo)),
        ),
        Declaracao::Enquanto { condicao, corpo } => DeclV::Enquanto(
            expr_v(condicao),
            Box::new(decl_v(*corpo)),
        ),
        Declaracao::Repita { corpo, condicao } => DeclV::Repita(
            Box::new(decl_v(*corpo)),
            expr_v(condicao),
        ),
        Declaracao::Pare => DeclV::Pare,
        Declaracao::Continue => DeclV::Continue,
        Declaracao::QuandoDerErro { bloco_try, variavel_erro, bloco_catch } => DeclV::QuandoDerErro(
            Box::new(decl_v(*bloco_try)),
            variavel_erro@,
            Box::new(decl_v(*bloco_catch)),
        ),
        Declaracao::Funcao { nome, parametros, tipo_retorno, corpo, publico } => DeclV::Funcao(
            nome@,
            parametros_v(parametros@),
            tipo_opcional_v(tipo_retorno),
            Box::new(decl_v(*corpo)),
            publico,
        ),
        Declaracao::Retorno(e) => DeclV::Retorno(opcional_v(e)),
        Declaracao::Mostrar(e) => DeclV::Mostrar(expr_v(e)),
        Declaracao::Modelo { nome, campos, publico } => DeclV::Modelo(
            nome@,
            campos_v(campos@),
            publico,
        ),
        Declaracao::Modulo { nome, declaracoes } => DeclV::Modulo(nome@, decls_v(declaracoes@)),
        Declaracao::Importar { caminho } => DeclV::Importar(nomes_v(caminho@)),
    }
}

pub open spec fn decls_v(s: Seq<Declaracao>) -> Seq<DeclV>
    decreases s,
{
    if s.len() == 0 {
        Seq::empty()
    } else {
        decls_v(s.drop_last()).push(decl_v(s.last()))
    }
}

pub open spec fn programa_v(p: Programa) -> Seq<DeclV> {
    decls_v(p.declaracoes@)
}

// ---------------------------------------------------------------------------
// O léxico do analisador: o que se ignora, caracteres e palavras aceitos.

/// O fim de um comentário: a próxima quebra de linha (sem incluí-la) ou o fim.
pub open spec fn fim_comentario(s: Seq<char>, i: int) -> int
    decreases s.len() - i,
{
    if i < 0 || i >= s.len() || s[i] == '\n' {
        i
    } else {
        fim_comentario(s, i + 1)
    }
}

/// A posição depois dos espaços em branco e comentários `//` a partir de `i`.
pub open spec fn pula(s: Seq<char>, i: int) -> int
    decreases s.len() - i,
{
    if i < 0 || i >= s.len() {
        i
    } else if espaco(s[i]) {
        pula(s, i + 1)
    } else if s[i] == '/' && i + 1 < s.len() && s[i + 1] == '/' {
        let j = fim_comentario(s, i + 2);
        if i < j <= s.len() {
            pula(s, j)
        } else {
            j
        }
    } else {
        i
    }
}

/// Aceita o caractere `c` depois do que se ignora: se aceito, e onde fica o cursor.
pub open spec fn aceita(s: Seq<char>, i: int, c: char) -> (bool, int) {
    let j = pula(s, i);
    if 0 <= j < s.len() && s[j] == c {
        (true, j + 1)
    } else {
        (false, j)
    }
}

/// Aceita os caracteres `a` e `b` seguidos depois do que se ignora.
pub open spec fn aceita2(s: Seq<char>, i: int, a: char, b: char) -> (bool, int) {
    let j = pula(s, i);
    if 0 <= j && j + 1 < s.len() && s[j] == a && s[j + 1] == b {
        (true, j + 2)
    } else {
        (false, j)
    }
}

/// A palavra que começa em `j`.
pub open spec fn palavra_em(s: Seq<char>, j: int) -> Seq<char> {
    s.subrange(j, fim_palavra(s, j))
}

/// Aceita a palavra `w` inteira depois do que se ignora.
pub open spec fn aceita_palavra(s: Seq<char>, i: int, w: Seq<char>) -> (bool, int) {
    let j = pula(s, i);
    let p = palavra_em(s, j);
    if p.len() > 0 && p == w {
        (true, j + p.len())
    } else {
        (false, j)
    }
}

/// A próxima palavra é `w`; o cursor só pula o que se ignora.
pub open spec fn ve_palavra(s: Seq<char>, i: int, w: Seq<char>) -> (bool, int) {
    let j = pula(s, i);
    let p = palavra_em(s, j);
    (p.len() > 0 && p == w, j)
}

/// As palavras reservadas, que não servem de identificador numa expressão.
pub open spec fn reservada_spec(w: Seq<char>) -> bool {
    w == "pense"@ || w == "faça"@ || w == "volte"@ || w == "se"@ || w == "senão"@ || w == "para"@
        || w == "cada"@ || w == "de"@ || w == "até"@ || w == "ate"@ || w == "enquanto"@ || w
        == "repita"@ || w == "pare"@ || w == "continue"@ || w == "tente"@ || w == "quando"@ || w
        == "modelo"@ || w == "módulo"@ || w == "modulo"@ || w == "importar"@ || w == "mostre"@
        || w == "verdadeiro"@ || w == "falso"@ || w == "nada"@ || w == "e"@ || w == "ou"@ || w
        == "não"@ || w == "em"@ || w == "resto"@ || w == "público"@ || w == "publico"@
}

/// Um identificador depois do que se ignora (com `qualquer == false`, uma
/// palavra reservada não serve): o nome e onde termina.
pub open spec fn identificador_em(s: Seq<char>, i: int, qualquer: bool) -> Option<(Seq<char>, int)> {
    let j = pula(s, i);
    if j < 0 || j >= s.len() || !inicio_de_palavra(s[j]) {
        None
    } else {
        let w = palavra_em(s, j);
        if w.len() == 0 || (!qualquer && reservada_spec(w)) {
            None
        } else {
            Some((w, j + w.len()))
        }
    }
}

/// Um tipo: um identificador, com os nomes dos tipos primitivos.
pub open spec fn tipo_em(s: Seq<char>, i: int) -> Option<(TipoV, int)> {
    match identificador_em(s, i, true) {
        Some((n, k)) => Some(
            (
                if n == "texto"@ {
                    TipoV::Texto
                } else if n == "número"@ || n == "numero"@ {
                    TipoV::Numero
                } else if n == "lógico"@ || n == "logico"@ {
                    TipoV::Logico
                } else {
                    TipoV::Personalizado(n)
                },
                k,
            ),
        ),
        None => None,
    }
}

/// O fim de um número: dígitos, e um ponto só quando seguido de dígito.
pub open spec fn fim_num(s: Seq<char>, i: int, tem_ponto: bool) -> int
    decreases s.len() - i,
{
    if i < 0 || i >= s.len() {
        i
    } else if digito(s[i]) {
        fim_num(s, i + 1, tem_ponto)
    } else if s[i] == '.' && !tem_ponto && i + 1 < s.len() && digito(s[i + 1]) {
        fim_num(s, i + 2, true)
    } else {
        i
    }
}

/// Um literal numérico que começa no dígito em `i`.
pub open spec fn numero_em(s: Seq<char>, i: int) -> (ExprV, int) {
    let f = fim_num(s, i + 1, false);
    (ExprV::Numero(s.subrange(i, f)), f)
}

/// Três aspas a partir de `j`.
pub open spec fn aspas_triplas(s: Seq<char>, j: int) -> bool {
    0 <= j && j + 2 < s.len() && s[j] == '"' && s[j + 1] == '"' && s[j + 2] == '"'
}

/// Onde fecha um literal de texto procurado a partir de `j`.
pub open spec fn fecha_texto(s: Seq<char>, j: int, tripla: bool) -> Option<int>
    decreases s.len() - j,
{
    if j < 0 || j >= s.len() {
        None
    } else if s[j] == '"' && (!tripla || aspas_triplas(s, j)) {
        Some(j)
    } else {
        fecha_texto(s, j + 1, tripla)
    }
}

/// Um literal de texto que começa na aspa em `i`: o texto cru entre as aspas
/// (simples ou triplas), sem interpolação.
pub open spec fn texto_em(s: Seq<char>, i: int) -> Option<(ExprV, int)> {
    let tripla = aspas_triplas(s, i);
    let a: int = if tripla {
        3
    } else {
        1
    };
    match fecha_texto(s, i + a, tripla) {
        Some(q) => Some((ExprV::Texto(s.subrange(i + a, q)), q + a)),
        None => None,
    }
}

} // verus!

verus! {

// ---------------------------------------------------------------------------
// Expressões. Cada regra recebe a posição antes do que se ignora e devolve a
// árvore e a posição em que parou, ou `None` quando a entrada não tem a forma.
// Os níveis de precedência, do mais frouxo ao mais forte: atribuição, `ou`,
// `e`, comparação, soma, termo, fator; cada nível binário associa à esquerda.

/// Um operador de termo (`*`, `/`, `%` ou `resto`), se vier um.
pub open spec fn op_termo(s: Seq<char>, i: int) -> (Option<Operador>, int) {
    let (a, j1) = aceita(s, i, '*');
    if a {
        (Some(Operador::Multiplicacao), j1)
    } else {
        let (b, j2) = aceita(s, j1, '/');
        if b {
            (Some(Operador::Divisao), j2)
        } else {
            let (c, j3) = aceita(s, j2, '%');
            if c {
                (Some(Operador::Resto), j3)
            } else {
                let (d, j4) = aceita_palavra(s, j3, "resto"@);
                if d {
                    (Some(Operador::Resto), j4)
                } else {
                    (None, j4)
                }
            }
        }
    }
}

/// Um operador de soma (`+` ou `-`), se vier um.
pub open spec fn op_soma(s: Seq<char>, i: int) -> (Option<Operador>, int) {
    let (a, j1) = aceita(s, i, '+');
    if a {
        (Some(Operador::Soma), j1)
    } else {
        let (b, j2) = aceita(s, j1, '-');
        if b {
            (Some(Operador::Subtracao), j2)
        } else {
            (None, j2)
        }
    }
}

/// Um operador de comparação, se vier um: `>=`, `<=`, `==`, `!=`, `>`, `<`,
/// `em` (pertinência) ou `é igual a`.
pub open spec fn op_comparacao(s: Seq<char>, i: int) -> (Option<Operador>, int) {
    let (a, j1) = aceita2(s, i, '>', '=');
    if a {
        (Some(Operador::MaiorIgual), j1)
    } else {
        let (b, j2) = aceita2(s, j1, '<', '=');
        if b {
            (Some(Operador::MenorIgual), j2)
        } else {
            let (c, j3) = aceita2(s, j2, '=', '=');
            if c {
                (Some(Operador::Igual), j3)
            } else {
                let (d, j4) = aceita2(s, j3, '!', '=');
                if d {
                    (Some(Operador::Diferente), j4)
                } else {
                    let (e, j5) = aceita(s, j4, '>');
                    if e {
                        (Some(Operador::Maior), j5)
                    } else {
                        let (f, j6) = aceita(s, j5, '<');
                        if f {
                            (Some(Operador::Menor), j6)
                        } else {
                            let (g, j7) = aceita_palavra(s, j6, "em"@);
                            if g {
                                (Some(Operador::Contem), j7)
                            } else {
                                let j8 = pula(s, j7);
                                let (h1, k1) = aceita_palavra(s, j8, "é"@);
                                let (h2, k2) = aceita_palavra(s, k1, "igual"@);
                                let (h3, k3) = aceita_palavra(s, k2, "a"@);
                                if h1 && h2 && h3 {
                                    (Some(Operador::Igual), k3)
                                } else {
                                    (None, j8)
                                }
                            }
                        }
                    }
                }
            }
        }
    }
}

pub open spec fn fator_em(s: Seq<char>, i: int) -> Option<(ExprV, int)>
    decreases s.len() - i, 2int,
{
    let j = pula(s, i);
    if j < i || j >= s.len() {
        None
    } else {
        let c = s[j];
        if c == '"' {
            texto_em(s, j)
        } else if digito(c) {
            Some(numero_em(s, j))
        } else if c == '[' {
            lista_em(s, j)
        } else if c == '{' {
            dicionario_em(s, j)
        } else if c == '(' {
            match expressao_em(s, j + 1) {
                Some((e, k)) => {
                    let (f, k2) = aceita(s, k, ')');
                    if f {
                        Some((e, k2))
                    } else {
                        None
                    }
                },
                None => None,
            }
        } else if c == '!' && !(j + 1 < s.len() && s[j + 1] == '=') {
            match fator_em(s, j + 1) {
                Some((e, k)) => Some((ExprV::Neg(Box::new(e)), k)),
                None => None,
            }
        } else {
            fator_palavra(s, j)
        }
    }
}

/// Um fator que começa por palavra em `j`: `não` e um fator, um literal lógico,
/// `nada`, uma chamada, um acesso a membro ou um identificador.
pub open spec fn fator_palavra(s: Seq<char>, j: int) -> Option<(ExprV, int)>
    decreases s.len() - j, 1int,
{
    let (n1, j1) = aceita_palavra(s, j, "não"@);
    if n1 {
        if j < j1 <= s.len() {
            match fator_em(s, j1) {
                Some((e, k)) => Some((ExprV::Neg(Box::new(e)), k)),
                None => None,
            }
        } else {
            None
        }
    } else {
        let (v, j2) = aceita_palavra(s, j1, "verdadeiro"@);
        if v {
            Some((ExprV::Logico(true), j2))
        } else {
            let (f, j3) = aceita_palavra(s, j2, "falso"@);
            if f {
                Some((ExprV::Logico(false), j3))
            } else {
                let (n, j4) = aceita_palavra(s, j3, "nada"@);
                if n {
                    Some((ExprV::Nada, j4))
                } else {
                    match identificador_em(s, j4, false) {
                        Some((nome, k)) => if 0 <= k < s.len() && s[k] == '(' {
                            if j < k <= s.len() {
                                chamada_em(s, k, nome)
                            } else {
                                None
                            }
                        } else if 0 <= k < s.len() && s[k] == '.' {
                            membro_em(s, k, nome)
                        } else {
                            Some((ExprV::Ident(nome), k))
                        },
                        None => None,
                    }
                }
            }
        }
    }
}

/// `.membro` depois do objeto de nome `nome`.
pub open spec fn membro_em(s: Seq<char>, i: int, nome: Seq<char>) -> Option<(ExprV, int)> {
    let (p, k1) = aceita(s, i, '.');
    if p {
        match identificador_em(s, k1, true) {
            Some((membro, k2)) => Some((ExprV::Membro(Box::new(ExprV::Ident(nome)), membro), k2)),
            None => None,
        }
    } else {
        None
    }
}

/// Uma lista `[e, ...]` que começa em `i`.
pub open spec fn lista_em(s: Seq<char>, i: int) -> Option<(ExprV, int)>
    decreases s.len() - i, 1int,
{
    let (a, j) = aceita(s, i, '[');
    if !a {
        None
    } else {
        let (f, j2) = aceita(s, j, ']');
        if f {
            Some((ExprV::Lista(Seq::empty()), j2))
        } else if i < j2 <= s.len() {
            lista_laco(s, j2, Seq::empty())
        } else {
            None
        }
    }
}

pub open spec fn lista_laco(s: Seq<char>, i: int, acc: Seq<ExprV>) -> Option<(ExprV, int)>
    decreases s.len() - i, 10int,
{
    match expressao_em(s, i) {
        Some((e, k)) => {
            let (v, k2) = aceita(s, k, ',');
            if v {
                if i < k2 <= s.len() {
                    lista_laco(s, k2, acc.push(e))
                } else {
                    None
                }
            } else {
                let (f, k3) = aceita(s, k2, ']');
                if f {
                    Some((ExprV::Lista(acc.push(e)), k3))
                } else {
                    None
                }
            }
        },
        None => None,
    }
}

/// Um dicionário `{chave: valor, ...}` que começa em `i`.
pub open spec fn dicionario_em(s: Seq<char>, i: int) -> Option<(ExprV, int)>
    decreases s.len() - i, 1int,
{
    let (a, j) = aceita(s, i, '{');
    if !a {
        None
    } else {
        let (f, j2) = aceita(s, j, '}');
        if f {
            Some((ExprV::Dicionario(Seq::empty()), j2))
        } else if i < j2 <= s.len() {
            dicionario_laco(s, j2, Seq::empty())
        } else {
            None
        }
    }
}

pub open spec fn dicionario_laco(s: Seq<char>, i: int, acc: Seq<(ExprV, ExprV)>) -> Option<
    (ExprV, int),
>
    decreases s.len() - i, 10int,
{
    match expressao_em(s, i) {
        Some((chave, k)) => {
            let (d, k1) = aceita(s, k, ':');
            if d && i < k1 <= s.len() {
                match expressao_em(s, k1) {
                    Some((valor, k2)) => {
                        let (v, k3) = aceita(s, k2, ',');
                        if v {
                            if i < k3 <= s.len() {
                                dicionario_laco(s, k3, acc.push((chave, valor)))
                            } else {
                                None
                            }
                        } else {
                            let (f, k4) = aceita(s, k3, '}');
                            if f {
                                Some((ExprV::Dicionario(acc.push((chave, valor))), k4))
                            } else {
                                None
                            }
                        }
                    },
                    None => None,
                }
            } else {
                None
            }
        },
        None => None,
    }
}

/// Os argumentos, entre parênteses, de uma chamada de `nome`.
pub open spec fn chamada_em(s: Seq<char>, i: int, nome: Seq<char>) -> Option<(ExprV, int)>
    decreases s.len() - i, 1int,
{
    let (a, j) = aceita(s, i, '(');
    if !a {
        None
    } else {
        let (f, j2) = aceita(s, j, ')');
        if f {
            Some((ExprV::Chamada(nome, Seq::empty()), j2))
        } else if i < j2 <= s.len() {
            chamada_laco(s, j2, nome, Seq::empty())
        } else {
            None
        }
    }
}

pub open spec fn chamada_laco(s: Seq<char>, i: int, nome: Seq<char>, acc: Seq<ExprV>) -> Option<
    (ExprV, int),
>
    decreases s.len() - i, 10int,
{
    match expressao_em(s, i) {
        Some((e, k)) => {
            let (v, k2) = aceita(s, k, ',');
            if v {
                if i < k2 <= s.len() {
                    chamada_laco(s, k2, nome, acc.push(e))
                } else {
                    None
                }
            } else {
                let (f, k3) = aceita(s, k2, ')');
                if f {
                    Some((ExprV::Chamada(nome, acc.push(e)), k3))
                } else {
                    None
                }
            }
        },
        None => None,
    }
}

/// Termo: fatores unidos por `*`, `/`, `%` ou `resto`, associando à esquerda.
pub open spec fn termo_em(s: Seq<char>, i: int) -> Option<(ExprV, int)>
    decreases s.len() - i, 3int,
{
    match fator_em(s, i) {
        Some((e, j)) => if i < j <= s.len() {
            termo_laco(s, j, e)
        } else {
            None
        },
        None => None,
    }
}

pub open spec fn termo_laco(s: Seq<char>, i: int, acc: ExprV) -> Option<(ExprV, int)>
    decreases s.len() - i, 3int,
{
    let (op, j) = op_termo(s, i);
    match op {
        None => Some((acc, j)),
        Some(o) => if i <= j <= s.len() {
            match fator_em(s, j) {
                Some((d, k)) => if j < k <= s.len() {
                    termo_laco(s, k, ExprV::Op(o, Box::new(acc), Box::new(d)))
                } else {
                    None
                },
                None => None,
            }
        } else {
            None
        },
    }
}

/// Soma: termos unidos por `+` ou `-`, associando à esquerda.
pub open spec fn soma_em(s: Seq<char>, i: int) -> Option<(ExprV, int)>
    decreases s.len() - i, 4int,
{
    match termo_em(s, i) {
        Some((e, j)) => if i < j <= s.len() {
            soma_laco(s, j, e)
        } else {
            None
        },
        None => None,
    }
}

pub open spec fn soma_laco(s: Seq<char>, i: int, acc: ExprV) -> Option<(ExprV, int)>
    decreases s.len() - i, 4int,
{
    let (op, j) = op_soma(s, i);
    match op {
        None => Some((acc, j)),
        Some(o) => if i <= j <= s.len() {
            match termo_em(s, j) {
                Some((d, k)) => if j < k <= s.len() {
                    soma_laco(s, k, ExprV::Op(o, Box::new(acc), Box::new(d)))
                } else {
                    None
                },
                None => None,
            }
        } else {
            None
        },
    }
}

/// Comparação: somas unidas por operadores de comparação, associando à esquerda.
pub open spec fn comparacao_em(s: Seq<char>, i: int) -> Option<(ExprV, int)>
    decreases s.len() - i, 5int,
{
    match soma_em(s, i) {
        Some((e, j)) => if i < j <= s.len() {
            comparacao_laco(s, j, e)
        } else {
            None
        },
        None => None,
    }
}

pub open spec fn comparacao_laco(s: Seq<char>, i: int, acc: ExprV) -> Option<(ExprV, int)>
    decreases s.len() - i, 5int,
{
    let (op, j) = op_comparacao(s, i);
    match op {
        None => Some((acc, j)),
        Some(o) => if i <= j <= s.len() {
            match soma_em(s, j) {
                Some((d, k)) => if j < k <= s.len() {
                    comparacao_laco(s, k, ExprV::Op(o, Box::new(acc), Box::new(d)))
                } else {
                    None
                },
                None => None,
            }
        } else {
            None
        },
    }
}

/// Conjunção: comparações unidas por `e`, associando à esquerda.
pub open spec fn e_em(s: Seq<char>, i: int) -> Option<(ExprV, int)>
    decreases s.len() - i, 6int,
{
    match comparacao_em(s, i) {
        Some((e, j)) => if i < j <= s.len() {
            e_laco(s, j, e)
        } else {
            None
        },
        None => None,
    }
}

pub open spec fn e_laco(s: Seq<char>, i: int, acc: ExprV) -> Option<(ExprV, int)>
    decreases s.len() - i, 6int,
{
    let (a, j) = aceita_palavra(s, i, "e"@);
    if !a {
        Some((acc, j))
    } else if i <= j <= s.len() {
        match comparacao_em(s, j) {
            Some((d, k)) => if j < k <= s.len() {
                e_laco(s, k, ExprV::Op(Operador::E, Box::new(acc), Box::new(d)))
            } else {
                None
            },
            None => None,
        }
    } else {
        None
    }
}

/// Disjunção: conjunções unidas por `ou`, associando à esquerda.
pub open spec fn ou_em(s: Seq<char>, i: int) -> Option<(ExprV, int)>
    decreases s.len() - i, 7int,
{
    match e_em(s, i) {
        Some((e, j)) => if i < j <= s.len() {
            ou_laco(s, j, e)
        } else {
            None
        },
        None => None,
    }
}

pub open spec fn ou_laco(s: Seq<char>, i: int, acc: ExprV) -> Option<(ExprV, int)>
    decreases s.len() - i, 7int,
{
    let (a, j) = aceita_palavra(s, i, "ou"@);
    if !a {
        Some((acc, j))
    } else if i <= j <= s.len() {
        match e_em(s, j) {
            Some((d, k)) => if j < k <= s.len() {
                ou_laco(s, k, ExprV::Op(Operador::Ou, Box::new(acc), Box::new(d)))
            } else {
                None
            },
            None => None,
        }
    } else {
        None
    }
}

/// Atribuição: `nome = expressão`, só com um identificador à esquerda; associa
/// à direita.
pub open spec fn atribuicao_em(s: Seq<char>, i: int) -> Option<(ExprV, int)>
    decreases s.len() - i, 8int,
{
    match ou_em(s, i) {
        Some((esq, j)) => {
            let k = pula(s, j);
            if 0 <= k < s.len() && s[k] == '=' && !(k + 1 < s.len() && s[k + 1] == '=') {
                if i < k + 1 <= s.len() {
                    match expressao_em(s, k + 1) {
                        Some((v, k2)) => match esq {
                            ExprV::Ident(n) => Some((ExprV::Atrib(n, Box::new(v)), k2)),
                            _ => None,
                        },
                        None => None,
                    }
                } else {
                    None
                }
            } else {
                Some((esq, k))
            }
        },
        None => None,
    }
}

pub open spec fn expressao_em(s: Seq<char>, i: int) -> Option<(ExprV, int)>
    decreases s.len() - i, 9int,
{
    atribuicao_em(s, i)
}

} // verus!

verus! {

// ---------------------------------------------------------------------------
// Declarações.

/// As declarações de um bloco entre chaves, cada uma com um `;` opcional.
pub open spec fn declaracoes_bloco_em(s: Seq<char>, i: int) -> Option<(Seq<DeclV>, int)>
    decreases s.len() - i, 18int,
{
    let (a, j) = aceita(s, i, '{');
    if a && i < j <= s.len() {
        bloco_laco(s, j, Seq::empty())
    } else {
        None
    }
}

pub open spec fn bloco_laco(s: Seq<char>, i: int, acc: Seq<DeclV>) -> Option<(Seq<DeclV>, int)>
    decreases s.len() - i, 22int,
{
    let (f, j) = aceita(s, i, '}');
    if f {
        Some((acc, j))
    } else {
        let j2 = pula(s, j);
        if j2 < i || j2 >= s.len() {
            None
        } else {
            match declaracao_em(s, j2) {
                Some((d, k)) => {
                    let (_, k2) = aceita(s, k, ';');
                    if i < k2 <= s.len() {
                        bloco_laco(s, k2, acc.push(d))
                    } else {
                        None
                    }
                },
                None => None,
            }
        }
    }
}

pub open spec fn bloco_em(s: Seq<char>, i: int) -> Option<(DeclV, int)>
    decreases s.len() - i, 19int,
{
    match declaracoes_bloco_em(s, i) {
        Some((v, k)) => Some((DeclV::Bloco(v), k)),
        None => None,
    }
}

/// `pense nome [: tipo] [= expressão]`.
pub open spec fn variavel_em(s: Seq<char>, i: int, publico: bool) -> Option<(DeclV, int)>
    decreases s.len() - i, 20int,
{
    let (a, j) = aceita_palavra(s, i, "pense"@);
    if !a {
        None
    } else {
        match identificador_em(s, j, true) {
            None => None,
            Some((n, k)) => {
                let (t, k1) = aceita(s, k, ':');
                let tipo: Option<(Option<TipoV>, int)> = if t {
                    match tipo_em(s, k1) {
                        Some((tt, k2)) => Some((Some(tt), k2)),
                        None => None,
                    }
                } else {
                    Some((None, k1))
                };
                match tipo {
                    None => None,
                    Some((tipo, k2)) => {
                        let k3 = pula(s, k2);
                        if 0 <= k3 < s.len() && s[k3] == '=' && !(k3 + 1 < s.len() && s[k3 + 1]
                            == '=') {
                            if i <= k3 {
                                match expressao_em(s, k3 + 1) {
                                    Some((v, k4)) => Some(
                                        (DeclV::Variavel(n, tipo, Some(v), publico), k4),
                                    ),
                                    None => None,
                                }
                            } else {
                                None
                            }
                        } else {
                            Some((DeclV::Variavel(n, tipo, None, publico), k3))
                        }
                    },
                }
            },
        }
    }
}

/// Os parâmetros de uma função, `(nome: tipo, ...)`.
pub open spec fn parametros_em(s: Seq<char>, i: int) -> Option<(Seq<(Seq<char>, TipoV)>, int)> {
    let (a, j) = aceita(s, i, '(');
    if !a {
        None
    } else {
        let (f, j2) = aceita(s, j, ')');
        if f {
            Some((Seq::empty(), j2))
        } else {
            parametros_laco(s, j2, Seq::empty())
        }
    }
}

pub open spec fn parametros_laco(s: Seq<char>, i: int, acc: Seq<(Seq<char>, TipoV)>) -> Option<
    (Seq<(Seq<char>, TipoV)>, int),
>
    decreases s.len() - i,
{
    match identificador_em(s, i, true) {
        Some((n, k)) => {
            let (d, k1) = aceita(s, k, ':');
            if !d {
                None
            } else {
                match tipo_em(s, k1) {
                    Some((t, k2)) => {
                        let (v, k3) = aceita(s, k2, ',');
                        if v {
                            if i < k3 <= s.len() {
                                parametros_laco(s, k3, acc.push((n, t)))
                            } else {
                                None
                            }
                        } else {
                            let (f, k4) = aceita(s, k3, ')');
                            if f {
                                Some((acc.push((n, t)), k4))
                            } else {
                                None
                            }
                        }
                    },
                    None => None,
                }
            }
        },
        None => None,
    }
}

/// `faça nome(parâmetros) [: tipo | -> tipo] bloco`.
pub open spec fn funcao_em(s: Seq<char>, i: int, publico: bool) -> Option<(DeclV, int)>
    decreases s.len() - i, 20int,
{
    let (a, j) = aceita_palavra(s, i, "faça"@);
    if !a {
        None
    } else {
        match identificador_em(s, j, true) {
            None => None,
            Some((n, k)) => match parametros_em(s, k) {
                None => None,
                Some((ps, k1)) => {
                    let (c1, k2) = aceita(s, k1, ':');
                    let (c2, k3) = if c1 {
                        (true, k2)
                    } else {
                        aceita2(s, k2, '-', '>')
                    };
                    let retorno: Option<(Option<TipoV>, int)> = if c2 {
                        match tipo_em(s, k3) {
                            Some((t, k4)) => Some((Some(t), k4)),
                            None => None,
                        }
                    } else {
                        Some((None, k3))
                    };
                    match retorno {
                        None => None,
                        Some((ret, k4)) => if i <= k4 <= s.len() {
                            match bloco_em(s, k4) {
                                Some((corpo, k5)) => Some(
                                    (DeclV::Funcao(n, ps, ret, Box::new(corpo), publico), k5),
                                ),
                                None => None,
                            }
                        } else {
                            None
                        },
                    }
                },
            },
        }
    }
}

/// `volte [expressão]`.
pub open spec fn retorno_em(s: Seq<char>, i: int) -> Option<(DeclV, int)>
    decreases s.len() - i, 20int,
{
    let (a, j) = aceita_palavra(s, i, "volte"@);
    if !a {
        None
    } else {
        let k = pula(s, j);
        if k < 0 || k >= s.len() || s[k] == ';' || s[k] == '}' {
            Some((DeclV::Retorno(None), k))
        } else if i <= k {
            match expressao_em(s, k) {
                Some((e, k2)) => Some((DeclV::Retorno(Some(e)), k2)),
                None => None,
            }
        } else {
            None
        }
    }
}

/// `se condição bloco [senão bloco]`.
pub open spec fn condicional_em(s: Seq<char>, i: int) -> Option<(DeclV, int)>
    decreases s.len() - i, 20int,
{
    let (a, j) = aceita_palavra(s, i, "se"@);
    if !a || !(i <= j <= s.len()) {
        None
    } else {
        match expressao_em(s, j) {
            None => None,
            Some((c, k)) => if i <= k <= s.len() {
                match bloco_em(s, k) {
                    None => None,
                    Some((b, k1)) => {
                        let (x, k2) = aceita_palavra(s, k1, "senão"@);
                        let (y, k3) = if x {
                            (true, k2)
                        } else {
                            aceita_palavra(s, k2, "senao"@)
                        };
                        if y {
                            if i <= k3 <= s.len() {
                                match bloco_em(s, k3) {
                                    Some((b2, k4)) => Some(
                                        (DeclV::Se(c, Box::new(b), Some(Box::new(b2))), k4),
                                    ),
                                    None => None,
                                }
                            } else {
                                None
                            }
                        } else {
                            Some((DeclV::Se(c, Box::new(b), None), k3))
                        }
                    },
                }
            } else {
                None
            },
        }
    }
}

/// `até` ou `ate`.
pub open spec fn aceita_ate(s: Seq<char>, i: int) -> (bool, int) {
    let (a, j) = aceita_palavra(s, i, "até"@);
    if a {
        (true, j)
    } else {
        aceita_palavra(s, j, "ate"@)
    }
}

/// `para cada nome de início até fim bloco`.
pub open spec fn para_cada_em(s: Seq<char>, i: int) -> Option<(DeclV, int)>
    decreases s.len() - i, 20int,
{
    let (a, j) = aceita_palavra(s, i, "para"@);
    let (b, j1) = aceita_palavra(s, j, "cada"@);
    if !a || !b {
        None
    } else {
        match identificador_em(s, j1, true) {
            None => None,
            Some((v, k)) => {
                let (d, k1) = aceita_palavra(s, k, "de"@);
                if !d || !(i <= k1 <= s.len()) {
                    None
                } else {
                    match expressao_em(s, k1) {
                        None => None,
                        Some((ini, k2)) => {
                            let (t, k3) = aceita_ate(s, k2);
                            if !t || !(i <= k3 <= s.len()) {
                                None
                            } else {
                                match expressao_em(s, k3) {
                                    None => None,
                                    Some((fim, k4)) => if i <= k4 <= s.len() {
                                        match bloco_em(s, k4) {
                                            Some((corpo, k5)) => Some(
                                                (DeclV::ParaCada(v, ini, fim, Box::new(corpo)), k5),
                                            ),
                                            None => None,
                                        }
                                    } else {
                                        None
                                    },
                                }
                            }
                        },
                    }
                }
            },
        }
    }
}

/// `enquanto condição bloco`.
pub open spec fn enquanto_em(s: Seq<char>, i: int) -> Option<(DeclV, int)>
    decreases s.len() - i, 20int,
{
    let (a, j) = aceita_palavra(s, i, "enquanto"@);
    if !a || !(i <= j <= s.len()) {
        None
    } else {
        match expressao_em(s, j) {
            None => None,
            Some((c, k)) => if i <= k <= s.len() {
                match bloco_em(s, k) {
                    Some((corpo, k1)) => Some((DeclV::Enquanto(c, Box::new(corpo)), k1)),
                    None => None,
                }
            } else {
                None
            },
        }
    }
}

/// `repita bloco até condição`: o corpo vem antes da condição.
pub open spec fn repita_em(s: Seq<char>, i: int) -> Option<(DeclV, int)>
    decreases s.len() - i, 20int,
{
    let (a, j) = aceita_palavra(s, i, "repita"@);
    if !a || !(i <= j <= s.len()) {
        None
    } else {
        match bloco_em(s, j) {
            None => None,
            Some((corpo, k)) => {
                let (t, k1) = aceita_ate(s, k);
                if !t || !(i <= k1 <= s.len()) {
                    None
                } else {
                    match expressao_em(s, k1) {
                        Some((c, k2)) => Some((DeclV::Repita(Box::new(corpo), c), k2)),
                        None => None,
                    }
                }
            },
        }
    }
}

/// `tente bloco quando der erro [(]nome[)] bloco`.
pub open spec fn quando_em(s: Seq<char>, i: int) -> Option<(DeclV, int)>
    decreases s.len() - i, 20int,
{
    let (a, j) = aceita_palavra(s, i, "tente"@);
    if !a || !(i <= j <= s.len()) {
        None
    } else {
        match bloco_em(s, j) {
            None => None,
            Some((b1, k)) => {
                let (q, k1) = aceita_palavra(s, k, "quando"@);
                let (d, k2) = aceita_palavra(s, k1, "der"@);
                let (e, k3) = aceita_palavra(s, k2, "erro"@);
                if !q || !d || !e {
                    None
                } else {
                    let (par, k4) = aceita(s, k3, '(');
                    match identificador_em(s, k4, true) {
                        None => None,
                        Some((v, k5)) => {
                            let (f, k6) = if par {
                                aceita(s, k5, ')')
                            } else {
                                (true, k5)
                            };
                            if !f || !(i <= k6 <= s.len()) {
                                None
                            } else {
                                match bloco_em(s, k6) {
                                    Some((b2, k7)) => Some(
                                        (DeclV::QuandoDerErro(Box::new(b1), v, Box::new(b2)), k7),
                                    ),
                                    None => None,
                                }
                            }
                        },
                    }
                }
            },
        }
    }
}

/// `modelo Nome { [público] campo: tipo, ... }`: os campos em ordem, cada um
/// com a sua própria visibilidade.
pub open spec fn modelo_em(s: Seq<char>, i: int, publico: bool) -> Option<(DeclV, int)> {
    let (a, j) = aceita_palavra(s, i, "modelo"@);
    if !a {
        None
    } else {
        match identificador_em(s, j, true) {
            None => None,
            Some((n, k)) => {
                let (c, k1) = aceita(s, k, '{');
                if !c {
                    None
                } else {
                    match campos_laco(s, k1, Seq::empty()) {
                        Some((cs, k2)) => Some((DeclV::Modelo(n, cs, publico), k2)),
                        None => None,
                    }
                }
            },
        }
    }
}

pub open spec fn campos_laco(s: Seq<char>, i: int, acc: Seq<(Seq<char>, TipoV, bool)>) -> Option<
    (Seq<(Seq<char>, TipoV, bool)>, int),
>
    decreases s.len() - i,
{
    let (f, j) = aceita(s, i, '}');
    if f {
        Some((acc, j))
    } else {
        let (p1, j1) = aceita_palavra(s, j, "público"@);
        let (p, j2) = if p1 {
            (true, j1)
        } else {
            aceita_palavra(s, j1, "publico"@)
        };
        match identificador_em(s, j2, true) {
            None => None,
            Some((n, k)) => {
                let (d, k1) = aceita(s, k, ':');
                if !d {
                    None
                } else {
                    match tipo_em(s, k1) {
                        None => None,
                        Some((t, k2)) => {
                            let (v, k3) = aceita(s, k2, ',');
                            let k4 = if v {
                                k3
                            } else {
                                aceita(s, k3, ';').1
                            };
                            if i < k4 <= s.len() {
                                campos_laco(s, k4, acc.push((n, t, p)))
                            } else {
                                None
                            }
                        },
                    }
                }
            },
        }
    }
}

/// `módulo nome { declarações }`.
pub open spec fn modulo_em(s: Seq<char>, i: int) -> Option<(DeclV, int)>
    decreases s.len() - i, 20int,
{
    let (a, j) = aceita_palavra(s, i, "módulo"@);
    let (b, j1) = if a {
        (true, j)
    } else {
        aceita_palavra(s, j, "modulo"@)
    };
    if !b {
        None
    } else {
        match identificador_em(s, j1, true) {
            None => None,
            Some((n, k)) => if i <= k <= s.len() {
                match declaracoes_bloco_em(s, k) {
                    Some((ds, k1)) => Some((DeclV::Modulo(n, ds), k1)),
                    None => None,
                }
            } else {
                None
            },
        }
    }
}

/// `importar a.b/c::d`: os segmentos do caminho, em ordem.
pub open spec fn importar_em(s: Seq<char>, i: int) -> Option<(DeclV, int)> {
    let (a, j) = aceita_palavra(s, i, "importar"@);
    if !a {
        None
    } else {
        match identificador_em(s, j, true) {
            None => None,
            Some((n, k)) => match caminho_laco(s, k, seq![n]) {
                Some((c, k1)) => Some((DeclV::Importar(c), k1)),
                None => None,
            },
        }
    }
}

/// Um separador de caminho: `.`, `/` ou `::`.
pub open spec fn aceita_separador(s: Seq<char>, i: int) -> (bool, int) {
    let (a, j1) = aceita(s, i, '.');
    if a {
        (true, j1)
    } else {
        let (b, j2) = aceita(s, j1, '/');
        if b {
            (true, j2)
        } else {
            aceita2(s, j2, ':', ':')
        }
    }
}

pub open spec fn caminho_laco(s: Seq<char>, i: int, acc: Seq<Seq<char>>) -> Option<
    (Seq<Seq<char>>, int),
>
    decreases s.len() - i,
{
    let (sep, j) = aceita_separador(s, i);
    if !sep {
        Some((acc, j))
    } else {
        match identificador_em(s, j, true) {
            Some((n, k)) => if i < k <= s.len() {
                caminho_laco(s, k, acc.push(n))
            } else {
                None
            },
            None => None,
        }
    }
}

/// `mostre expressão`.
pub open spec fn mostrar_em(s: Seq<char>, i: int) -> Option<(DeclV, int)>
    decreases s.len() - i, 20int,
{
    let (a, j) = aceita_palavra(s, i, "mostre"@);
    if !a || !(i <= j <= s.len()) {
        None
    } else {
        match expressao_em(s, j) {
            Some((e, k)) => Some((DeclV::Mostrar(e), k)),
            None => None,
        }
    }
}

/// Uma declaração, escolhida pela primeira palavra (depois de um `público`
/// opcional); qualquer outra coisa é uma expressão.
pub open spec fn declaracao_em(s: Seq<char>, i: int) -> Option<(DeclV, int)>
    decreases s.len() - i, 21int,
{
    let j = pula(s, i);
    let w = palavra_em(s, j);
    if !(i <= j <= s.len()) {
        None
    } else if w == "público"@ || w == "publico"@ {
        let j2 = pula(s, j + w.len());
        let w2 = palavra_em(s, j2);
        if !(i <= j2 <= s.len()) {
            None
        } else if w2 == "pense"@ {
            variavel_em(s, j2, true)
        } else if w2 == "faça"@ {
            funcao_em(s, j2, true)
        } else if w2 == "modelo"@ {
            modelo_em(s, j2, true)
        } else {
            None
        }
    } else if w == "pense"@ {
        variavel_em(s, j, false)
    } else if w == "faça"@ {
        funcao_em(s, j, false)
    } else if w == "modelo"@ {
        modelo_em(s, j, false)
    } else if w == "volte"@ {
        retorno_em(s, j)
    } else if w == "se"@ {
        condicional_em(s, j)
    } else if w == "para"@ {
        para_cada_em(s, j)
    } else if w == "enquanto"@ {
        enquanto_em(s, j)
    } else if w == "repita"@ {
        repita_em(s, j)
    } else if w == "pare"@ {
        Some((DeclV::Pare, j + w.len()))
    } else if w == "continue"@ {
        Some((DeclV::Continue, j + w.len()))
    } else if w == "tente"@ {
        quando_em(s, j)
    } else if w == "módulo"@ || w == "modulo"@ {
        modulo_em(s, j)
    } else if w == "importar"@ {
        importar_em(s, j)
    } else if w == "mostre"@ {
        mostrar_em(s, j)
    } else {
        match expressao_em(s, j) {
            Some((e, k)) => Some((DeclV::Expr(e), k)),
            None => None,
        }
    }
}

/// As declarações de topo a partir de `i`, cada uma com um `;` opcional.
pub open spec fn programa_laco(s: Seq<char>, i: int, acc: Seq<DeclV>) -> Option<Seq<DeclV>>
    decreases s.len() - i,
{
    let j = pula(s, i);
    if j < i || j >= s.len() {
        Some(acc)
    } else {
        match declaracao_em(s, j) {
            Some((d, k)) => {
                let (_, k2) = aceita(s, k, ';');
                if i < k2 <= s.len() {
                    programa_laco(s, k2, acc.push(d))
                } else {
                    None
                }
            },
            None => None,
        }
    }
}

/// O programa que o texto `s` descreve, se ele segue a gramática.
pub open spec fn programa_de(s: Seq<char>) -> Option<Seq<DeclV>> {
    programa_laco(s, 0, Seq::empty())
}

} // verus!
