use vstd::prelude::*;
use crate::texto::{caracteres, de_caracteres, empurrar};

verus! {

/// Uma unidade léxica.
#[derive(Debug, Clone, PartialEq)]
pub enum Token {
    Faca,
    Mostre,
    Volte,
    Se,
    Senao,
    ParaCada,
    De,
    Ate,
    Modelo,
    QuandoDerErro,
    FalharCom,
    Pense,
    Verdadeiro,
    Falso,
    Nada,
    TipoTexto,
    TipoNumero,
    TipoLogico,
    Identificador(String),
    NumeroLiteral(String),
    TextoLiteral(String),
    Mais,
    Menos,
    Vezes,
    Dividido,
    Igual,
    IgualA,
    Diferente,
    Maior,
    Menor,
    MaiorIgual,
    MenorIgual,
    AbreChave,
    FechaChave,
    AbreParentese,
    FechaParentese,
    Virgula,
    DoisPontos,
    PontoVirgula,
    EOF,
}

/// Erros léxicos.
#[derive(Debug, Clone, PartialEq)]
pub enum LexerError {
    CaractereInesperado(char),
    StringNaoTerminada,
    ErroNumero(String),
}

impl LexerError {
    /// A mensagem legível do erro.
    pub fn mensagem(&self) -> String {
        match self {
            LexerError::CaractereInesperado(c) => {
                let mut m = String::from_str("Caractere inesperado: ");
                empurrar(&mut m, *c);
                m
            },
            LexerError::StringNaoTerminada => String::from_str("String não terminada"),
            LexerError::ErroNumero(n) => {
                let mut m = String::from_str("Erro no formato do número: ");
                m.append(n.as_str());
                m
            },
        }
    }
}

/// Se `c` tem a propriedade Unicode White_Space (a lista dessa propriedade).
pub open spec fn espaco(c: char) -> bool {
    ('\u{9}' <= c <= '\u{d}') || c == ' ' || c == '\u{85}' || c == '\u{a0}' || c == '\u{1680}' || (
    '\u{2000}' <= c <= '\u{200a}') || c == '\u{2028}' || c == '\u{2029}' || c == '\u{202f}' || c
        == '\u{205f}' || c == '\u{3000}'
}

/// Se `c` é alfabético ou numérico no sentido Unicode.
pub uninterp spec fn alfanumerico(c: char) -> bool;

/// Espaço em branco no sentido Unicode, como `char::is_whitespace`.
pub(crate) fn e_espaco(c: char) -> (r: bool)
    ensures
        r == espaco(c),
        c <= '\x7f' ==> (r <==> (c == '\t' || c == '\n' || c == '\x0B' || c == '\x0C' || c == '\r'
            || c == ' ')),
{
    ('\u{9}' <= c && c <= '\u{d}') || c == ' ' || c == '\u{85}' || c == '\u{a0}' || c == '\u{1680}'
        || ('\u{2000}' <= c && c <= '\u{200a}') || c == '\u{2028}' || c == '\u{2029}' || c
        == '\u{202f}' || c == '\u{205f}' || c == '\u{3000}'
}

/// Usa `char::is_alphanumeric`: alfabético ou numérico no sentido Unicode;
/// entre os caracteres ASCII, exatamente as letras e os dígitos.
#[verifier::external_body]
pub(crate) fn e_alfanumerico(c: char) -> (r: bool)
    ensures
        r == alfanumerico(c),
        c <= '\x7f' ==> (r <==> (('a' <= c <= 'z') || ('A' <= c <= 'Z') || ('0' <= c <= '9'))),
{
    c.is_alphanumeric()
}

/// Um caractere que continua um identificador.
pub open spec fn de_palavra(c: char) -> bool {
    alfanumerico(c) || c == '_'
}

/// Um caractere que pode começar um identificador.
pub open spec fn inicio_de_palavra(c: char) -> bool {
    ('a' <= c <= 'z') || ('A' <= c <= 'Z') || c == '_' || ('á' <= c <= 'ú') || ('Á' <= c <= 'Ú')
}

/// O fim da palavra que começa em `i`: o primeiro índice a partir de `i` que
/// não continua um identificador.
pub open spec fn fim_palavra(s: Seq<char>, i: int) -> int
    decreases s.len() - i,
{
    if i < 0 || i >= s.len() || !de_palavra(s[i]) {
        i
    } else {
        fim_palavra(s, i + 1)
    }
}

/// O primeiro índice a partir de `i` que não é espaço em branco.
pub open spec fn fim_espacos(s: Seq<char>, i: int) -> int
    decreases s.len() - i,
{
    if i < 0 || i >= s.len() || !espaco(s[i]) {
        i
    } else {
        fim_espacos(s, i + 1)
    }
}

/// O índice logo após o fim da linha que contém `i` (ou o fim da entrada).
pub open spec fn fim_linha(s: Seq<char>, i: int) -> int
    decreases s.len() - i,
{
    if i < 0 || i >= s.len() {
        i
    } else if s[i] == '\n' {
        i + 1
    } else {
        fim_linha(s, i + 1)
    }
}

/// Onde começa o próximo token a partir de `i`: depois dos espaços e dos
/// comentários `//` até o fim da linha.
pub open spec fn inicio_token(s: Seq<char>, i: int) -> int
    decreases s.len() - i,
{
    let j = fim_espacos(s, i);
    if 0 <= i <= j && j + 1 < s.len() && s[j] == '/' && s[j + 1] == '/' && i < fim_linha(s, j) <= s.len() {
        inicio_token(s, fim_linha(s, j))
    } else {
        j
    }
}

/// O índice da primeira aspa a partir de `i`, se houver.
pub open spec fn proxima_aspa(s: Seq<char>, i: int) -> Option<int>
    decreases s.len() - i,
{
    if i < 0 || i >= s.len() {
        None
    } else if s[i] == '"' {
        Some(i)
    } else {
        proxima_aspa(s, i + 1)
    }
}

/// A palavra seguinte a partir de `i`, depois dos espaços, é exatamente `w`.
pub open spec fn seguida_de(s: Seq<char>, i: int, w: Seq<char>) -> bool {
    s.subrange(fim_espacos(s, i), fim_palavra(s, fim_espacos(s, i))) == w
}

/// Onde termina a palavra seguinte a partir de `i`.
pub open spec fn fim_seguinte(s: Seq<char>, i: int) -> int {
    fim_palavra(s, fim_espacos(s, i))
}

pub(crate) proof fn lema_fim_palavra(s: Seq<char>, i: int)
    requires
        0 <= i <= s.len(),
    ensures
        i <= fim_palavra(s, i) <= s.len(),
        forall|k: int| i <= k < fim_palavra(s, i) ==> de_palavra(#[trigger] s[k]),
    decreases s.len() - i,
{
    if i < s.len() && de_palavra(s[i]) {
        lema_fim_palavra(s, i + 1);
    }
}

proof fn lema_fim_espacos(s: Seq<char>, i: int)
    requires
        0 <= i <= s.len(),
    ensures
        i <= fim_espacos(s, i) <= s.len(),
    decreases s.len() - i,
{
    if i < s.len() && espaco(s[i]) {
        lema_fim_espacos(s, i + 1);
    }
}

proof fn lema_fim_linha(s: Seq<char>, i: int)
    requires
        0 <= i < s.len(),
    ensures
        i < fim_linha(s, i) <= s.len(),
    decreases s.len() - i,
{
    if s[i] != '\n' {
        if i + 1 < s.len() {
            lema_fim_linha(s, i + 1);
        } else {
            assert(fim_linha(s, i + 1) == i + 1);
        }
    }
}

proof fn lema_inicio_token(s: Seq<char>, i: int)
    requires
        0 <= i <= s.len(),
    ensures
        i <= inicio_token(s, i) <= s.len(),
    decreases s.len() - i,
{
    lema_fim_espacos(s, i);
    let j = fim_espacos(s, i);
    if 0 <= i <= j && j + 1 < s.len() && s[j] == '/' && s[j + 1] == '/' && i < fim_linha(s, j) <= s.len() {
        lema_fim_linha(s, j);
        lema_inicio_token(s, fim_linha(s, j));
    }
}

proof fn lema_fim_numero(s: Seq<char>, i: int, tem_ponto: bool)
    requires
        0 <= i <= s.len(),
    ensures
        i <= fim_numero(s, i, tem_ponto) <= s.len(),
    decreases s.len() - i,
{
    if i < s.len() {
        if digito(s[i]) {
            lema_fim_numero(s, i + 1, tem_ponto);
        } else if s[i] == '.' && !tem_ponto {
            lema_fim_numero(s, i + 1, true);
        }
    }
}

proof fn lema_proxima_aspa(s: Seq<char>, i: int)
    requires
        0 <= i <= s.len(),
    ensures
        proxima_aspa(s, i) matches Some(q) ==> i <= q < s.len() && s[q] == '"' && forall|k: int|
            i <= k < q ==> s[k] != '"',
        proxima_aspa(s, i) is None ==> forall|k: int| i <= k < s.len() ==> s[k] != '"',
    decreases s.len() - i,
{
    if i < s.len() && s[i] != '"' {
        lema_proxima_aspa(s, i + 1);
    }
}

} // verus!

verus! {

/// Se `w`, lida sozinha, é a palavra de `t`: uma palavra reservada de uma só
/// palavra, ou então um identificador com o próprio texto de `w`.
pub open spec fn token_de_palavra(w: Seq<char>, t: Token) -> bool {
    if w == "faça"@ {
        t == Token::Faca
    } else if w == "mostre"@ {
        t == Token::Mostre
    } else if w == "volte"@ {
        t == Token::Volte
    } else if w == "se"@ {
        t == Token::Se
    } else if w == "senão"@ {
        t == Token::Senao
    } else if w == "de"@ {
        t == Token::De
    } else if w == "até"@ || w == "ate"@ {
        t == Token::Ate
    } else if w == "modelo"@ {
        t == Token::Modelo
    } else if w == "pense"@ {
        t == Token::Pense
    } else if w == "verdadeiro"@ {
        t == Token::Verdadeiro
    } else if w == "falso"@ {
        t == Token::Falso
    } else if w == "nada"@ {
        t == Token::Nada
    } else if w == "texto"@ {
        t == Token::TipoTexto
    } else if w == "número"@ || w == "numero"@ {
        t == Token::TipoNumero
    } else if w == "lógico"@ || w == "logico"@ {
        t == Token::TipoLogico
    } else {
        t matches Token::Identificador(n) && n@ == w
    }
}

/// Um dígito decimal.
pub open spec fn digito(c: char) -> bool {
    '0' <= c <= '9'
}

/// O fim de um número que começa em `i`: dígitos com no máximo um ponto.
pub open spec fn fim_numero(s: Seq<char>, i: int, tem_ponto: bool) -> int
    decreases s.len() - i,
{
    if i < 0 || i >= s.len() {
        i
    } else if digito(s[i]) {
        fim_numero(s, i + 1, tem_ponto)
    } else if s[i] == '.' && !tem_ponto {
        fim_numero(s, i + 1, true)
    } else {
        i
    }
}

/// Os caracteres que começam um operador ou um símbolo.
pub open spec fn simbolo(c: char) -> bool {
    c == '{' || c == '}' || c == '(' || c == ')' || c == ',' || c == ':' || c == ';' || c == '+'
        || c == '-' || c == '*' || c == '/' || c == '=' || c == '>' || c == '<' || c == '!'
}

/// Iguais caractere a caractere.
pub(crate) fn iguais(a: &Vec<char>, b: &Vec<char>) -> (r: bool)
    ensures
        r == (a@ == b@),
{
    if a.len() != b.len() {
        return false;
    }
    let mut i: usize = 0;
    while i < a.len()
        invariant
            a.len() == b.len(),
            i <= a.len(),
            forall|k: int| 0 <= k < i ==> a@[k] == b@[k],
        decreases a.len() - i,
    {
        if a[i] != b[i] {
            return false;
        }
        i += 1;
    }
    proof {
        assert(a@ =~= b@);
    }
    true
}

/// Um valor limitado ao maior `usize`.
pub open spec fn saturado(x: int) -> int {
    if x < usize::MAX {
        x
    } else {
        usize::MAX as int
    }
}

/// A linha da posição `i`: um mais o número de quebras de linha antes dela.
pub open spec fn linha_em(s: Seq<char>, i: int) -> int
    decreases i,
{
    if i <= 0 {
        1
    } else {
        linha_em(s, i - 1) + if s[i - 1] == '\n' {
            1int
        } else {
            0int
        }
    }
}

/// A coluna da posição `i`: um mais o número de caracteres desde a última
/// quebra de linha antes dela.
pub open spec fn coluna_em(s: Seq<char>, i: int) -> int
    decreases i,
{
    if i <= 0 {
        1
    } else if s[i - 1] == '\n' {
        1
    } else {
        coluna_em(s, i - 1) + 1
    }
}

/// O analisador léxico: a entrada como caracteres e um cursor com linha e coluna.
pub struct Lexer {
    entrada: Vec<char>,
    posicao: usize,
    linha: usize,
    coluna: usize,
}

impl Lexer {
    /// A entrada inteira.
    pub closed spec fn texto(&self) -> Seq<char> {
        self.entrada@
    }

    /// A posição do cursor, em caracteres.
    pub closed spec fn pos(&self) -> int {
        self.posicao as int
    }

    /// A linha guardada no cursor.
    pub closed spec fn linha_spec(&self) -> int {
        self.linha as int
    }

    /// A coluna guardada no cursor.
    pub closed spec fn coluna_spec(&self) -> int {
        self.coluna as int
    }

    /// O cursor está dentro da entrada ou no seu fim, e a linha e a coluna
    /// guardadas são as da posição do cursor.
    pub closed spec fn bem_formado(&self) -> bool {
        &&& self.posicao <= self.entrada.len()
        &&& self.linha == saturado(linha_em(self.entrada@, self.posicao as int))
        &&& self.coluna == saturado(coluna_em(self.entrada@, self.posicao as int))
    }

    /// A linha do cursor, a partir de 1 (limitada ao maior `usize`).
    pub fn linha(&self) -> (r: usize)
        requires
            self.bem_formado(),
        ensures
            r == saturado(linha_em(self.texto(), self.pos())),
    {
        self.linha
    }

    /// A coluna do cursor, a partir de 1 (limitada ao maior `usize`).
    pub fn coluna(&self) -> (r: usize)
        requires
            self.bem_formado(),
        ensures
            r == saturado(coluna_em(self.texto(), self.pos())),
    {
        self.coluna
    }

    pub fn new(entrada: &str) -> (r: Lexer)
        ensures
            r.bem_formado(),
            r.texto() == entrada@,
            r.pos() == 0,
    {
        Lexer { entrada: caracteres(entrada), posicao: 0, linha: 1, coluna: 1 }
    }

    fn avancar(&mut self)
        requires
            old(self).bem_formado(),
        ensures
            final(self).bem_formado(),
            final(self).texto() == old(self).texto(),
            final(self).pos() == if old(self).pos() < old(self).texto().len() {
                old(self).pos() + 1
            } else {
                old(self).pos()
            },
            final(self).linha_spec() == saturado(linha_em(final(self).texto(), final(self).pos())),
            final(self).coluna_spec() == saturado(coluna_em(final(self).texto(), final(self).pos())),
    {
        if self.posicao < self.entrada.len() {
            if self.entrada[self.posicao] == '\n' {
                self.linha = self.linha.saturating_add(1);
                self.coluna = 1;
            } else {
                self.coluna = self.coluna.saturating_add(1);
            }
            self.posicao += 1;
        }
    }

    fn caractere_atual(&self) -> (r: Option<char>)
        requires
            self.bem_formado(),
        ensures
            r == if self.pos() < self.texto().len() {
                Some(self.texto()[self.pos()])
            } else {
                None::<char>
            },
    {
        if self.posicao < self.entrada.len() {
            Some(self.entrada[self.posicao])
        } else {
            None
        }
    }

    fn proximo_caractere(&self) -> (r: Option<char>)
        requires
            self.bem_formado(),
        ensures
            r == if self.pos() + 1 < self.texto().len() {
                Some(self.texto()[self.pos() + 1])
            } else {
                None::<char>
            },
    {
        if self.posicao < self.entrada.len() && self.posicao + 1 < self.entrada.len() {
            Some(self.entrada[self.posicao + 1])
        } else {
            None
        }
    }

    fn pular_espacos(&mut self)
        requires
            old(self).bem_formado(),
        ensures
            final(self).bem_formado(),
            final(self).texto() == old(self).texto(),
            final(self).pos() == fim_espacos(old(self).texto(), old(self).pos()),
    {
        let ghost s = self.texto();
        let ghost p_ini = self.pos();
        while self.posicao < self.entrada.len()
            invariant
                self.bem_formado(),
                self.texto() == s,
                s == old(self).texto(),
                p_ini == old(self).pos(),
                fim_espacos(s, self.pos()) == fim_espacos(s, p_ini),
            decreases self.entrada.len() - self.posicao,
        {
            if e_espaco(self.entrada[self.posicao]) {
                self.avancar();
            } else {
                return;
            }
        }
    }

    /// Lê a palavra no cursor, até o primeiro caractere que não continua um identificador.
    fn ler_palavra(&mut self) -> (r: Vec<char>)
        requires
            old(self).bem_formado(),
        ensures
            final(self).bem_formado(),
            final(self).texto() == old(self).texto(),
            final(self).pos() == fim_palavra(old(self).texto(), old(self).pos()),
            r@ == old(self).texto().subrange(old(self).pos(), final(self).pos()),
    {
        let ghost s = self.texto();
        let ghost p_ini = self.pos();
        let mut id: Vec<char> = Vec::new();
        while self.posicao < self.entrada.len()
            invariant
                self.bem_formado(),
                self.texto() == s,
                s == old(self).texto(),
                p_ini == old(self).pos(),
                p_ini <= self.pos(),
                fim_palavra(s, self.pos()) == fim_palavra(s, p_ini),
                id@ == s.subrange(p_ini, self.pos()),
            decreases self.entrada.len() - self.posicao,
        {
            let c = self.entrada[self.posicao];
            if e_alfanumerico(c) || c == '_' {
                proof {
                    assert(s.subrange(p_ini, self.pos() + 1) =~= id@.push(c));
                }
                id.push(c);
                self.avancar();
            } else {
                return id;
            }
        }
        id
    }

    fn ler_identificador(&mut self) -> (r: String)
        requires
            old(self).bem_formado(),
        ensures
            final(self).bem_formado(),
            final(self).texto() == old(self).texto(),
            final(self).pos() == fim_palavra(old(self).texto(), old(self).pos()),
            r@ == old(self).texto().subrange(old(self).pos(), final(self).pos()),
    {
        let v = self.ler_palavra();
        de_caracteres(&v)
    }

    fn ler_numero(&mut self) -> (r: String)
        requires
            old(self).bem_formado(),
        ensures
            final(self).bem_formado(),
            final(self).texto() == old(self).texto(),
            final(self).pos() == fim_numero(old(self).texto(), old(self).pos(), false),
            r@ == old(self).texto().subrange(old(self).pos(), final(self).pos()),
    {
        let ghost s = self.texto();
        let ghost p_ini = self.pos();
        let mut num: Vec<char> = Vec::new();
        let mut tem_ponto = false;
        while self.posicao < self.entrada.len()
            invariant
                self.bem_formado(),
                self.texto() == s,
                s == old(self).texto(),
                p_ini == old(self).pos(),
                p_ini <= self.pos(),
                fim_numero(s, self.pos(), tem_ponto) == fim_numero(s, p_ini, false),
                num@ == s.subrange(p_ini, self.pos()),
            decreases self.entrada.len() - self.posicao,
        {
            let c = self.entrada[self.posicao];
            if '0' <= c && c <= '9' || c == '.' && !tem_ponto {
                proof {
                    assert(s.subrange(p_ini, self.pos() + 1) =~= num@.push(c));
                }
                if c == '.' {
                    tem_ponto = true;
                }
                num.push(c);
                self.avancar();
            } else {
                return de_caracteres(&num);
            }
        }
        de_caracteres(&num)
    }

    fn ler_texto(&mut self) -> (r: Result<String, LexerError>)
        requires
            old(self).bem_formado(),
            old(self).pos() < old(self).texto().len(),
            old(self).texto()[old(self).pos()] == '"',
        ensures
            final(self).bem_formado(),
            final(self).texto() == old(self).texto(),
            match proxima_aspa(old(self).texto(), old(self).pos() + 1) {
                Some(q) => r matches Ok(t) && t@ == old(self).texto().subrange(
                    old(self).pos() + 1,
                    q,
                ) && final(self).pos() == q + 1,
                None => r == Err::<String, LexerError>(LexerError::StringNaoTerminada),
            },
    {
        let ghost s = self.texto();
        let ghost p_ini = self.pos();
        let mut texto: Vec<char> = Vec::new();
        self.avancar();
        while self.posicao < self.entrada.len()
            invariant
                self.bem_formado(),
                self.texto() == s,
                s == old(self).texto(),
                p_ini == old(self).pos(),
                p_ini < self.pos(),
                proxima_aspa(s, self.pos()) == proxima_aspa(s, p_ini + 1),
                texto@ == s.subrange(p_ini + 1, self.pos()),
            decreases self.entrada.len() - self.posicao,
        {
            let c = self.entrada[self.posicao];
            if c == '"' {
                self.avancar();
                return Ok(de_caracteres(&texto));
            }
            proof {
                assert(s.subrange(p_ini + 1, self.pos() + 1) =~= texto@.push(c));
            }
            texto.push(c);
            self.avancar();
        }
        Err(LexerError::StringNaoTerminada)
    }
}

} // verus!

verus! {

/// O que `proximo_token` devolve para a palavra que começa em `i`, com as
/// palavras reservadas de várias palavras: se a continuação esperada não vem,
/// a primeira palavra sai como identificador e o cursor fica logo depois dela.
pub open spec fn palavra_lida(s: Seq<char>, i: int, r: Result<Token, LexerError>, p: int) -> bool {
    let k = fim_palavra(s, i);
    let w = s.subrange(i, k);
    let ident = r matches Ok(Token::Identificador(n)) && n@ == w && p == k;
    if w == "para"@ {
        if seguida_de(s, k, "cada"@) {
            r == Ok::<Token, LexerError>(Token::ParaCada) && p == fim_seguinte(s, k)
        } else {
            ident
        }
    } else if w == "quando"@ {
        if seguida_de(s, k, "der"@) && seguida_de(s, fim_seguinte(s, k), "erro"@) {
            r == Ok::<Token, LexerError>(Token::QuandoDerErro) && p == fim_seguinte(
                s,
                fim_seguinte(s, k),
            )
        } else {
            ident
        }
    } else if w == "falhar"@ {
        if seguida_de(s, k, "com"@) {
            r == Ok::<Token, LexerError>(Token::FalharCom) && p == fim_seguinte(s, k)
        } else {
            ident
        }
    } else if w == "é"@ || w == "e"@ {
        if seguida_de(s, k, "igual"@) && seguida_de(s, fim_seguinte(s, k), "a"@) {
            r == Ok::<Token, LexerError>(Token::IgualA) && p == fim_seguinte(
                s,
                fim_seguinte(s, k),
            )
        } else {
            ident
        }
    } else {
        r matches Ok(t) && token_de_palavra(w, t) && p == k
    }
}

/// O que `proximo_token` devolve para o operador ou símbolo em `i`.
pub open spec fn simbolo_lido(s: Seq<char>, i: int, r: Result<Token, LexerError>, p: int) -> bool {
    let c = s[i];
    let igual_a_seguir = i + 1 < s.len() && s[i + 1] == '=';
    let um = |t: Token| r == Ok::<Token, LexerError>(t) && p == i + 1;
    let dois = |t: Token| r == Ok::<Token, LexerError>(t) && p == i + 2;
    if c == '{' {
        um(Token::AbreChave)
    } else if c == '}' {
        um(Token::FechaChave)
    } else if c == '(' {
        um(Token::AbreParentese)
    } else if c == ')' {
        um(Token::FechaParentese)
    } else if c == ',' {
        um(Token::Virgula)
    } else if c == ':' {
        um(Token::DoisPontos)
    } else if c == ';' {
        um(Token::PontoVirgula)
    } else if c == '+' {
        um(Token::Mais)
    } else if c == '-' {
        um(Token::Menos)
    } else if c == '*' {
        um(Token::Vezes)
    } else if c == '/' {
        um(Token::Dividido)
    } else if c == '=' {
        um(Token::Igual)
    } else if c == '>' {
        if igual_a_seguir {
            dois(Token::MaiorIgual)
        } else {
            um(Token::Maior)
        }
    } else if c == '<' {
        if igual_a_seguir {
            dois(Token::MenorIgual)
        } else {
            um(Token::Menor)
        }
    } else {
        if igual_a_seguir {
            dois(Token::Diferente)
        } else {
            r == Err::<Token, LexerError>(LexerError::CaractereInesperado('!'))
        }
    }
}

/// O resultado de ler um token a partir da posição `p_ini`, deixando o cursor em `p`.
pub open spec fn token_lido(s: Seq<char>, p_ini: int, r: Result<Token, LexerError>, p: int) -> bool {
    let i = inicio_token(s, p_ini);
    if i >= s.len() {
        r == Ok::<Token, LexerError>(Token::EOF) && p == i
    } else {
        let c = s[i];
        if c == '"' {
            match proxima_aspa(s, i + 1) {
                Some(q) => r matches Ok(Token::TextoLiteral(t)) && t@ == s.subrange(i + 1, q) && p
                    == q + 1,
                None => r == Err::<Token, LexerError>(LexerError::StringNaoTerminada),
            }
        } else if digito(c) {
            r matches Ok(Token::NumeroLiteral(n)) && p == fim_numero(s, i, false) && n@
                == s.subrange(i, p)
        } else if inicio_de_palavra(c) && de_palavra(c) {
            palavra_lida(s, i, r, p)
        } else if simbolo(c) {
            simbolo_lido(s, i, r, p)
        } else {
            r == Err::<Token, LexerError>(LexerError::CaractereInesperado(c))
        }
    }
}

/// O token de uma palavra lida sozinha.
fn token_simples(w: &Vec<char>) -> (t: Token)
    ensures
        token_de_palavra(w@, t),
{
    if iguais(w, &caracteres("faça")) {
        Token::Faca
    } else if iguais(w, &caracteres("mostre")) {
        Token::Mostre
    } else if iguais(w, &caracteres("volte")) {
        Token::Volte
    } else if iguais(w, &caracteres("se")) {
        Token::Se
    } else if iguais(w, &caracteres("senão")) {
        Token::Senao
    } else if iguais(w, &caracteres("de")) {
        Token::De
    } else if iguais(w, &caracteres("até")) || iguais(w, &caracteres("ate")) {
        Token::Ate
    } else if iguais(w, &caracteres("modelo")) {
        Token::Modelo
    } else if iguais(w, &caracteres("pense")) {
        Token::Pense
    } else if iguais(w, &caracteres("verdadeiro")) {
        Token::Verdadeiro
    } else if iguais(w, &caracteres("falso")) {
        Token::Falso
    } else if iguais(w, &caracteres("nada")) {
        Token::Nada
    } else if iguais(w, &caracteres("texto")) {
        Token::TipoTexto
    } else if iguais(w, &caracteres("número")) || iguais(w, &caracteres("numero")) {
        Token::TipoNumero
    } else if iguais(w, &caracteres("lógico")) || iguais(w, &caracteres("logico")) {
        Token::TipoLogico
    } else {
        Token::Identificador(de_caracteres(w))
    }
}

impl Lexer {
    /// Avança até logo depois do fim da linha corrente.
    fn pular_linha(&mut self)
        requires
            old(self).bem_formado(),
        ensures
            final(self).bem_formado(),
            final(self).texto() == old(self).texto(),
            final(self).pos() == fim_linha(old(self).texto(), old(self).pos()),
    {
        let ghost s = self.texto();
        let ghost p_ini = self.pos();
        while self.posicao < self.entrada.len()
            invariant
                self.bem_formado(),
                self.texto() == s,
                s == old(self).texto(),
                p_ini == old(self).pos(),
                fim_linha(s, self.pos()) == fim_linha(s, p_ini),
            decreases self.entrada.len() - self.posicao,
        {
            let c = self.entrada[self.posicao];
            self.avancar();
            if c == '\n' {
                return;
            }
        }
    }

    /// Lê a palavra seguinte, depois dos espaços; se não for `esperado`, o
    /// cursor volta para onde estava.
    fn continua_com(&mut self, esperado: &str) -> (r: bool)
        requires
            old(self).bem_formado(),
        ensures
            final(self).bem_formado(),
            final(self).texto() == old(self).texto(),
            r == seguida_de(old(self).texto(), old(self).pos(), esperado@),
            r ==> final(self).pos() == fim_seguinte(old(self).texto(), old(self).pos()),
            !r ==> final(self).pos() == old(self).pos(),
    {
        let salvo_posicao = self.posicao;
        let salvo_linha = self.linha;
        let salvo_coluna = self.coluna;
        self.pular_espacos();
        let w = self.ler_palavra();
        let e = caracteres(esperado);
        if iguais(&w, &e) {
            true
        } else {
            self.posicao = salvo_posicao;
            self.linha = salvo_linha;
            self.coluna = salvo_coluna;
            false
        }
    }

    /// Pula espaços e comentários.
    fn pular_ignorados(&mut self)
        requires
            old(self).bem_formado(),
        ensures
            final(self).bem_formado(),
            final(self).texto() == old(self).texto(),
            final(self).pos() == inicio_token(old(self).texto(), old(self).pos()),
    {
        let ghost s = self.texto();
        let ghost p_ini = self.pos();
        loop
            invariant
                self.bem_formado(),
                self.texto() == s,
                s == old(self).texto(),
                p_ini == old(self).pos(),
                inicio_token(s, self.pos()) == inicio_token(s, p_ini),
            decreases self.entrada.len() - self.posicao,
        {
            let ghost antes = self.pos();
            self.pular_espacos();
            proof {
                lema_fim_espacos(s, antes);
            }
            if self.entrada.len() > 1 && self.posicao < self.entrada.len() - 1
                && self.entrada[self.posicao] == '/'
                && self.entrada[self.posicao + 1] == '/' {
                let ghost j = self.pos();
                self.pular_linha();
                proof {
                    lema_fim_linha(s, j);
                }
            } else {
                return;
            }
        }
    }

    /// Lê o próximo token: pula espaços e comentários e reconhece um operador,
    /// um literal, um identificador ou uma palavra reservada, inclusive as de
    /// várias palavras ("para cada", "quando der erro", "falhar com", "é igual a").
    pub fn proximo_token(&mut self) -> (r: Result<Token, LexerError>)
        requires
            old(self).bem_formado(),
        ensures
            final(self).bem_formado(),
            final(self).texto() == old(self).texto(),
            token_lido(old(self).texto(), old(self).pos(), r, final(self).pos()),
            r matches Ok(t) && t != Token::EOF ==> old(self).pos() < final(self).pos(),
    {
        let ghost s = self.texto();
        let ghost p_ini = self.pos();
        self.pular_ignorados();
        proof {
            lema_inicio_token(s, p_ini);
        }
        let i = self.posicao;
        if i >= self.entrada.len() {
            return Ok(Token::EOF);
        }
        let c = self.entrada[i];
        if c == '"' {
            proof {
                lema_proxima_aspa(s, i + 1);
            }
            return match self.ler_texto() {
                Ok(t) => Ok(Token::TextoLiteral(t)),
                Err(e) => Err(e),
            };
        }
        if '0' <= c && c <= '9' {
            let n = self.ler_numero();
            proof {
                lema_fim_numero(s, i + 1, false);
            }
            return Ok(Token::NumeroLiteral(n));
        }
        if ('a' <= c && c <= 'z') || ('A' <= c && c <= 'Z') || c == '_' || ('á' <= c && c <= 'ú')
            || ('Á' <= c && c <= 'Ú') {
            if e_alfanumerico(c) || c == '_' {
                return self.ler_palavra_reservada();
            }
            return Err(LexerError::CaractereInesperado(c));
        }
        self.avancar();
        let proximo_igual = self.posicao < self.entrada.len() && self.entrada[self.posicao] == '=';
        if c == '{' {
            Ok(Token::AbreChave)
        } else if c == '}' {
            Ok(Token::FechaChave)
        } else if c == '(' {
            Ok(Token::AbreParentese)
        } else if c == ')' {
            Ok(Token::FechaParentese)
        } else if c == ',' {
            Ok(Token::Virgula)
        } else if c == ':' {
            Ok(Token::DoisPontos)
        } else if c == ';' {
            Ok(Token::PontoVirgula)
        } else if c == '+' {
            Ok(Token::Mais)
        } else if c == '-' {
            Ok(Token::Menos)
        } else if c == '*' {
            Ok(Token::Vezes)
        } else if c == '/' {
            Ok(Token::Dividido)
        } else if c == '=' {
            Ok(Token::Igual)
        } else if c == '>' {
            if proximo_igual {
                self.avancar();
                Ok(Token::MaiorIgual)
            } else {
                Ok(Token::Maior)
            }
        } else if c == '<' {
            if proximo_igual {
                self.avancar();
                Ok(Token::MenorIgual)
            } else {
                Ok(Token::Menor)
            }
        } else if c == '!' {
            if proximo_igual {
                self.avancar();
                Ok(Token::Diferente)
            } else {
                Err(LexerError::CaractereInesperado('!'))
            }
        } else {
            Err(LexerError::CaractereInesperado(c))
        }
    }

    /// Lê uma palavra que começa no cursor e resolve as palavras reservadas.
    fn ler_palavra_reservada(&mut self) -> (r: Result<Token, LexerError>)
        requires
            old(self).bem_formado(),
            old(self).pos() < old(self).texto().len(),
            de_palavra(old(self).texto()[old(self).pos()]),
        ensures
            final(self).bem_formado(),
            final(self).texto() == old(self).texto(),
            palavra_lida(old(self).texto(), old(self).pos(), r, final(self).pos()),
            old(self).pos() < final(self).pos(),
    {
        let ghost s = self.texto();
        let ghost i = self.pos();
        let w = self.ler_palavra();
        proof {
            lema_fim_palavra(s, i + 1);
            let k = fim_palavra(s, i);
            lema_fim_espacos(s, k);
            lema_fim_palavra(s, fim_espacos(s, k));
            lema_fim_espacos(s, fim_seguinte(s, k));
            lema_fim_palavra(s, fim_espacos(s, fim_seguinte(s, k)));
        }
        let salvo_posicao = self.posicao;
        let salvo_linha = self.linha;
        let salvo_coluna = self.coluna;
        if iguais(&w, &caracteres("para")) {
            if self.continua_com("cada") {
                return Ok(Token::ParaCada);
            }
        } else if iguais(&w, &caracteres("quando")) {
            if self.continua_com("der") {
                if self.continua_com("erro") {
                    return Ok(Token::QuandoDerErro);
                }
                self.posicao = salvo_posicao;
                self.linha = salvo_linha;
                self.coluna = salvo_coluna;
            }
        } else if iguais(&w, &caracteres("falhar")) {
            if self.continua_com("com") {
                return Ok(Token::FalharCom);
            }
        } else if iguais(&w, &caracteres("é")) || iguais(&w, &caracteres("e")) {
            if self.continua_com("igual") {
                if self.continua_com("a") {
                    return Ok(Token::IgualA);
                }
                self.posicao = salvo_posicao;
                self.linha = salvo_linha;
                self.coluna = salvo_coluna;
            }
        } else {
            return Ok(token_simples(&w));
        }
        Ok(Token::Identificador(de_caracteres(&w)))
    }
}

/// Onde termina o token `t` lido a partir de `i`.
pub open spec fn fim_do_token(s: Seq<char>, i: int, t: Token) -> int {
    if t == Token::EOF {
        inicio_token(s, i)
    } else {
        fim_token(s, inicio_token(s, i))
    }
}

/// `v` é a sequência de tokens lida a partir de `i`, um `proximo_token` após o
/// outro, terminada no primeiro `EOF`.
pub open spec fn tokens_lidos(s: Seq<char>, i: int, v: Seq<Token>) -> bool
    decreases v.len(),
{
    if v.len() == 0 {
        false
    } else {
        let p = fim_do_token(s, i, v[0]);
        &&& token_lido(s, i, Ok(v[0]), p)
        &&& if v[0] == Token::EOF {
            v.len() == 1
        } else {
            tokens_lidos(s, p, v.drop_first())
        }
    }
}

/// A posição, a partir de `i`, antes do primeiro token com erro léxico.
pub open spec fn posicao_erro(s: Seq<char>, i: int) -> int
    decreases s.len() - i,
{
    let j = inicio_token(s, i);
    if i < 0 || i > s.len() || j < i || j >= s.len() || erro_em(s, j) {
        i
    } else if fim_token(s, j) <= i || fim_token(s, j) > s.len() {
        i
    } else {
        posicao_erro(s, fim_token(s, j))
    }
}

/// O erro do token que começa depois da posição `i`.
pub open spec fn erro_lido(s: Seq<char>, i: int) -> LexerError {
    let c = s[inicio_token(s, i)];
    if c == '"' {
        LexerError::StringNaoTerminada
    } else {
        LexerError::CaractereInesperado(c)
    }
}

/// Divide o código-fonte em tokens, terminados por `EOF`, ou falha no primeiro
/// erro léxico.
pub fn tokenizar(codigo: &str) -> (r: Result<Vec<Token>, LexerError>)
    ensures
        r is Ok <==> sem_erro_lexico(codigo@, 0),
        r matches Ok(v) ==> tokens_lidos(codigo@, 0, v@),
        r matches Err(e) ==> e == erro_lido(codigo@, posicao_erro(codigo@, 0)),
        r matches Ok(v) ==> v.len() >= 1 && v@.last() == Token::EOF && forall|k: int|
            0 <= k < v.len() - 1 ==> v@[k] != Token::EOF,
{
    let ghost s = codigo@;
    let mut lexer = Lexer::new(codigo);
    let mut tokens: Vec<Token> = Vec::new();
    loop
        invariant
            lexer.bem_formado(),
            lexer.texto() == s,
            s == codigo@,
            sem_erro_lexico(s, lexer.pos()) == sem_erro_lexico(s, 0),
            posicao_erro(s, lexer.pos()) == posicao_erro(s, 0),
            forall|resto: Seq<Token>|
                tokens_lidos(s, lexer.pos(), resto) ==> tokens_lidos(s, 0, tokens@ + resto),
            forall|k: int| 0 <= k < tokens.len() ==> tokens@[k] != Token::EOF,
        decreases lexer.texto().len() - lexer.pos(),
    {
        let ghost p_ini = lexer.pos();
        let ghost antes = tokens@;
        let resultado = lexer.proximo_token();
        proof {
            lema_token_lido(s, p_ini, resultado, lexer.pos());
            lema_inicio_token(s, p_ini);
        }
        match resultado {
            Ok(Token::EOF) => {
                proof {
                    let resto = seq![Token::EOF];
                    assert(resto[0] == Token::EOF);
                    assert(tokens_lidos(s, p_ini, resto));
                    assert(antes + resto =~= tokens@.push(Token::EOF));
                }
                tokens.push(Token::EOF);
                return Ok(tokens);
            },
            Ok(token) => {
                proof {
                    let p = lexer.pos();
                    assert forall|resto: Seq<Token>| tokens_lidos(s, p, resto) implies tokens_lidos(
                        s,
                        0,
                        antes.push(token) + resto,
                    ) by {
                        let maior = seq![token] + resto;
                        assert(maior[0] == token);
                        assert(maior.drop_first() =~= resto);
                        assert(tokens_lidos(s, p_ini, maior));
                        assert(antes + maior =~= antes.push(token) + resto);
                    }
                }
                tokens.push(token);
            },
            Err(e) => return Err(e),
        }
    }
}

} // verus!

verus! {

/// "para cada" é uma só palavra reservada. "para" seguido de outra palavra
/// sai como o identificador "para", sem erro, e o cursor fica logo depois de
/// "para": a palavra seguinte não é consumida.
pub proof fn lei_para_cada(s: Seq<char>, p_ini: int, r: Result<Token, LexerError>, p: int)
    requires
        0 <= p_ini <= s.len(),
        token_lido(s, p_ini, r, p),
        inicio_token(s, p_ini) < s.len(),
        s.subrange(inicio_token(s, p_ini), fim_palavra(s, inicio_token(s, p_ini))) == "para"@,
    ensures
        ({
            let k = fim_palavra(s, inicio_token(s, p_ini));
            if seguida_de(s, k, "cada"@) {
                r == Ok::<Token, LexerError>(Token::ParaCada) && p == fim_seguinte(s, k)
            } else {
                r matches Ok(Token::Identificador(n)) && n@ == "para"@ && p == k
            }
        }),
{
    let i = inicio_token(s, p_ini);
    lema_inicio_token(s, p_ini);
    lema_fim_palavra(s, i);
    reveal_strlit("para");
    let w = s.subrange(i, fim_palavra(s, i));
    assert(w.len() == 4);
    assert(w[0] == 'p');
    if !de_palavra(s[i]) {
        assert(fim_palavra(s, i) == i);
    }
    assert(s[i] == 'p');
}

} // verus!

verus! {

/// Onde termina a palavra (ou palavra reservada composta) que começa em `i`.
pub open spec fn fim_palavra_lida(s: Seq<char>, i: int) -> int {
    let k = fim_palavra(s, i);
    let w = s.subrange(i, k);
    if w == "para"@ && seguida_de(s, k, "cada"@) {
        fim_seguinte(s, k)
    } else if w == "quando"@ && seguida_de(s, k, "der"@) && seguida_de(
        s,
        fim_seguinte(s, k),
        "erro"@,
    ) {
        fim_seguinte(s, fim_seguinte(s, k))
    } else if w == "falhar"@ && seguida_de(s, k, "com"@) {
        fim_seguinte(s, k)
    } else if (w == "é"@ || w == "e"@) && seguida_de(s, k, "igual"@) && seguida_de(
        s,
        fim_seguinte(s, k),
        "a"@,
    ) {
        fim_seguinte(s, fim_seguinte(s, k))
    } else {
        k
    }
}

/// O token que começa em `i` (já depois de espaços e comentários) é um erro léxico.
pub open spec fn erro_em(s: Seq<char>, i: int) -> bool {
    let c = s[i];
    if c == '"' {
        proxima_aspa(s, i + 1) is None
    } else if digito(c) || (inicio_de_palavra(c) && de_palavra(c)) {
        false
    } else if simbolo(c) {
        c == '!' && !(i + 1 < s.len() && s[i + 1] == '=')
    } else {
        true
    }
}

/// Onde termina o token, sem erro, que começa em `i`.
pub open spec fn fim_token(s: Seq<char>, i: int) -> int {
    let c = s[i];
    if c == '"' {
        match proxima_aspa(s, i + 1) {
            Some(q) => q + 1,
            None => i,
        }
    } else if digito(c) {
        fim_numero(s, i, false)
    } else if inicio_de_palavra(c) && de_palavra(c) {
        fim_palavra_lida(s, i)
    } else if (c == '>' || c == '<' || c == '!') && i + 1 < s.len() && s[i + 1] == '=' {
        i + 2
    } else {
        i + 1
    }
}

/// A entrada, a partir de `i`, divide-se em tokens sem erro léxico até o fim.
pub open spec fn sem_erro_lexico(s: Seq<char>, i: int) -> bool
    decreases s.len() - i,
{
    let j = inicio_token(s, i);
    if i < 0 || i > s.len() || j < i || j >= s.len() {
        true
    } else if erro_em(s, j) {
        false
    } else if fim_token(s, j) <= i || fim_token(s, j) > s.len() {
        true
    } else {
        sem_erro_lexico(s, fim_token(s, j))
    }
}

proof fn lema_token_lido(s: Seq<char>, p_ini: int, r: Result<Token, LexerError>, p: int)
    requires
        0 <= p_ini <= s.len(),
        token_lido(s, p_ini, r, p),
    ensures
        inicio_token(s, p_ini) < s.len() ==> (r is Err <==> erro_em(s, inicio_token(s, p_ini))),
        inicio_token(s, p_ini) < s.len() && r is Ok ==> p == fim_token(s, inicio_token(s, p_ini)),
        inicio_token(s, p_ini) >= s.len() ==> r == Ok::<Token, LexerError>(Token::EOF),
{
    let i = inicio_token(s, p_ini);
    if i < s.len() && r is Ok && inicio_de_palavra(s[i]) && de_palavra(s[i]) {
        // As palavras reservadas compostas são distintas entre si.
        reveal_strlit("para");
        reveal_strlit("quando");
        reveal_strlit("falhar");
        reveal_strlit("é");
        reveal_strlit("e");
        assert("para"@.len() == 4 && "quando"@.len() == 6 && "falhar"@.len() == 6);
        assert("é"@.len() == 1 && "e"@.len() == 1);
        assert("quando"@[0] == 'q' && "falhar"@[0] == 'f');
    }
}

} // verus!

verus! {

/// Um texto que abre aspas e não as fecha até o fim da entrada é um erro
/// léxico: o token nunca sai truncado.
pub proof fn lei_texto_nao_terminado(s: Seq<char>, p_ini: int, r: Result<Token, LexerError>, p: int)
    requires
        0 <= p_ini <= s.len(),
        token_lido(s, p_ini, r, p),
        inicio_token(s, p_ini) < s.len(),
        s[inicio_token(s, p_ini)] == '"',
        forall|k: int| inicio_token(s, p_ini) < k < s.len() ==> s[k] != '"',
    ensures
        r == Err::<Token, LexerError>(LexerError::StringNaoTerminada),
{
    let i = inicio_token(s, p_ini);
    lema_inicio_token(s, p_ini);
    lema_sem_aspa(s, i + 1);
}

proof fn lema_sem_aspa(s: Seq<char>, i: int)
    requires
        0 <= i,
        forall|k: int| i <= k < s.len() ==> s[k] != '"',
    ensures
        proxima_aspa(s, i) is None,
    decreases s.len() - i,
{
    if i < s.len() {
        lema_sem_aspa(s, i + 1);
    }
}

} // verus!
