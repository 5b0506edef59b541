use vstd::prelude::*;
use crate::ast::{Declaracao, Expressao, Operador, Programa, Tipo};
use crate::lexer::{de_palavra, digito, espaco, e_alfanumerico, e_espaco, fim_palavra, inicio_de_palavra, iguais, lema_fim_palavra};
use crate::texto::{caracteres, de_caracteres};
use crate::gramatica::{
    aceita, aceita2, aceita_palavra, atribuicao_em, bloco_em, bloco_laco, campos_laco, caminho_laco,
    chamada_em, chamada_laco, comparacao_em, comparacao_laco, condicional_em, declaracao_em,
    declaracoes_bloco_em, decl_v, decls_v, dicionario_em, dicionario_laco, e_em, e_laco,
    enquanto_em, quando_em, expr_v, exprs_v, expressao_em, fator_em, fator_palavra, membro_em, fecha_texto, fim_comentario, fim_num,
    funcao_em, identificador_em, importar_em, lista_em, lista_laco, modelo_em, modulo_em,
    mostrar_em, numero_em, op_comparacao, op_soma, op_termo, ou_em, ou_laco, pares_v, para_cada_em,
    parametros_em, parametros_laco, parametros_v, programa_de, programa_laco, programa_v, pula,
    repita_em, reservada_spec, retorno_em, soma_em, soma_laco, termo_em, termo_laco, texto_em,
    tipo_em, tipo_v, variavel_em, campos_v, nomes_v, aspas_triplas,
};

verus! {

/// Erro de sintaxe: o que se esperava e onde (em caracteres).
#[derive(Debug, Clone, PartialEq)]
pub struct ErroSintaxe {
    pub esperado: String,
    pub posicao: usize,
}

impl ErroSintaxe {
    /// A mensagem legível do erro.
    pub fn mensagem(&self) -> String {
        let mut m = String::from_str("Erro de sintaxe: esperava ");
        m.append(self.esperado.as_str());
        m
    }
}

/// O analisador sintático: descida recursiva sobre os caracteres da entrada,
/// com uma regra por nível de precedência.
pub struct PBRParser {
    entrada: Vec<char>,
    pos: usize,
}

impl PBRParser {
    /// A entrada inteira.
    pub closed spec fn texto(&self) -> Seq<char> {
        self.entrada@
    }

    /// A posição do cursor, em caracteres.
    pub closed spec fn cursor(&self) -> int {
        self.pos as int
    }

    /// O cursor está dentro da entrada ou no seu fim.
    pub closed spec fn bem_formado(&self) -> bool {
        self.pos <= self.entrada.len()
    }

    /// Quantos caracteres faltam ler.
    pub closed spec fn restante(&self) -> int {
        self.entrada.len() - self.pos
    }

    pub fn new(codigo: &str) -> (r: PBRParser)
        ensures
            r.bem_formado(),
            r.texto() == codigo@,
            r.cursor() == 0,
    {
        PBRParser { entrada: caracteres(codigo), pos: 0 }
    }

    fn erro(&self, esperado: &str) -> (r: ErroSintaxe)
        requires
            self.bem_formado(),
        ensures
            r.posicao == self.cursor(),
            r.esperado@ == esperado@,
    {
        ErroSintaxe { esperado: String::from_str(esperado), posicao: self.pos }
    }

    /// Pula espaços em branco e comentários `//` até o fim da linha.
    fn pular(&mut self)
        requires
            old(self).bem_formado(),
        ensures
            final(self).bem_formado(),
            final(self).texto() == old(self).texto(),
            old(self).cursor() <= final(self).cursor(),
            final(self).cursor() == pula(old(self).texto(), old(self).cursor()),
    {
        while self.pos < self.entrada.len()
            invariant
                self.bem_formado(),
                self.texto() == old(self).texto(),
                old(self).cursor() <= self.cursor(),
                pula(self.texto(), self.cursor()) == pula(old(self).texto(), old(self).cursor()),
            decreases self.entrada.len() - self.pos,
        {
            let c = self.entrada[self.pos];
            if e_espaco(c) {
                self.pos += 1;
            } else if c == '/' && self.pos + 1 < self.entrada.len() && self.entrada[self.pos + 1]
                == '/' {
                let ghost inicio = self.pos;
                self.pos += 2;
                while self.pos < self.entrada.len() && self.entrada[self.pos] != '\n'
                    invariant
                        inicio < self.pos,
                        inicio + 2 <= self.pos,
                        inicio + 1 < self.entrada.len(),
                        self.entrada@[inicio as int] == '/',
                        self.entrada@[inicio + 1] == '/',
                        !espaco(self.entrada@[inicio as int]),
                        fim_comentario(self.texto(), self.cursor()) == fim_comentario(self.texto(), inicio + 2),
                        pula(self.texto(), inicio as int) == pula(old(self).texto(), old(self).cursor()),
                        self.bem_formado(),
                        self.texto() == old(self).texto(),
                        old(self).cursor() <= self.cursor(),
                    decreases self.entrada.len() - self.pos,
                {
                    self.pos += 1;
                }
            } else {
                return;
            }
        }
    }

    /// O caractere no cursor, depois de pular o que se ignora.
    fn olhar(&mut self) -> (r: Option<char>)
        requires
            old(self).bem_formado(),
        ensures
            final(self).bem_formado(),
            final(self).texto() == old(self).texto(),
            old(self).cursor() <= final(self).cursor(),
            r == if final(self).cursor() < final(self).texto().len() {
                Some(final(self).texto()[final(self).cursor()])
            } else {
                None::<char>
            },
            final(self).cursor() == pula(old(self).texto(), old(self).cursor()),
    {
        self.pular();
        if self.pos < self.entrada.len() {
            Some(self.entrada[self.pos])
        } else {
            None
        }
    }

    /// O caractere `k` posições depois do cursor.
    fn adiante(&self, k: usize) -> (r: Option<char>)
        requires
            self.bem_formado(),
        ensures
            r == if self.cursor() + k < self.texto().len() {
                Some(self.texto()[self.cursor() + k])
            } else {
                None::<char>
            },
    {
        if k < self.entrada.len() - self.pos {
            Some(self.entrada[self.pos + k])
        } else {
            None
        }
    }

    /// A palavra que começa no cursor, sem consumi-la.
    fn palavra_no_cursor(&self) -> (r: Vec<char>)
        requires
            self.bem_formado(),
        ensures
            r@ == self.texto().subrange(self.cursor(), fim_palavra(self.texto(), self.cursor())),
            self.cursor() + r.len() <= self.texto().len(),
    {
        let ghost s = self.texto();
        let mut j: usize = self.pos;
        let mut w: Vec<char> = Vec::new();
        while j < self.entrada.len()
            invariant
                self.pos <= j <= self.entrada.len(),
                s == self.texto(),
                fim_palavra(s, j as int) == fim_palavra(s, self.cursor()),
                w@ == s.subrange(self.cursor(), j as int),
            decreases self.entrada.len() - j,
        {
            let c = self.entrada[j];
            if e_alfanumerico(c) || c == '_' {
                proof {
                    assert(s.subrange(self.cursor(), j + 1) =~= w@.push(c));
                }
                w.push(c);
                j += 1;
            } else {
                return w;
            }
        }
        w
    }

    /// Consome a palavra `w` se ela é a próxima.
    fn aceitar_palavra(&mut self, w: &str) -> (r: bool)
        requires
            old(self).bem_formado(),
        ensures
            final(self).bem_formado(),
            final(self).texto() == old(self).texto(),
            old(self).cursor() <= final(self).cursor(),
            r ==> old(self).cursor() < final(self).cursor(),
            (r, final(self).cursor()) == aceita_palavra(old(self).texto(), old(self).cursor(), w@),
    {
        self.pular();
        let p = self.palavra_no_cursor();
        if p.len() > 0 && iguais(&p, &caracteres(w)) {
            self.pos += p.len();
            true
        } else {
            false
        }
    }

    /// A próxima palavra é `w` (nada é consumido além do que se ignora).
    fn ve_palavra(&mut self, w: &str) -> (r: bool)
        requires
            old(self).bem_formado(),
        ensures
            final(self).bem_formado(),
            final(self).texto() == old(self).texto(),
            old(self).cursor() <= final(self).cursor(),
            (r, final(self).cursor()) == crate::gramatica::ve_palavra(old(self).texto(), old(self).cursor(), w@),
    {
        self.pular();
        let p = self.palavra_no_cursor();
        p.len() > 0 && iguais(&p, &caracteres(w))
    }

    /// Consome o caractere `c` se ele é o próximo.
    fn aceitar(&mut self, c: char) -> (r: bool)
        requires
            old(self).bem_formado(),
        ensures
            final(self).bem_formado(),
            final(self).texto() == old(self).texto(),
            old(self).cursor() <= final(self).cursor(),
            r ==> old(self).cursor() < final(self).cursor(),
            (r, final(self).cursor()) == aceita(old(self).texto(), old(self).cursor(), c),
    {
        if self.olhar() == Some(c) {
            self.pos += 1;
            true
        } else {
            false
        }
    }

    /// Consome os dois caracteres `a` e `b` se eles são os próximos.
    fn aceitar2(&mut self, a: char, b: char) -> (r: bool)
        requires
            old(self).bem_formado(),
        ensures
            final(self).bem_formado(),
            final(self).texto() == old(self).texto(),
            old(self).cursor() <= final(self).cursor(),
            r ==> old(self).cursor() < final(self).cursor(),
            (r, final(self).cursor()) == aceita2(old(self).texto(), old(self).cursor(), a, b),
    {
        if self.olhar() == Some(a) && self.adiante(1) == Some(b) {
            self.pos += 2;
            true
        } else {
            false
        }
    }

    /// Exige o caractere `c`.
    fn esperar(&mut self, c: char, esperado: &str) -> (r: Result<(), ErroSintaxe>)
        requires
            old(self).bem_formado(),
        ensures
            final(self).bem_formado(),
            final(self).texto() == old(self).texto(),
            old(self).cursor() <= final(self).cursor(),
            r is Ok ==> old(self).cursor() < final(self).cursor(),
            r is Ok <==> aceita(old(self).texto(), old(self).cursor(), c).0,
            r is Ok ==> final(self).cursor() == aceita(old(self).texto(), old(self).cursor(), c).1,
    {
        if self.aceitar(c) {
            Ok(())
        } else {
            Err(self.erro(esperado))
        }
    }

    /// Exige a palavra `w`.
    fn esperar_palavra(&mut self, w: &str, esperado: &str) -> (r: Result<(), ErroSintaxe>)
        requires
            old(self).bem_formado(),
        ensures
            final(self).bem_formado(),
            final(self).texto() == old(self).texto(),
            old(self).cursor() <= final(self).cursor(),
            r is Ok ==> old(self).cursor() < final(self).cursor(),
            r is Ok <==> aceita_palavra(old(self).texto(), old(self).cursor(), w@).0,
            r is Ok ==> final(self).cursor() == aceita_palavra(old(self).texto(), old(self).cursor(), w@).1,
    {
        if self.aceitar_palavra(w) {
            Ok(())
        } else {
            Err(self.erro(esperado))
        }
    }
}

/// As palavras reservadas da linguagem, que não servem de identificador numa expressão.
fn reservada(w: &Vec<char>) -> (r: bool)
    ensures
        r == reservada_spec(w@),
{
    iguais(w, &caracteres("pense"))
        || iguais(w, &caracteres("faça"))
        || iguais(w, &caracteres("volte"))
        || iguais(w, &caracteres("se"))
        || iguais(w, &caracteres("senão"))
        || iguais(w, &caracteres("para"))
        || iguais(w, &caracteres("cada"))
        || iguais(w, &caracteres("de"))
        || iguais(w, &caracteres("até"))
        || iguais(w, &caracteres("ate"))
        || iguais(w, &caracteres("enquanto"))
        || iguais(w, &caracteres("repita"))
        || iguais(w, &caracteres("pare"))
        || iguais(w, &caracteres("continue"))
        || iguais(w, &caracteres("tente"))
        || iguais(w, &caracteres("quando"))
        || iguais(w, &caracteres("modelo"))
        || iguais(w, &caracteres("módulo"))
        || iguais(w, &caracteres("modulo"))
        || iguais(w, &caracteres("importar"))
        || iguais(w, &caracteres("mostre"))
        || iguais(w, &caracteres("verdadeiro"))
        || iguais(w, &caracteres("falso"))
        || iguais(w, &caracteres("nada"))
        || iguais(w, &caracteres("e"))
        || iguais(w, &caracteres("ou"))
        || iguais(w, &caracteres("não"))
        || iguais(w, &caracteres("em"))
        || iguais(w, &caracteres("resto"))
        || iguais(w, &caracteres("público"))
        || iguais(w, &caracteres("publico"))
}

} // verus!

verus! {

/// Um nome válido: uma palavra que começa por letra ou `_`.
pub open spec fn nome_valido(n: Seq<char>) -> bool {
    n.len() > 0 && inicio_de_palavra(n[0]) && forall|k: int| 0 <= k < n.len() ==> de_palavra(#[trigger] n[k])
}

/// Um literal numérico bem formado: dígitos, com no máximo um ponto entre dígitos.
pub open spec fn numero_valido(n: Seq<char>) -> bool {
    &&& n.len() > 0
    &&& digito(n[0])
    &&& digito(n.last())
    &&& forall|k: int| 0 <= k < n.len() ==> digito(#[trigger] n[k]) || n[k] == '.'
    &&& forall|a: int, b: int| 0 <= a < b < n.len() && #[trigger] n[a] == '.' ==> #[trigger] n[b] != '.'
}

pub open spec fn tipo_valido(t: Tipo) -> bool
    decreases t,
{
    match t {
        Tipo::Personalizado(n) => nome_valido(n@),
        Tipo::Opcional(b) => tipo_valido(*b),
        _ => true,
    }
}

/// Uma expressão que o analisador pode construir: nomes são identificadores,
/// números bem formados, e o objeto de um acesso a membro é um identificador.
pub open spec fn expr_valida(e: Expressao) -> bool
    decreases e,
{
    match e {
        Expressao::NumeroLiteral(n) => numero_valido(n@),
        Expressao::ListaLiteral(v) => forall|k: int| 0 <= k < v.len() ==> expr_valida(#[trigger] v@[k]),
        Expressao::DicionarioLiteral(v) => forall|k: int|
            0 <= k < v.len() ==> expr_valida(#[trigger] v@[k].0) && expr_valida(v@[k].1),
        Expressao::Identificador(n) => nome_valido(n@),
        Expressao::Chamada { nome, argumentos } => nome_valido(nome@) && forall|k: int|
            0 <= k < argumentos.len() ==> expr_valida(#[trigger] argumentos@[k]),
        Expressao::Operacao { esquerda, direita, .. } => expr_valida(*esquerda) && expr_valida(*direita),
        Expressao::Atribuicao { nome, valor } => nome_valido(nome@) && expr_valida(*valor),
        Expressao::AcessoMembro { objeto, membro } => *objeto is Identificador && expr_valida(*objeto)
            && nome_valido(membro@),
        Expressao::Negacao { expressao } => expr_valida(*expressao),
        _ => true,
    }
}

/// Um bloco válido.
pub open spec fn bloco_valido(d: Declaracao) -> bool {
    d is Bloco && decl_valida(d)
}

/// Uma declaração que o analisador pode construir: nomes são identificadores,
/// corpos e ramos são blocos, e um caminho de importação não é vazio.
pub open spec fn decl_valida(d: Declaracao) -> bool
    decreases d,
{
    match d {
        Declaracao::Variavel { nome, tipo, valor, .. } => nome_valido(nome@) && (tipo matches Some(
            t,
        ) ==> tipo_valido(t)) && (valor matches Some(v) ==> expr_valida(v)),
        Declaracao::Expressao(e) => expr_valida(e),
        Declaracao::Bloco(ds) => forall|k: int| 0 <= k < ds.len() ==> decl_valida(#[trigger] ds@[k]),
        Declaracao::Se { condicao, bloco_se, bloco_senao } => expr_valida(condicao) && *bloco_se is Bloco
            && decl_valida(*bloco_se) && (bloco_senao matches Some(b) ==> *b is Bloco && decl_valida(
            *b,
        )),
        Declaracao::ParaCada { variavel, inicio, fim, corpo } => nome_valido(variavel@) && expr_valida(
            inicio,
        ) && expr_valida(fim) && *corpo is Bloco && decl_valida(*corpo),
        Declaracao::Enquanto { condicao, corpo } => expr_valida(condicao) && *corpo is Bloco
            && decl_valida(*corpo),
        Declaracao::Repita { corpo, condicao } => expr_valida(condicao) && *corpo is Bloco
            && decl_valida(*corpo),
        Declaracao::QuandoDerErro { bloco_try, variavel_erro, bloco_catch } => nome_valido(
            variavel_erro@,
        ) && *bloco_try is Bloco && decl_valida(*bloco_try) && *bloco_catch is Bloco && decl_valida(
            *bloco_catch,
        ),
        Declaracao::Funcao { nome, parametros, tipo_retorno, corpo, .. } => nome_valido(nome@)
            && (forall|k: int|
            0 <= k < parametros.len() ==> nome_valido(#[trigger] parametros@[k].0@) && tipo_valido(
                parametros@[k].1,
            )) && (tipo_retorno matches Some(t) ==> tipo_valido(t)) && *corpo is Bloco && decl_valida(
            *corpo,
        ),
        Declaracao::Retorno(e) => e matches Some(x) ==> expr_valida(x),
        Declaracao::Mostrar(e) => expr_valida(e),
        Declaracao::Modelo { nome, campos, .. } => nome_valido(nome@) && forall|k: int|
            0 <= k < campos.len() ==> nome_valido(#[trigger] campos@[k].0@) && tipo_valido(
                campos@[k].1,
            ),
        Declaracao::Modulo { nome, declaracoes } => nome_valido(nome@) && forall|k: int|
            0 <= k < declaracoes.len() ==> decl_valida(#[trigger] declaracoes@[k]),
        Declaracao::Importar { caminho } => caminho.len() > 0 && forall|k: int|
            0 <= k < caminho.len() ==> nome_valido(#[trigger] caminho@[k]@),
        _ => true,
    }
}

/// Um programa cujas declarações de topo são todas válidas.
pub open spec fn programa_valido(p: Programa) -> bool {
    forall|k: int| 0 <= k < p.declaracoes.len() ==> decl_valida(#[trigger] p.declaracoes@[k])
}

} // verus!

verus! {

impl PBRParser {
    /// Um identificador: uma palavra que começa por letra ou `_`; com
    /// `qualquer == false`, uma palavra reservada não serve.
    fn parse_identificador(&mut self, qualquer: bool) -> (r: Result<String, ErroSintaxe>)
        requires
            old(self).bem_formado(),
        ensures
            final(self).bem_formado(),
            final(self).texto() == old(self).texto(),
            old(self).cursor() <= final(self).cursor(),
            r is Ok ==> old(self).cursor() < final(self).cursor(),
            r matches Ok(n) ==> n@.len() > 0,
            r matches Ok(n) ==> nome_valido(n@),
            r is Ok <==> identificador_em(old(self).texto(), old(self).cursor(), qualquer) is Some,
            r matches Ok(n) ==> identificador_em(old(self).texto(), old(self).cursor(), qualquer) == Some((n@, final(self).cursor())),
    {
        let c = match self.olhar() {
            Some(c) => c,
            None => return Err(self.erro("identificador")),
        };
        if !(('a' <= c && c <= 'z') || ('A' <= c && c <= 'Z') || c == '_' || ('á' <= c && c
            <= 'ú') || ('Á' <= c && c <= 'Ú')) {
            return Err(self.erro("identificador"));
        }
        let w = self.palavra_no_cursor();
        if w.len() == 0 || (!qualquer && reservada(&w)) {
            return Err(self.erro("identificador"));
        }
        proof {
            let s = self.texto();
            let p = self.cursor();
            lema_fim_palavra(s, p);
            assert forall|k: int| 0 <= k < w@.len() implies de_palavra(#[trigger] w@[k]) by {
                assert(w@[k] == s[p + k]);
            }
            assert(w@[0] == c);
        }
        self.pos += w.len();
        Ok(de_caracteres(&w))
    }

    fn parse_tipo(&mut self) -> (r: Result<Tipo, ErroSintaxe>)
        requires
            old(self).bem_formado(),
        ensures
            final(self).bem_formado(),
            final(self).texto() == old(self).texto(),
            old(self).cursor() <= final(self).cursor(),
            r is Ok ==> old(self).cursor() < final(self).cursor(),
            r matches Ok(t) ==> tipo_valido(t),
            r is Ok <==> tipo_em(old(self).texto(), old(self).cursor()) is Some,
            r matches Ok(t) ==> tipo_em(old(self).texto(), old(self).cursor()) == Some((tipo_v(t), final(self).cursor())),
    {
        let nome = self.parse_identificador(true)?;
        let v = caracteres(nome.as_str());
        if iguais(&v, &caracteres("texto")) {
            Ok(Tipo::Texto)
        } else if iguais(&v, &caracteres("número")) || iguais(&v, &caracteres("numero")) {
            Ok(Tipo::Numero)
        } else if iguais(&v, &caracteres("lógico")) || iguais(&v, &caracteres("logico")) {
            Ok(Tipo::Logico)
        } else {
            Ok(Tipo::Personalizado(nome))
        }
    }

    fn parse_numero(&mut self) -> (r: Expressao)
        requires
            old(self).bem_formado(),
            old(self).cursor() < old(self).texto().len(),
            '0' <= old(self).texto()[old(self).cursor()] <= '9',
        ensures
            final(self).bem_formado(),
            final(self).texto() == old(self).texto(),
            old(self).cursor() < final(self).cursor(),
            expr_valida(r),
            numero_em(old(self).texto(), old(self).cursor()) == (expr_v(r), final(self).cursor()),
    {
        let mut num: Vec<char> = Vec::new();
        num.push(self.entrada[self.pos]);
        self.pos += 1;
        let mut tem_ponto = false;
        while self.pos < self.entrada.len()
            invariant
                self.bem_formado(),
                self.texto() == old(self).texto(),
                old(self).cursor() < self.cursor(),
                num@ == old(self).texto().subrange(old(self).cursor(), self.cursor()),
                fim_num(old(self).texto(), self.cursor(), tem_ponto) == fim_num(old(self).texto(), old(self).cursor() + 1, false),
                numero_valido(num@),
                !tem_ponto ==> forall|k: int| 0 <= k < num.len() ==> #[trigger] num@[k] != '.',
            decreases self.entrada.len() - self.pos,
        {
            let c = self.entrada[self.pos];
            if '0' <= c && c <= '9' {
                proof {
                    assert(self.texto().subrange(old(self).cursor(), self.cursor() + 1) =~= num@.push(c));
                }
                num.push(c);
                self.pos += 1;
                proof {
                    assert(num@.last() == c);
                    assert(forall|k: int| 0 <= k < num.len() - 1 ==> num@[k] == num@.drop_last()[k]);
                }
            } else if c == '.' && !tem_ponto && self.pos + 1 < self.entrada.len() && '0'
                <= self.entrada[self.pos + 1] && self.entrada[self.pos + 1] <= '9' {
                let d = self.entrada[self.pos + 1];
                let ghost antes = num@;
                proof {
                    assert(self.texto().subrange(old(self).cursor(), self.cursor() + 2) =~= antes.push('.').push(d));
                }
                num.push('.');
                num.push(d);
                proof {
                    assert(num@ == antes.push('.').push(d));
                    assert(forall|k: int| 0 <= k < antes.len() ==> num@[k] == antes[k]);
                }
                tem_ponto = true;
                self.pos += 2;
            } else {
                return Expressao::NumeroLiteral(de_caracteres(&num));
            }
        }
        Expressao::NumeroLiteral(de_caracteres(&num))
    }

    /// Um literal de texto: simples entre aspas, ou de várias linhas entre três
    /// aspas. O texto fica como está, sem interpolação.
    fn parse_texto_literal(&mut self) -> (r: Result<Expressao, ErroSintaxe>)
        requires
            old(self).bem_formado(),
            old(self).cursor() < old(self).texto().len(),
            old(self).texto()[old(self).cursor()] == '"',
        ensures
            final(self).bem_formado(),
            final(self).texto() == old(self).texto(),
            old(self).cursor() <= final(self).cursor(),
            r is Ok ==> old(self).cursor() < final(self).cursor(),
            r matches Ok(e) ==> expr_valida(e),
            r is Ok <==> texto_em(old(self).texto(), old(self).cursor()) is Some,
            r matches Ok(e) ==> texto_em(old(self).texto(), old(self).cursor()) == Some((expr_v(e), final(self).cursor())),
    {
        let inicio = self.pos;
        let tripla = self.adiante(1) == Some('"') && self.adiante(2) == Some('"');
        let abre: usize = if tripla {
            3
        } else {
            1
        };
        self.pos += abre;
        let mut t: Vec<char> = Vec::new();
        while self.pos < self.entrada.len()
            invariant
                self.bem_formado(),
                self.texto() == old(self).texto(),
                old(self).cursor() < self.cursor(),
                t@ == old(self).texto().subrange(old(self).cursor() + abre, self.cursor()),
                fecha_texto(old(self).texto(), self.cursor(), tripla) == fecha_texto(old(self).texto(), old(self).cursor() + abre, tripla),
                tripla == aspas_triplas(old(self).texto(), old(self).cursor()),
                old(self).cursor() + abre <= self.cursor(),
                old(self).cursor() == inicio,
                abre == (if tripla {
                    3usize
                } else {
                    1usize
                }),
            decreases self.entrada.len() - self.pos,
        {
            let c = self.entrada[self.pos];
            if c == '"' && (!tripla || (self.adiante(1) == Some('"') && self.adiante(2) == Some(
                '"',
            ))) {
                self.pos += abre;
                return Ok(Expressao::TextoLiteral(de_caracteres(&t)));
            }
            proof {
                assert(self.texto().subrange(old(self).cursor() + abre, self.cursor() + 1) =~= t@.push(c));
            }
            t.push(c);
            self.pos += 1;
        }
        self.pos = inicio;
        Err(self.erro("fim do texto"))
    }

    fn parse_lista_literal(&mut self) -> (r: Result<Expressao, ErroSintaxe>)
        requires
            old(self).bem_formado(),
        ensures
            final(self).bem_formado(),
            final(self).texto() == old(self).texto(),
            old(self).cursor() <= final(self).cursor(),
            r is Ok ==> old(self).cursor() < final(self).cursor(),
            r matches Ok(e) ==> expr_valida(e),
            r is Ok <==> lista_em(old(self).texto(), old(self).cursor()) is Some,
            r matches Ok(e) ==> lista_em(old(self).texto(), old(self).cursor()) == Some((expr_v(e), final(self).cursor())),
        decreases old(self).restante(), 1int,
    {
        self.esperar('[', "'['")?;
        let mut elementos: Vec<Expressao> = Vec::new();
        if self.aceitar(']') {
            return Ok(Expressao::ListaLiteral(elementos));
        }
        loop
            invariant
                self.bem_formado(),
                self.texto() == old(self).texto(),
                old(self).cursor() < self.cursor(),
                lista_laco(old(self).texto(), self.cursor(), exprs_v(elementos@)) == lista_em(old(self).texto(), old(self).cursor()),
                forall|k: int| 0 <= k < elementos.len() ==> expr_valida(#[trigger] elementos@[k]),
            decreases self.restante(),
        {
            let e = self.parse_expressao()?;
            let ghost antes = elementos@;
            elementos.push(e);
            proof {
                assert(elementos@.drop_last() =~= antes);
            }
            if !self.aceitar(',') {
                self.esperar(']', "']'")?;
                return Ok(Expressao::ListaLiteral(elementos));
            }
        }
    }

    #[verifier::spinoff_prover]
    #[verifier::rlimit(100)]
    fn parse_dicionario_literal(&mut self) -> (r: Result<Expressao, ErroSintaxe>)
        requires
            old(self).bem_formado(),
        ensures
            final(self).bem_formado(),
            final(self).texto() == old(self).texto(),
            old(self).cursor() <= final(self).cursor(),
            r is Ok ==> old(self).cursor() < final(self).cursor(),
            r matches Ok(e) ==> expr_valida(e),
            r is Ok <==> dicionario_em(old(self).texto(), old(self).cursor()) is Some,
            r matches Ok(e) ==> dicionario_em(old(self).texto(), old(self).cursor()) == Some((expr_v(e), final(self).cursor())),
        decreases old(self).restante(), 1int,
    {
        self.esperar('{', "'{'")?;
        let mut pares: Vec<(Expressao, Expressao)> = Vec::new();
        if self.aceitar('}') {
            return Ok(Expressao::DicionarioLiteral(pares));
        }
        loop
            invariant
                self.bem_formado(),
                self.texto() == old(self).texto(),
                old(self).cursor() < self.cursor(),
                dicionario_laco(old(self).texto(), self.cursor(), pares_v(pares@)) == dicionario_em(old(self).texto(), old(self).cursor()),
                forall|k: int| 0 <= k < pares.len() ==> expr_valida(#[trigger] pares@[k].0) && expr_valida(pares@[k].1),
            decreases self.restante(),
        {
            let chave = self.parse_expressao()?;
            self.esperar(':', "':'")?;
            let valor = self.parse_expressao()?;
            let ghost antes = pares@;
            pares.push((chave, valor));
            proof {
                assert(pares@.drop_last() =~= antes);
            }
            if !self.aceitar(',') {
                self.esperar('}', "'}'")?;
                return Ok(Expressao::DicionarioLiteral(pares));
            }
        }
    }

    /// Os argumentos de uma chamada, entre parênteses.
    #[verifier::spinoff_prover]
    #[verifier::rlimit(100)]
    fn parse_chamada(&mut self, nome: String) -> (r: Result<Expressao, ErroSintaxe>)
        requires
            old(self).bem_formado(),
            nome_valido(nome@),
        ensures
            final(self).bem_formado(),
            final(self).texto() == old(self).texto(),
            old(self).cursor() <= final(self).cursor(),
            r is Ok ==> old(self).cursor() < final(self).cursor(),
            r matches Ok(e) ==> expr_valida(e),
            r is Ok <==> chamada_em(old(self).texto(), old(self).cursor(), nome@) is Some,
            r matches Ok(e) ==> chamada_em(old(self).texto(), old(self).cursor(), nome@) == Some((expr_v(e), final(self).cursor())),
        decreases old(self).restante(), 1int,
    {
        self.esperar('(', "'('")?;
        let mut argumentos: Vec<Expressao> = Vec::new();
        if self.aceitar(')') {
            return Ok(Expressao::Chamada { nome, argumentos });
        }
        loop
            invariant
                self.bem_formado(),
                self.texto() == old(self).texto(),
                old(self).cursor() < self.cursor(),
                chamada_laco(old(self).texto(), self.cursor(), nome@, exprs_v(argumentos@)) == chamada_em(old(self).texto(), old(self).cursor(), nome@),
                nome_valido(nome@),
                forall|k: int| 0 <= k < argumentos.len() ==> expr_valida(#[trigger] argumentos@[k]),
            decreases self.restante(),
        {
            let e = self.parse_expressao()?;
            let ghost antes = argumentos@;
            argumentos.push(e);
            proof {
                assert(argumentos@.drop_last() =~= antes);
            }
            if !self.aceitar(',') {
                self.esperar(')', "')'")?;
                return Ok(Expressao::Chamada { nome, argumentos });
            }
        }
    }

    /// O membro de um objeto identificado por nome: `objeto.membro`.
    fn parse_acesso_membro(&mut self, objeto: String) -> (r: Result<Expressao, ErroSintaxe>)
        requires
            old(self).bem_formado(),
            nome_valido(objeto@),
        ensures
            final(self).bem_formado(),
            final(self).texto() == old(self).texto(),
            old(self).cursor() <= final(self).cursor(),
            r is Ok ==> old(self).cursor() < final(self).cursor(),
            r matches Ok(e) ==> expr_valida(e),
            r is Ok <==> membro_em(old(self).texto(), old(self).cursor(), objeto@) is Some,
            r matches Ok(e) ==> membro_em(old(self).texto(), old(self).cursor(), objeto@) == Some((expr_v(e), final(self).cursor())),
    {
        self.esperar('.', "'.'")?;
        let membro = self.parse_identificador(true)?;
        let alvo = Expressao::Identificador(objeto);
        proof {
            assert(expr_valida(alvo));
            assert(expr_v(alvo) == crate::gramatica::ExprV::Ident(alvo->Identificador_0@));
        }
        Ok(Expressao::AcessoMembro { objeto: Box::new(alvo), membro })
    }

    #[verifier::spinoff_prover]
    #[verifier::rlimit(100)]
    fn parse_fator(&mut self) -> (r: Result<Expressao, ErroSintaxe>)
        requires
            old(self).bem_formado(),
        ensures
            final(self).bem_formado(),
            final(self).texto() == old(self).texto(),
            old(self).cursor() <= final(self).cursor(),
            r is Ok ==> old(self).cursor() < final(self).cursor(),
            r matches Ok(e) ==> expr_valida(e),
            r is Ok <==> fator_em(old(self).texto(), old(self).cursor()) is Some,
            r matches Ok(e) ==> fator_em(old(self).texto(), old(self).cursor()) == Some((expr_v(e), final(self).cursor())),
        decreases old(self).restante(), 2int,
    {
        let c = match self.olhar() {
            Some(c) => c,
            None => return Err(self.erro("expressão")),
        };
        if c == '"' {
            return self.parse_texto_literal();
        }
        if '0' <= c && c <= '9' {
            return Ok(self.parse_numero());
        }
        if c == '[' {
            return self.parse_lista_literal();
        }
        if c == '{' {
            return self.parse_dicionario_literal();
        }
        if c == '(' {
            self.pos += 1;
            let e = self.parse_expressao()?;
            self.esperar(')', "')'")?;
            return Ok(e);
        }
        if c == '!' && self.adiante(1) != Some('=') {
            self.pos += 1;
            let e = self.parse_fator()?;
            return Ok(Expressao::Negacao { expressao: Box::new(e) });
        }
        self.parse_fator_palavra()
    }

    fn parse_fator_palavra(&mut self) -> (r: Result<Expressao, ErroSintaxe>)
        requires
            old(self).bem_formado(),
        ensures
            final(self).bem_formado(),
            final(self).texto() == old(self).texto(),
            old(self).cursor() <= final(self).cursor(),
            r is Ok ==> old(self).cursor() < final(self).cursor(),
            r matches Ok(e) ==> expr_valida(e),
            r is Ok <==> fator_palavra(old(self).texto(), old(self).cursor()) is Some,
            r matches Ok(e) ==> fator_palavra(old(self).texto(), old(self).cursor()) == Some((expr_v(e), final(self).cursor())),
        decreases old(self).restante(), 1int,
    {
        if self.aceitar_palavra("não") {
            let e = self.parse_fator()?;
            return Ok(Expressao::Negacao { expressao: Box::new(e) });
        }
        if self.aceitar_palavra("verdadeiro") {
            return Ok(Expressao::LogicoLiteral(true));
        }
        if self.aceitar_palavra("falso") {
            return Ok(Expressao::LogicoLiteral(false));
        }
        if self.aceitar_palavra("nada") {
            return Ok(Expressao::Nada);
        }
        let nome = self.parse_identificador(false)?;
        if self.adiante(0) == Some('(') {
            return self.parse_chamada(nome);
        }
        if self.adiante(0) == Some('.') {
            return self.parse_acesso_membro(nome);
        }
        Ok(Expressao::Identificador(nome))
    }

    /// Multiplicação, divisão e resto, associativos à esquerda.
    fn parse_termo(&mut self) -> (r: Result<Expressao, ErroSintaxe>)
        requires
            old(self).bem_formado(),
        ensures
            final(self).bem_formado(),
            final(self).texto() == old(self).texto(),
            old(self).cursor() <= final(self).cursor(),
            r is Ok ==> old(self).cursor() < final(self).cursor(),
            r matches Ok(e) ==> expr_valida(e),
            r is Ok <==> termo_em(old(self).texto(), old(self).cursor()) is Some,
            r matches Ok(e) ==> termo_em(old(self).texto(), old(self).cursor()) == Some((expr_v(e), final(self).cursor())),
        decreases old(self).restante(), 3int,
    {
        let mut expr = self.parse_fator()?;
        loop
            invariant
                self.bem_formado(),
                self.texto() == old(self).texto(),
                old(self).cursor() < self.cursor(),
                termo_laco(old(self).texto(), self.cursor(), expr_v(expr)) == termo_em(old(self).texto(), old(self).cursor()),
                expr_valida(expr),
            decreases self.restante(),
        {
            let op = if self.aceitar('*') {
                Operador::Multiplicacao
            } else if self.aceitar('/') {
                Operador::Divisao
            } else if self.aceitar('%') || self.aceitar_palavra("resto") {
                Operador::Resto
            } else {
                return Ok(expr);
            };
            let direita = self.parse_fator()?;
            expr = Expressao::Operacao { operador: op, esquerda: Box::new(expr), direita: Box::new(direita) };
        }
    }

    /// Soma e subtração, associativas à esquerda.
    fn parse_soma(&mut self) -> (r: Result<Expressao, ErroSintaxe>)
        requires
            old(self).bem_formado(),
        ensures
            final(self).bem_formado(),
            final(self).texto() == old(self).texto(),
            old(self).cursor() <= final(self).cursor(),
            r is Ok ==> old(self).cursor() < final(self).cursor(),
            r matches Ok(e) ==> expr_valida(e),
            r is Ok <==> soma_em(old(self).texto(), old(self).cursor()) is Some,
            r matches Ok(e) ==> soma_em(old(self).texto(), old(self).cursor()) == Some((expr_v(e), final(self).cursor())),
        decreases old(self).restante(), 4int,
    {
        let mut expr = self.parse_termo()?;
        loop
            invariant
                self.bem_formado(),
                self.texto() == old(self).texto(),
                old(self).cursor() < self.cursor(),
                soma_laco(old(self).texto(), self.cursor(), expr_v(expr)) == soma_em(old(self).texto(), old(self).cursor()),
                expr_valida(expr),
            decreases self.restante(),
        {
            let op = if self.aceitar('+') {
                Operador::Soma
            } else if self.aceitar('-') {
                Operador::Subtracao
            } else {
                return Ok(expr);
            };
            let direita = self.parse_termo()?;
            expr = Expressao::Operacao { operador: op, esquerda: Box::new(expr), direita: Box::new(direita) };
        }
    }

    /// Um operador de comparação, se vier um.
    fn operador_comparacao(&mut self) -> (r: Option<Operador>)
        requires
            old(self).bem_formado(),
        ensures
            final(self).bem_formado(),
            final(self).texto() == old(self).texto(),
            old(self).cursor() <= final(self).cursor(),
            (r, final(self).cursor()) == op_comparacao(old(self).texto(), old(self).cursor()),
    {
        if self.aceitar2('>', '=') {
            return Some(Operador::MaiorIgual);
        }
        if self.aceitar2('<', '=') {
            return Some(Operador::MenorIgual);
        }
        if self.aceitar2('=', '=') {
            return Some(Operador::Igual);
        }
        if self.aceitar2('!', '=') {
            return Some(Operador::Diferente);
        }
        if self.aceitar('>') {
            return Some(Operador::Maior);
        }
        if self.aceitar('<') {
            return Some(Operador::Menor);
        }
        if self.aceitar_palavra("em") {
            return Some(Operador::Contem);
        }
        self.pular();
        let salvo = self.pos;
        if self.aceitar_palavra("é") && self.aceitar_palavra("igual") && self.aceitar_palavra("a") {
            return Some(Operador::Igual);
        }
        self.pos = salvo;
        None
    }

    /// Comparações, associativas à esquerda.
    #[verifier::spinoff_prover]
    #[verifier::rlimit(100)]
    fn parse_comparacao(&mut self) -> (r: Result<Expressao, ErroSintaxe>)
        requires
            old(self).bem_formado(),
        ensures
            final(self).bem_formado(),
            final(self).texto() == old(self).texto(),
            old(self).cursor() <= final(self).cursor(),
            r is Ok ==> old(self).cursor() < final(self).cursor(),
            r matches Ok(e) ==> expr_valida(e),
            r is Ok <==> comparacao_em(old(self).texto(), old(self).cursor()) is Some,
            r matches Ok(e) ==> comparacao_em(old(self).texto(), old(self).cursor()) == Some((expr_v(e), final(self).cursor())),
        decreases old(self).restante(), 5int,
    {
        let mut expr = self.parse_soma()?;
        loop
            invariant
                self.bem_formado(),
                self.texto() == old(self).texto(),
                old(self).cursor() < self.cursor(),
                comparacao_laco(old(self).texto(), self.cursor(), expr_v(expr)) == comparacao_em(old(self).texto(), old(self).cursor()),
                expr_valida(expr),
            decreases self.restante(),
        {
            let op = match self.operador_comparacao() {
                Some(op) => op,
                None => return Ok(expr),
            };
            let direita = self.parse_soma()?;
            expr = Expressao::Operacao { operador: op, esquerda: Box::new(expr), direita: Box::new(direita) };
        }
    }

    /// Conjunção lógica (`e`), associativa à esquerda.
    #[verifier::spinoff_prover]
    #[verifier::rlimit(100)]
    fn parse_and_expr(&mut self) -> (r: Result<Expressao, ErroSintaxe>)
        requires
            old(self).bem_formado(),
        ensures
            final(self).bem_formado(),
            final(self).texto() == old(self).texto(),
            old(self).cursor() <= final(self).cursor(),
            r is Ok ==> old(self).cursor() < final(self).cursor(),
            r matches Ok(e) ==> expr_valida(e),
            r is Ok <==> e_em(old(self).texto(), old(self).cursor()) is Some,
            r matches Ok(e) ==> e_em(old(self).texto(), old(self).cursor()) == Some((expr_v(e), final(self).cursor())),
        decreases old(self).restante(), 6int,
    {
        let mut expr = self.parse_comparacao()?;
        loop
            invariant
                self.bem_formado(),
                self.texto() == old(self).texto(),
                old(self).cursor() < self.cursor(),
                e_laco(old(self).texto(), self.cursor(), expr_v(expr)) == e_em(old(self).texto(), old(self).cursor()),
                expr_valida(expr),
            decreases self.restante(),
        {
            if !self.aceitar_palavra("e") {
                return Ok(expr);
            }
            let direita = self.parse_comparacao()?;
            expr = Expressao::Operacao { operador: Operador::E, esquerda: Box::new(expr), direita: Box::new(direita) };
        }
    }

    /// Disjunção lógica (`ou`), associativa à esquerda.
    #[verifier::spinoff_prover]
    #[verifier::rlimit(100)]
    fn parse_or_expr(&mut self) -> (r: Result<Expressao, ErroSintaxe>)
        requires
            old(self).bem_formado(),
        ensures
            final(self).bem_formado(),
            final(self).texto() == old(self).texto(),
            old(self).cursor() <= final(self).cursor(),
            r is Ok ==> old(self).cursor() < final(self).cursor(),
            r matches Ok(e) ==> expr_valida(e),
            r is Ok <==> ou_em(old(self).texto(), old(self).cursor()) is Some,
            r matches Ok(e) ==> ou_em(old(self).texto(), old(self).cursor()) == Some((expr_v(e), final(self).cursor())),
        decreases old(self).restante(), 7int,
    {
        let mut expr = self.parse_and_expr()?;
        loop
            invariant
                self.bem_formado(),
                self.texto() == old(self).texto(),
                old(self).cursor() < self.cursor(),
                ou_laco(old(self).texto(), self.cursor(), expr_v(expr)) == ou_em(old(self).texto(), old(self).cursor()),
                expr_valida(expr),
            decreases self.restante(),
        {
            if !self.aceitar_palavra("ou") {
                return Ok(expr);
            }
            let direita = self.parse_and_expr()?;
            expr = Expressao::Operacao { operador: Operador::Ou, esquerda: Box::new(expr), direita: Box::new(direita) };
        }
    }

    /// Atribuição: só quando o lado esquerdo é um identificador.
    #[verifier::spinoff_prover]
    #[verifier::rlimit(100)]
    fn parse_atribuicao(&mut self) -> (r: Result<Expressao, ErroSintaxe>)
        requires
            old(self).bem_formado(),
        ensures
            final(self).bem_formado(),
            final(self).texto() == old(self).texto(),
            old(self).cursor() <= final(self).cursor(),
            r is Ok ==> old(self).cursor() < final(self).cursor(),
            r matches Ok(e) ==> expr_valida(e),
            r is Ok <==> atribuicao_em(old(self).texto(), old(self).cursor()) is Some,
            r matches Ok(e) ==> atribuicao_em(old(self).texto(), old(self).cursor()) == Some((expr_v(e), final(self).cursor())),
        decreases old(self).restante(), 8int,
    {
        let esquerda = self.parse_or_expr()?;
        if self.olhar() == Some('=') && self.adiante(1) != Some('=') {
            self.pos += 1;
            let valor = self.parse_expressao()?;
            match esquerda {
                Expressao::Identificador(nome) => Ok(Expressao::Atribuicao { nome, valor: Box::new(valor) }),
                _ => Err(self.erro("identificador no lado esquerdo da atribuição")),
            }
        } else {
            Ok(esquerda)
        }
    }

    fn parse_expressao(&mut self) -> (r: Result<Expressao, ErroSintaxe>)
        requires
            old(self).bem_formado(),
        ensures
            final(self).bem_formado(),
            final(self).texto() == old(self).texto(),
            old(self).cursor() <= final(self).cursor(),
            r is Ok ==> old(self).cursor() < final(self).cursor(),
            r matches Ok(e) ==> expr_valida(e),
            r is Ok <==> expressao_em(old(self).texto(), old(self).cursor()) is Some,
            r matches Ok(e) ==> expressao_em(old(self).texto(), old(self).cursor()) == Some((expr_v(e), final(self).cursor())),
        decreases old(self).restante(), 9int,
    {
        self.parse_atribuicao()
    }
}

} // verus!

verus! {

impl PBRParser {
    /// As declarações de um bloco entre chaves, em ordem.
    fn parse_declaracoes_bloco(&mut self) -> (r: Result<Vec<Declaracao>, ErroSintaxe>)
        requires
            old(self).bem_formado(),
        ensures
            final(self).bem_formado(),
            final(self).texto() == old(self).texto(),
            old(self).cursor() <= final(self).cursor(),
            r is Ok ==> old(self).cursor() < final(self).cursor(),
            r matches Ok(v) ==> forall|k: int| 0 <= k < v.len() ==> decl_valida(#[trigger] v@[k]),
            r is Ok <==> declaracoes_bloco_em(old(self).texto(), old(self).cursor()) is Some,
            r matches Ok(v) ==> declaracoes_bloco_em(old(self).texto(), old(self).cursor()) == Some((decls_v(v@), final(self).cursor())),
        decreases old(self).restante(), 18int,
    {
        self.esperar('{', "'{'")?;
        let mut declaracoes: Vec<Declaracao> = Vec::new();
        loop
            invariant
                self.bem_formado(),
                self.texto() == old(self).texto(),
                old(self).cursor() < self.cursor(),
                bloco_laco(old(self).texto(), self.cursor(), decls_v(declaracoes@)) == declaracoes_bloco_em(old(self).texto(), old(self).cursor()),
                forall|k: int| 0 <= k < declaracoes.len() ==> decl_valida(#[trigger] declaracoes@[k]),
            decreases self.restante(),
        {
            if self.aceitar('}') {
                return Ok(declaracoes);
            }
            if self.olhar().is_none() {
                return Err(self.erro("'}'"));
            }
            let d = self.parse_declaracao()?;
            let ghost antes = declaracoes@;
            declaracoes.push(d);
            proof {
                assert(declaracoes@.drop_last() =~= antes);
            }
            self.aceitar(';');
        }
    }

    fn parse_bloco(&mut self) -> (r: Result<Declaracao, ErroSintaxe>)
        requires
            old(self).bem_formado(),
        ensures
            final(self).bem_formado(),
            final(self).texto() == old(self).texto(),
            old(self).cursor() <= final(self).cursor(),
            r matches Ok(d) ==> d is Bloco,
            r matches Ok(d) ==> bloco_valido(d),
            r is Ok <==> bloco_em(old(self).texto(), old(self).cursor()) is Some,
            r matches Ok(d) ==> bloco_em(old(self).texto(), old(self).cursor()) == Some((decl_v(d), final(self).cursor())),
        decreases old(self).restante(), 19int,
    {
        let declaracoes = self.parse_declaracoes_bloco()?;
        Ok(Declaracao::Bloco(declaracoes))
    }

    #[verifier::spinoff_prover]
    #[verifier::rlimit(100)]
    fn parse_declaracao_variavel(&mut self, publico: bool) -> (r: Result<Declaracao, ErroSintaxe>)
        requires
            old(self).bem_formado(),
        ensures
            final(self).bem_formado(),
            final(self).texto() == old(self).texto(),
            old(self).cursor() <= final(self).cursor(),
            r is Ok ==> old(self).cursor() < final(self).cursor(),
            r matches Ok(d) ==> d matches Declaracao::Variavel { publico: p, .. } && p == publico,
            r matches Ok(d) ==> decl_valida(d),
            r is Ok <==> variavel_em(old(self).texto(), old(self).cursor(), publico) is Some,
            r matches Ok(d) ==> variavel_em(old(self).texto(), old(self).cursor(), publico) == Some((decl_v(d), final(self).cursor())),
        decreases old(self).restante(), 20int,
    {
        self.esperar_palavra("pense", "'pense'")?;
        let nome = self.parse_identificador(true)?;
        let mut tipo = None;
        if self.aceitar(':') {
            tipo = Some(self.parse_tipo()?);
        }
        let mut valor = None;
        if self.olhar() == Some('=') && self.adiante(1) != Some('=') {
            self.pos += 1;
            valor = Some(self.parse_expressao()?);
        }
        Ok(Declaracao::Variavel { nome, tipo, valor, publico })
    }

    #[verifier::spinoff_prover]
    fn parse_parametros(&mut self) -> (r: Result<Vec<(String, Tipo)>, ErroSintaxe>)
        requires
            old(self).bem_formado(),
        ensures
            final(self).bem_formado(),
            final(self).texto() == old(self).texto(),
            old(self).cursor() <= final(self).cursor(),
            r matches Ok(v) ==> forall|k: int| 0 <= k < v.len() ==> nome_valido(#[trigger] v@[k].0@) && tipo_valido(v@[k].1),
            r is Ok <==> parametros_em(old(self).texto(), old(self).cursor()) is Some,
            r matches Ok(v) ==> parametros_em(old(self).texto(), old(self).cursor()) == Some((parametros_v(v@), final(self).cursor())),
    {
        self.esperar('(', "'('")?;
        let mut parametros: Vec<(String, Tipo)> = Vec::new();
        proof {
            assert(parametros_v(parametros@) =~= Seq::empty());
        }
        if self.aceitar(')') {
            return Ok(parametros);
        }
        loop
            invariant
                self.bem_formado(),
                self.texto() == old(self).texto(),
                old(self).cursor() < self.cursor(),
                parametros_laco(old(self).texto(), self.cursor(), parametros_v(parametros@)) == parametros_em(old(self).texto(), old(self).cursor()),
                forall|k: int| 0 <= k < parametros.len() ==> nome_valido(#[trigger] parametros@[k].0@) && tipo_valido(parametros@[k].1),
            decreases self.restante(),
        {
            let nome = self.parse_identificador(true)?;
            self.esperar(':', "':'")?;
            let tipo = self.parse_tipo()?;
            let ghost antes = parametros@;
            parametros.push((nome, tipo));
            proof {
                assert(parametros_v(parametros@) =~= parametros_v(antes).push((parametros@.last().0@, tipo_v(parametros@.last().1))));
                assert forall|k: int| 0 <= k < parametros.len() implies nome_valido(
                    #[trigger] parametros@[k].0@,
                ) && tipo_valido(parametros@[k].1) by {
                    if k < antes.len() {
                        assert(parametros@[k] == antes[k]);
                    }
                }
            }
            if !self.aceitar(',') {
                self.esperar(')', "')'")?;
                return Ok(parametros);
            }
        }
    }

    #[verifier::spinoff_prover]
    #[verifier::rlimit(100)]
    fn parse_declaracao_funcao(&mut self, publico: bool) -> (r: Result<Declaracao, ErroSintaxe>)
        requires
            old(self).bem_formado(),
        ensures
            final(self).bem_formado(),
            final(self).texto() == old(self).texto(),
            old(self).cursor() <= final(self).cursor(),
            r is Ok ==> old(self).cursor() < final(self).cursor(),
            r matches Ok(d) ==> d matches Declaracao::Funcao { publico: p, corpo, .. } && p
                == publico && *corpo is Bloco,
            r matches Ok(d) ==> decl_valida(d),
            r is Ok <==> funcao_em(old(self).texto(), old(self).cursor(), publico) is Some,
            r matches Ok(d) ==> funcao_em(old(self).texto(), old(self).cursor(), publico) == Some((decl_v(d), final(self).cursor())),
        decreases old(self).restante(), 20int,
    {
        self.esperar_palavra("faça", "'faça'")?;
        let nome = self.parse_identificador(true)?;
        let parametros = self.parse_parametros()?;
        let mut tipo_retorno = None;
        if self.aceitar(':') || self.aceitar2('-', '>') {
            tipo_retorno = Some(self.parse_tipo()?);
        }
        let corpo = self.parse_bloco()?;
        Ok(Declaracao::Funcao { nome, parametros, tipo_retorno, corpo: Box::new(corpo), publico })
    }

    fn parse_declaracao_retorno(&mut self) -> (r: Result<Declaracao, ErroSintaxe>)
        requires
            old(self).bem_formado(),
        ensures
            final(self).bem_formado(),
            final(self).texto() == old(self).texto(),
            old(self).cursor() <= final(self).cursor(),
            r is Ok ==> old(self).cursor() < final(self).cursor(),
            r matches Ok(d) ==> decl_valida(d),
            r is Ok <==> retorno_em(old(self).texto(), old(self).cursor()) is Some,
            r matches Ok(d) ==> retorno_em(old(self).texto(), old(self).cursor()) == Some((decl_v(d), final(self).cursor())),
        decreases old(self).restante(), 20int,
    {
        self.esperar_palavra("volte", "'volte'")?;
        let c = self.olhar();
        if c.is_none() || c == Some(';') || c == Some('}') {
            return Ok(Declaracao::Retorno(None));
        }
        let e = self.parse_expressao()?;
        Ok(Declaracao::Retorno(Some(e)))
    }

    #[verifier::spinoff_prover]
    #[verifier::rlimit(100)]
    fn parse_declaracao_condicional(&mut self) -> (r: Result<Declaracao, ErroSintaxe>)
        requires
            old(self).bem_formado(),
        ensures
            final(self).bem_formado(),
            final(self).texto() == old(self).texto(),
            old(self).cursor() <= final(self).cursor(),
            r is Ok ==> old(self).cursor() < final(self).cursor(),
            r matches Ok(d) ==> d matches Declaracao::Se { bloco_se, bloco_senao, .. } && *bloco_se is Bloco
                && (bloco_senao matches Some(b) ==> *b is Bloco),
            r matches Ok(d) ==> decl_valida(d),
            r is Ok <==> condicional_em(old(self).texto(), old(self).cursor()) is Some,
            r matches Ok(d) ==> condicional_em(old(self).texto(), old(self).cursor()) == Some((decl_v(d), final(self).cursor())),
        decreases old(self).restante(), 20int,
    {
        self.esperar_palavra("se", "'se'")?;
        let condicao = self.parse_expressao()?;
        let bloco_se = self.parse_bloco()?;
        let mut bloco_senao = None;
        if self.aceitar_palavra("senão") || self.aceitar_palavra("senao") {
            bloco_senao = Some(Box::new(self.parse_bloco()?));
        }
        Ok(Declaracao::Se { condicao, bloco_se: Box::new(bloco_se), bloco_senao })
    }

    #[verifier::spinoff_prover]
    #[verifier::rlimit(100)]
    fn parse_declaracao_para_cada(&mut self) -> (r: Result<Declaracao, ErroSintaxe>)
        requires
            old(self).bem_formado(),
        ensures
            final(self).bem_formado(),
            final(self).texto() == old(self).texto(),
            old(self).cursor() <= final(self).cursor(),
            r is Ok ==> old(self).cursor() < final(self).cursor(),
            r matches Ok(d) ==> d matches Declaracao::ParaCada { corpo, .. } && *corpo is Bloco,
            r matches Ok(d) ==> decl_valida(d),
            r is Ok <==> para_cada_em(old(self).texto(), old(self).cursor()) is Some,
            r matches Ok(d) ==> para_cada_em(old(self).texto(), old(self).cursor()) == Some((decl_v(d), final(self).cursor())),
        decreases old(self).restante(), 20int,
    {
        self.esperar_palavra("para", "'para'")?;
        self.esperar_palavra("cada", "'cada'")?;
        let variavel = self.parse_identificador(true)?;
        self.esperar_palavra("de", "'de'")?;
        let inicio = self.parse_expressao()?;
        if !self.aceitar_palavra("até") {
            self.esperar_palavra("ate", "'até'")?;
        }
        let fim = self.parse_expressao()?;
        let corpo = self.parse_bloco()?;
        Ok(Declaracao::ParaCada { variavel, inicio, fim, corpo: Box::new(corpo) })
    }

    fn parse_declaracao_enquanto(&mut self) -> (r: Result<Declaracao, ErroSintaxe>)
        requires
            old(self).bem_formado(),
        ensures
            final(self).bem_formado(),
            final(self).texto() == old(self).texto(),
            old(self).cursor() <= final(self).cursor(),
            r is Ok ==> old(self).cursor() < final(self).cursor(),
            r matches Ok(d) ==> d matches Declaracao::Enquanto { corpo, .. } && *corpo is Bloco,
            r matches Ok(d) ==> decl_valida(d),
            r is Ok <==> enquanto_em(old(self).texto(), old(self).cursor()) is Some,
            r matches Ok(d) ==> enquanto_em(old(self).texto(), old(self).cursor()) == Some((decl_v(d), final(self).cursor())),
        decreases old(self).restante(), 20int,
    {
        self.esperar_palavra("enquanto", "'enquanto'")?;
        let condicao = self.parse_expressao()?;
        let corpo = self.parse_bloco()?;
        Ok(Declaracao::Enquanto { condicao, corpo: Box::new(corpo) })
    }

    fn parse_declaracao_repita(&mut self) -> (r: Result<Declaracao, ErroSintaxe>)
        requires
            old(self).bem_formado(),
        ensures
            final(self).bem_formado(),
            final(self).texto() == old(self).texto(),
            old(self).cursor() <= final(self).cursor(),
            r is Ok ==> old(self).cursor() < final(self).cursor(),
            r matches Ok(d) ==> d matches Declaracao::Repita { corpo, .. } && *corpo is Bloco,
            r matches Ok(d) ==> decl_valida(d),
            r is Ok <==> repita_em(old(self).texto(), old(self).cursor()) is Some,
            r matches Ok(d) ==> repita_em(old(self).texto(), old(self).cursor()) == Some((decl_v(d), final(self).cursor())),
        decreases old(self).restante(), 20int,
    {
        self.esperar_palavra("repita", "'repita'")?;
        let corpo = self.parse_bloco()?;
        if !self.aceitar_palavra("até") {
            self.esperar_palavra("ate", "'até'")?;
        }
        let condicao = self.parse_expressao()?;
        Ok(Declaracao::Repita { corpo: Box::new(corpo), condicao })
    }

    #[verifier::spinoff_prover]
    #[verifier::rlimit(100)]
    fn parse_declaracao_quando_der_erro(&mut self) -> (r: Result<Declaracao, ErroSintaxe>)
        requires
            old(self).bem_formado(),
        ensures
            final(self).bem_formado(),
            final(self).texto() == old(self).texto(),
            old(self).cursor() <= final(self).cursor(),
            r is Ok ==> old(self).cursor() < final(self).cursor(),
            r matches Ok(d) ==> d matches Declaracao::QuandoDerErro { bloco_try, bloco_catch, .. }
                && *bloco_try is Bloco && *bloco_catch is Bloco,
            r matches Ok(d) ==> decl_valida(d),
            r is Ok <==> quando_em(old(self).texto(), old(self).cursor()) is Some,
            r matches Ok(d) ==> quando_em(old(self).texto(), old(self).cursor()) == Some((decl_v(d), final(self).cursor())),
        decreases old(self).restante(), 20int,
    {
        self.esperar_palavra("tente", "'tente'")?;
        let bloco_try = self.parse_bloco()?;
        self.esperar_palavra("quando", "'quando der erro'")?;
        self.esperar_palavra("der", "'quando der erro'")?;
        self.esperar_palavra("erro", "'quando der erro'")?;
        let parenteses = self.aceitar('(');
        let variavel_erro = self.parse_identificador(true)?;
        if parenteses {
            self.esperar(')', "')'")?;
        }
        let bloco_catch = self.parse_bloco()?;
        Ok(Declaracao::QuandoDerErro {
            bloco_try: Box::new(bloco_try),
            variavel_erro,
            bloco_catch: Box::new(bloco_catch),
        })
    }

    #[verifier::spinoff_prover]
    #[verifier::rlimit(100)]
    fn parse_declaracao_modelo(&mut self, publico: bool) -> (r: Result<Declaracao, ErroSintaxe>)
        requires
            old(self).bem_formado(),
        ensures
            final(self).bem_formado(),
            final(self).texto() == old(self).texto(),
            old(self).cursor() <= final(self).cursor(),
            r is Ok ==> old(self).cursor() < final(self).cursor(),
            r matches Ok(d) ==> d matches Declaracao::Modelo { publico: p, .. } && p == publico,
            r matches Ok(d) ==> decl_valida(d),
            r is Ok <==> modelo_em(old(self).texto(), old(self).cursor(), publico) is Some,
            r matches Ok(d) ==> modelo_em(old(self).texto(), old(self).cursor(), publico) == Some((decl_v(d), final(self).cursor())),
    {
        self.esperar_palavra("modelo", "'modelo'")?;
        let nome = self.parse_identificador(true)?;
        self.esperar('{', "'{'")?;
        let mut campos: Vec<(String, Tipo, bool)> = Vec::new();
        proof {
            assert(campos_v(campos@) =~= Seq::empty());
        }
        loop
            invariant
                self.bem_formado(),
                self.texto() == old(self).texto(),
                old(self).cursor() < self.cursor(),
                modelo_em(old(self).texto(), old(self).cursor(), publico) == match campos_laco(old(self).texto(), self.cursor(), campos_v(campos@)) { Some((cs, k)) => Some((crate::gramatica::DeclV::Modelo(nome@, cs, publico), k)), None => None },
                nome_valido(nome@),
                forall|k: int| 0 <= k < campos.len() ==> nome_valido(#[trigger] campos@[k].0@) && tipo_valido(campos@[k].1),
            decreases self.restante(),
        {
            if self.aceitar('}') {
                return Ok(Declaracao::Modelo { nome, campos, publico });
            }
            let campo_publico = self.aceitar_palavra("público") || self.aceitar_palavra("publico");
            let nome_campo = self.parse_identificador(true)?;
            self.esperar(':', "':'")?;
            let tipo_campo = self.parse_tipo()?;
            let ghost antes = campos@;
            campos.push((nome_campo, tipo_campo, campo_publico));
            proof {
                assert(campos_v(campos@) =~= campos_v(antes).push((campos@.last().0@, tipo_v(campos@.last().1), campos@.last().2)));
            }
            if !self.aceitar(',') {
                self.aceitar(';');
            }
        }
    }

    fn parse_declaracao_modulo(&mut self) -> (r: Result<Declaracao, ErroSintaxe>)
        requires
            old(self).bem_formado(),
        ensures
            final(self).bem_formado(),
            final(self).texto() == old(self).texto(),
            old(self).cursor() <= final(self).cursor(),
            r is Ok ==> old(self).cursor() < final(self).cursor(),
            r matches Ok(d) ==> decl_valida(d),
            r is Ok <==> modulo_em(old(self).texto(), old(self).cursor()) is Some,
            r matches Ok(d) ==> modulo_em(old(self).texto(), old(self).cursor()) == Some((decl_v(d), final(self).cursor())),
        decreases old(self).restante(), 20int,
    {
        if !self.aceitar_palavra("módulo") {
            self.esperar_palavra("modulo", "'módulo'")?;
        }
        let nome = self.parse_identificador(true)?;
        let declaracoes = self.parse_declaracoes_bloco()?;
        Ok(Declaracao::Modulo { nome, declaracoes })
    }

    /// Um caminho de importação: segmentos separados por `.`, `/` ou `::`.
    fn parse_declaracao_importar(&mut self) -> (r: Result<Declaracao, ErroSintaxe>)
        requires
            old(self).bem_formado(),
        ensures
            final(self).bem_formado(),
            final(self).texto() == old(self).texto(),
            old(self).cursor() <= final(self).cursor(),
            r is Ok ==> old(self).cursor() < final(self).cursor(),
            r matches Ok(d) ==> d matches Declaracao::Importar { caminho } && caminho.len() > 0,
            r matches Ok(d) ==> decl_valida(d),
            r is Ok <==> importar_em(old(self).texto(), old(self).cursor()) is Some,
            r matches Ok(d) ==> importar_em(old(self).texto(), old(self).cursor()) == Some((decl_v(d), final(self).cursor())),
    {
        self.esperar_palavra("importar", "'importar'")?;
        let mut caminho: Vec<String> = Vec::new();
        let primeiro = self.parse_identificador(true)?;
        caminho.push(primeiro);
        proof {
            assert(nomes_v(caminho@) =~= seq![caminho@[0]@]);
        }
        loop
            invariant
                self.bem_formado(),
                self.texto() == old(self).texto(),
                old(self).cursor() < self.cursor(),
                caminho.len() > 0,
                importar_em(old(self).texto(), old(self).cursor()) == match caminho_laco(old(self).texto(), self.cursor(), nomes_v(caminho@)) { Some((c, k)) => Some((crate::gramatica::DeclV::Importar(c), k)), None => None },
                forall|k: int| 0 <= k < caminho.len() ==> nome_valido(#[trigger] caminho@[k]@),
            decreases self.restante(),
        {
            if !(self.aceitar('.') || self.aceitar('/') || self.aceitar2(':', ':')) {
                return Ok(Declaracao::Importar { caminho });
            }
            let parte = self.parse_identificador(true)?;
            let ghost antes = caminho@;
            caminho.push(parte);
            proof {
                assert(nomes_v(caminho@) =~= nomes_v(antes).push(caminho@.last()@));
            }
        }
    }

    fn parse_declaracao_mostrar(&mut self) -> (r: Result<Declaracao, ErroSintaxe>)
        requires
            old(self).bem_formado(),
        ensures
            final(self).bem_formado(),
            final(self).texto() == old(self).texto(),
            old(self).cursor() <= final(self).cursor(),
            r is Ok ==> old(self).cursor() < final(self).cursor(),
            r matches Ok(d) ==> decl_valida(d),
            r is Ok <==> mostrar_em(old(self).texto(), old(self).cursor()) is Some,
            r matches Ok(d) ==> mostrar_em(old(self).texto(), old(self).cursor()) == Some((decl_v(d), final(self).cursor())),
        decreases old(self).restante(), 20int,
    {
        self.esperar_palavra("mostre", "'mostre'")?;
        let e = self.parse_expressao()?;
        Ok(Declaracao::Mostrar(e))
    }

    /// Uma declaração, escolhida pela palavra com que começa; qualquer outra
    /// coisa é uma expressão usada como declaração.
    #[verifier::spinoff_prover]
    #[verifier::rlimit(100)]
    fn parse_declaracao(&mut self) -> (r: Result<Declaracao, ErroSintaxe>)
        requires
            old(self).bem_formado(),
        ensures
            final(self).bem_formado(),
            final(self).texto() == old(self).texto(),
            old(self).cursor() <= final(self).cursor(),
            r is Ok ==> old(self).cursor() < final(self).cursor(),
            r matches Ok(d) ==> decl_valida(d),
            r is Ok <==> declaracao_em(old(self).texto(), old(self).cursor()) is Some,
            r matches Ok(d) ==> declaracao_em(old(self).texto(), old(self).cursor()) == Some((decl_v(d), final(self).cursor())),
        decreases old(self).restante(), 21int,
    {
        self.pular();
        let w = self.palavra_no_cursor();
        proof {
            reveal_strlit("pare");
            reveal_strlit("continue");
        }
        if iguais(&w, &caracteres("público")) || iguais(&w, &caracteres("publico")) {
            self.pos += w.len();
            self.pular();
            let w2 = self.palavra_no_cursor();
            if iguais(&w2, &caracteres("pense")) {
                return self.parse_declaracao_variavel(true);
            } else if iguais(&w2, &caracteres("faça")) {
                return self.parse_declaracao_funcao(true);
            } else if iguais(&w2, &caracteres("modelo")) {
                return self.parse_declaracao_modelo(true);
            }
            return Err(self.erro("'pense', 'faça' ou 'modelo' depois de 'público'"));
        }
        if iguais(&w, &caracteres("pense")) {
            self.parse_declaracao_variavel(false)
        } else if iguais(&w, &caracteres("faça")) {
            self.parse_declaracao_funcao(false)
        } else if iguais(&w, &caracteres("modelo")) {
            self.parse_declaracao_modelo(false)
        } else if iguais(&w, &caracteres("volte")) {
            self.parse_declaracao_retorno()
        } else if iguais(&w, &caracteres("se")) {
            self.parse_declaracao_condicional()
        } else if iguais(&w, &caracteres("para")) {
            self.parse_declaracao_para_cada()
        } else if iguais(&w, &caracteres("enquanto")) {
            self.parse_declaracao_enquanto()
        } else if iguais(&w, &caracteres("repita")) {
            self.parse_declaracao_repita()
        } else if iguais(&w, &caracteres("pare")) {
            self.pos += w.len();
            Ok(Declaracao::Pare)
        } else if iguais(&w, &caracteres("continue")) {
            self.pos += w.len();
            Ok(Declaracao::Continue)
        } else if iguais(&w, &caracteres("tente")) {
            self.parse_declaracao_quando_der_erro()
        } else if iguais(&w, &caracteres("módulo")) || iguais(&w, &caracteres("modulo")) {
            self.parse_declaracao_modulo()
        } else if iguais(&w, &caracteres("importar")) {
            self.parse_declaracao_importar()
        } else if iguais(&w, &caracteres("mostre")) {
            self.parse_declaracao_mostrar()
        } else {
            let e = self.parse_expressao()?;
            Ok(Declaracao::Expressao(e))
        }
    }

    /// O programa inteiro: declarações até o fim da entrada, cada uma com um
    /// `;` opcional depois.
    #[verifier::spinoff_prover]
    #[verifier::rlimit(100)]
    pub fn parse_programa(&mut self) -> (r: Result<Programa, ErroSintaxe>)
        requires
            old(self).bem_formado(),
        ensures
            final(self).bem_formado(),
            final(self).texto() == old(self).texto(),
            r matches Err(e) ==> e.posicao <= old(self).texto().len(),
            r is Ok ==> final(self).cursor() == final(self).texto().len(),
            r matches Ok(p) ==> programa_valido(p),
            r is Ok <==> programa_laco(old(self).texto(), old(self).cursor(), Seq::empty()) is Some,
            r matches Ok(p) ==> programa_laco(old(self).texto(), old(self).cursor(), Seq::empty()) == Some(programa_v(p)),
    {
        let mut programa = Programa::new();
        loop
            invariant
                self.bem_formado(),
                self.texto() == old(self).texto(),
                programa_valido(programa),
                programa_laco(old(self).texto(), self.cursor(), programa_v(programa)) == programa_laco(old(self).texto(), old(self).cursor(), Seq::empty()),
                old(self).cursor() <= self.cursor(),
            decreases self.restante(),
        {
            if self.olhar().is_none() {
                return Ok(programa);
            }
            let d = match self.parse_declaracao() {
                Ok(d) => d,
                Err(e) => {
                    if e.posicao <= self.entrada.len() {
                        return Err(e);
                    }
                    return Err(self.erro("declaração"));
                },
            };
            let ghost antes = programa.declaracoes@;
            programa.adicionar_declaracao(d);
            proof {
                assert(programa.declaracoes@.drop_last() =~= antes);
            }
            self.aceitar(';');
        }
    }
}

/// Analisa o código-fonte e constrói o programa, ou para no primeiro erro de sintaxe.
pub fn analisar_codigo(codigo: &str) -> (r: Result<Programa, ErroSintaxe>)
    ensures
        r matches Err(e) ==> e.posicao <= codigo@.len(),
        r matches Ok(p) ==> programa_valido(p),
        r is Ok <==> programa_de(codigo@) is Some,
        r matches Ok(p) ==> programa_de(codigo@) == Some(programa_v(p)),
{
    let mut parser = PBRParser::new(codigo);
    parser.parse_programa()
}

} // verus!
