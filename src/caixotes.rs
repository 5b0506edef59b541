use vstd::prelude::*;
use crate::texto::{caracteres, de_caracteres, empurrar};
use crate::transpiler::separador;
use crate::lexer::{e_espaco, espaco, iguais};

verus! {

/// Manifesto de um pacote (`caixote.pbr`). As dependências guardam a ordem em
/// que foram lidas, com nomes sem repetição.
#[derive(Debug)]
pub struct Manifesto {
    pub nome: String,
    pub versao: String,
    pub autores: Vec<String>,
    pub descricao: String,
    pub principal: String,
    pub dependencias: Vec<(String, String)>,
    pub palavras_chave: Vec<String>,
    pub licenca: String,
    pub repositorio: String,
}

/// O conteúdo de um manifesto como valores matemáticos.
pub struct ModeloManifesto {
    pub nome: Seq<char>,
    pub versao: Seq<char>,
    pub autores: Seq<Seq<char>>,
    pub descricao: Seq<char>,
    pub principal: Seq<char>,
    pub dependencias: Seq<(Seq<char>, Seq<char>)>,
    pub palavras_chave: Seq<Seq<char>>,
    pub licenca: Seq<char>,
    pub repositorio: Seq<char>,
}

pub open spec fn textos(v: Seq<String>) -> Seq<Seq<char>> {
    v.map_values(|s: String| s@)
}

pub open spec fn pares_de_textos(v: Seq<(String, String)>) -> Seq<(Seq<char>, Seq<char>)> {
    v.map_values(|p: (String, String)| (p.0@, p.1@))
}

impl View for Manifesto {
    type V = ModeloManifesto;

    open spec fn view(&self) -> ModeloManifesto {
        ModeloManifesto {
            nome: self.nome@,
            versao: self.versao@,
            autores: textos(self.autores@),
            descricao: self.descricao@,
            principal: self.principal@,
            dependencias: pares_de_textos(self.dependencias@),
            palavras_chave: textos(self.palavras_chave@),
            licenca: self.licenca@,
            repositorio: self.repositorio@,
        }
    }
}

/// Nenhum nome de dependência aparece duas vezes.
pub open spec fn chaves_unicas(d: Seq<(Seq<char>, Seq<char>)>) -> bool {
    forall|i: int, j: int| 0 <= i < j < d.len() ==> d[i].0 != d[j].0
}

/// Um texto entre aspas.
pub open spec fn citado(s: Seq<char>) -> Seq<char> {
    "\""@ + s + "\""@
}

/// Textos entre aspas, separados por vírgulas.
pub open spec fn lista_citada(s: Seq<Seq<char>>) -> Seq<char>
    decreases s.len(),
{
    if s.len() == 0 {
        Seq::empty()
    } else {
        lista_citada(s.drop_last()) + separador(s.len() as int) + citado(s.last())
    }
}

/// As linhas da seção de dependências, cada uma precedida de uma quebra de linha.
pub open spec fn linhas_dependencias(d: Seq<(Seq<char>, Seq<char>)>) -> Seq<char>
    decreases d.len(),
{
    if d.len() == 0 {
        Seq::empty()
    } else {
        linhas_dependencias(d.drop_last()) + "\n    "@ + citado(d.last().0) + " = "@ + citado(
            d.last().1,
        )
    }
}

/// Uma linha `chave = "valor"` precedida de quebra de linha, se o valor não é vazio.
pub open spec fn linha_opcional(chave: Seq<char>, valor: Seq<char>) -> Seq<char> {
    if valor.len() > 0 {
        "\n"@ + chave + " = "@ + citado(valor)
    } else {
        Seq::empty()
    }
}

/// Uma linha `chave = [...]` precedida de quebra de linha, se a lista não é vazia.
pub open spec fn linha_lista(chave: Seq<char>, valores: Seq<Seq<char>>) -> Seq<char> {
    if valores.len() > 0 {
        "\n"@ + chave + " = ["@ + lista_citada(valores) + "]"@
    } else {
        Seq::empty()
    }
}

/// O texto de um manifesto: uma linha por campo, na ordem fixa, omitindo os
/// campos opcionais vazios.
pub open spec fn texto_manifesto(m: ModeloManifesto) -> Seq<char> {
    "nome = "@ + citado(m.nome) + "\nversao = "@ + citado(m.versao) + linha_lista(
        "autores"@,
        m.autores,
    ) + linha_opcional("descricao"@, m.descricao) + "\nprincipal = "@ + citado(m.principal) + (
    if m.dependencias.len() > 0 {
        "\ndependencias = {"@ + linhas_dependencias(m.dependencias) + "\n}"@
    } else {
        Seq::empty()
    }) + linha_lista("palavras_chave"@, m.palavras_chave) + linha_opcional(
        "licenca"@,
        m.licenca,
    ) + linha_opcional("repositorio"@, m.repositorio)
}

/// Erro ao ler ou escrever um manifesto.
#[derive(Debug)]
pub struct ErroManifesto {
    pub mensagem: String,
}

pub fn default_arquivo_principal() -> (r: String)
    ensures
        r@ == "src/principal.pbr"@,
{
    String::from_str("src/principal.pbr")
}

fn anexar_citado(saida: &mut String, s: &String)
    ensures
        final(saida)@ == old(saida)@ + citado(s@),
{
    let ghost ini = saida@;
    saida.append("\"");
    saida.append(s.as_str());
    saida.append("\"");
    proof {
        assert(saida@ =~= ini + citado(s@));
    }
}

fn anexar_lista(saida: &mut String, chave: &str, v: &Vec<String>)
    ensures
        final(saida)@ == old(saida)@ + linha_lista(chave@, textos(v@)),
{
    let ghost ini = saida@;
    if v.len() == 0 {
        proof {
            assert(saida@ =~= ini + linha_lista(chave@, textos(v@)));
        }
        return;
    }
    saida.append("\n");
    saida.append(chave);
    saida.append(" = [");
    let ghost meio = saida@;
    let mut i: usize = 0;
    while i < v.len()
        invariant
            i <= v.len(),
            saida@ == meio + lista_citada(textos(v@).take(i as int)),
        decreases v.len() - i,
    {
        proof {
            assert(textos(v@).take(i + 1).drop_last() =~= textos(v@).take(i as int));
        }
        if i > 0 {
            saida.append(", ");
        }
        anexar_citado(saida, &v[i]);
        proof {
            assert(saida@ =~= meio + lista_citada(textos(v@).take(i + 1)));
        }
        i += 1;
    }
    saida.append("]");
    proof {
        assert(textos(v@).take(v.len() as int) =~= textos(v@));
        assert(saida@ =~= ini + linha_lista(chave@, textos(v@)));
    }
}

fn anexar_opcional(saida: &mut String, chave: &str, valor: &String)
    ensures
        final(saida)@ == old(saida)@ + linha_opcional(chave@, valor@),
{
    let ghost ini = saida@;
    if caracteres(valor.as_str()).len() > 0 {
        saida.append("\n");
        saida.append(chave);
        saida.append(" = ");
        anexar_citado(saida, valor);
    }
    proof {
        assert(saida@ =~= ini + linha_opcional(chave@, valor@));
    }
}

fn anexar_dependencias(saida: &mut String, d: &Vec<(String, String)>)
    ensures
        final(saida)@ == old(saida)@ + linhas_dependencias(pares_de_textos(d@)),
{
    let ghost ini = saida@;
    let mut i: usize = 0;
    while i < d.len()
        invariant
            i <= d.len(),
            saida@ == ini + linhas_dependencias(pares_de_textos(d@).take(i as int)),
        decreases d.len() - i,
    {
        proof {
            assert(pares_de_textos(d@).take(i + 1).drop_last() =~= pares_de_textos(d@).take(
                i as int,
            ));
        }
        saida.append("\n    ");
        anexar_citado(saida, &d[i].0);
        saida.append(" = ");
        anexar_citado(saida, &d[i].1);
        proof {
            assert(saida@ =~= ini + linhas_dependencias(pares_de_textos(d@).take(i + 1)));
        }
        i += 1;
    }
    proof {
        assert(pares_de_textos(d@).take(d.len() as int) =~= pares_de_textos(d@));
    }
}

impl Manifesto {
    /// O manifesto que `novo` constrói.
    pub open spec fn novo_spec(nome: Seq<char>, versao: Seq<char>) -> ModeloManifesto {
        ModeloManifesto {
            nome,
            versao,
            autores: Seq::empty(),
            descricao: Seq::empty(),
            principal: "src/principal.pbr"@,
            dependencias: Seq::empty(),
            palavras_chave: Seq::empty(),
            licenca: "MIT"@,
            repositorio: Seq::empty(),
        }
    }

    /// Um manifesto novo: sem autores, descrição nem dependências, com o
    /// arquivo principal padrão e a licença MIT.
    pub fn novo(nome: &str, versao: &str) -> (r: Manifesto)
        ensures
            r@ == Manifesto::novo_spec(nome@, versao@),
            r@.nome == nome@,
            r@.versao == versao@,
            r@.autores.len() == 0,
            r@.descricao.len() == 0,
            r@.principal == "src/principal.pbr"@,
            r@.dependencias.len() == 0,
            r@.palavras_chave.len() == 0,
            r@.licenca == "MIT"@,
            r@.repositorio.len() == 0,
    {
        let r = Manifesto {
            nome: String::from_str(nome),
            versao: String::from_str(versao),
            autores: Vec::new(),
            descricao: String::new(),
            principal: default_arquivo_principal(),
            dependencias: Vec::new(),
            palavras_chave: Vec::new(),
            licenca: String::from_str("MIT"),
            repositorio: String::new(),
        };
        proof {
            assert(textos(r.autores@) =~= Seq::<Seq<char>>::empty());
            assert(textos(r.palavras_chave@) =~= Seq::<Seq<char>>::empty());
            assert(pares_de_textos(r.dependencias@) =~= Seq::<(Seq<char>, Seq<char>)>::empty());
        }
        r
    }

    /// O texto do manifesto, uma linha por campo.
    pub fn to_string(&self) -> (r: Result<String, ErroManifesto>)
        ensures
            r matches Ok(s) && s@ == texto_manifesto(self@),
    {
        let mut saida = String::from_str("nome = ");
        anexar_citado(&mut saida, &self.nome);
        saida.append("\nversao = ");
        anexar_citado(&mut saida, &self.versao);
        anexar_lista(&mut saida, "autores", &self.autores);
        anexar_opcional(&mut saida, "descricao", &self.descricao);
        saida.append("\nprincipal = ");
        anexar_citado(&mut saida, &self.principal);
        let ghost antes_dependencias = saida@;
        if self.dependencias.len() > 0 {
            saida.append("\ndependencias = {");
            anexar_dependencias(&mut saida, &self.dependencias);
            saida.append("\n}");
        }
        let ghost depois_dependencias = saida@;
        anexar_lista(&mut saida, "palavras_chave", &self.palavras_chave);
        anexar_opcional(&mut saida, "licenca", &self.licenca);
        anexar_opcional(&mut saida, "repositorio", &self.repositorio);
        proof {
            assert(saida@ =~= texto_manifesto(self@));
        }
        Ok(saida)
    }
}

} // verus!

verus! {

/// `s` sem os espaços em branco do início.
pub open spec fn sem_espacos_inicio(s: Seq<char>) -> Seq<char>
    decreases s.len(),
{
    if s.len() > 0 && espaco(s[0]) {
        sem_espacos_inicio(s.drop_first())
    } else {
        s
    }
}

/// `s` sem os espaços em branco do fim.
pub open spec fn sem_espacos_fim(s: Seq<char>) -> Seq<char>
    decreases s.len(),
{
    if s.len() > 0 && espaco(s.last()) {
        sem_espacos_fim(s.drop_last())
    } else {
        s
    }
}

/// `s` sem espaços em branco nas duas pontas.
pub open spec fn aparado(s: Seq<char>) -> Seq<char> {
    sem_espacos_fim(sem_espacos_inicio(s))
}

/// `s` sem as aspas do início.
pub open spec fn sem_aspas_inicio(s: Seq<char>) -> Seq<char>
    decreases s.len(),
{
    if s.len() > 0 && s[0] == '"' {
        sem_aspas_inicio(s.drop_first())
    } else {
        s
    }
}

/// `s` sem as aspas do fim.
pub open spec fn sem_aspas_fim(s: Seq<char>) -> Seq<char>
    decreases s.len(),
{
    if s.len() > 0 && s.last() == '"' {
        sem_aspas_fim(s.drop_last())
    } else {
        s
    }
}

/// `s` sem aspas nas duas pontas.
pub open spec fn sem_aspas(s: Seq<char>) -> Seq<char> {
    sem_aspas_fim(sem_aspas_inicio(s))
}

/// O primeiro índice a partir de `i` em que `s` tem `c`.
pub open spec fn primeiro_desde(s: Seq<char>, c: char, i: int) -> Option<int>
    decreases s.len() - i,
{
    if i < 0 || i >= s.len() {
        None
    } else if s[i] == c {
        Some(i)
    } else {
        primeiro_desde(s, c, i + 1)
    }
}

/// O primeiro índice em que `s` tem `c`.
pub open spec fn primeiro(s: Seq<char>, c: char) -> Option<int> {
    primeiro_desde(s, c, 0)
}

/// Os pedaços de `s` separados por `c`, a partir do pedaço que começa em
/// `ini`, olhando a partir de `i`.
pub open spec fn pedacos(s: Seq<char>, c: char, ini: int, i: int) -> Seq<Seq<char>>
    decreases s.len() - i,
{
    if i < 0 || i >= s.len() {
        seq![s.subrange(ini, s.len() as int)]
    } else if s[i] == c {
        seq![s.subrange(ini, i)] + pedacos(s, c, i + 1, i + 1)
    } else {
        pedacos(s, c, ini, i + 1)
    }
}

/// `s` dividido em todo `c` (um texto sem `c` dá um só pedaço).
pub open spec fn dividido(s: Seq<char>, c: char) -> Seq<Seq<char>> {
    pedacos(s, c, 0, 0)
}

/// Os itens de uma lista `[a, "b", ...]` já sem os colchetes.
pub open spec fn itens(s: Seq<char>) -> Seq<Seq<char>> {
    dividido(s, ',').map_values(|p: Seq<char>| sem_aspas(aparado(p)))
}

/// Um valor entre colchetes.
pub open spec fn e_lista(v: Seq<char>) -> bool {
    v.len() >= 2 && v[0] == '[' && v.last() == ']'
}

/// O efeito de uma linha `chave = valor` fora da seção de dependências.
pub open spec fn definir(m: ModeloManifesto, chave: Seq<char>, valor: Seq<char>) -> ModeloManifesto {
    if chave == "nome"@ {
        ModeloManifesto { nome: sem_aspas(valor), ..m }
    } else if chave == "versao"@ {
        ModeloManifesto { versao: sem_aspas(valor), ..m }
    } else if chave == "descricao"@ {
        ModeloManifesto { descricao: sem_aspas(valor), ..m }
    } else if chave == "principal"@ {
        ModeloManifesto { principal: sem_aspas(valor), ..m }
    } else if chave == "licenca"@ {
        ModeloManifesto { licenca: sem_aspas(valor), ..m }
    } else if chave == "repositorio"@ {
        ModeloManifesto { repositorio: sem_aspas(valor), ..m }
    } else if chave == "autores"@ && e_lista(valor) {
        ModeloManifesto { autores: itens(valor.subrange(1, valor.len() - 1)), ..m }
    } else if chave == "palavras_chave"@ && e_lista(valor) {
        ModeloManifesto { palavras_chave: itens(valor.subrange(1, valor.len() - 1)), ..m }
    } else {
        m
    }
}

/// O índice da dependência de nome `k`, a partir de `i`.
pub open spec fn indice_dependencia(d: Seq<(Seq<char>, Seq<char>)>, k: Seq<char>, i: int) -> Option<
    int,
>
    decreases d.len() - i,
{
    if i < 0 || i >= d.len() {
        None
    } else if d[i].0 == k {
        Some(i)
    } else {
        indice_dependencia(d, k, i + 1)
    }
}

/// Uma dependência lida: substitui a versão de uma já presente, ou entra no fim.
pub open spec fn inserir(m: ModeloManifesto, k: Seq<char>, v: Seq<char>) -> ModeloManifesto {
    match indice_dependencia(m.dependencias, k, 0) {
        Some(i) => ModeloManifesto { dependencias: m.dependencias.update(i, (k, v)), ..m },
        None => ModeloManifesto { dependencias: m.dependencias.push((k, v)), ..m },
    }
}

/// O efeito de uma linha; `em_dependencias` diz se a linha está dentro da
/// seção `chave = {` ... `}`.
pub open spec fn passo(m: ModeloManifesto, em_dependencias: bool, linha: Seq<char>) -> (
    ModeloManifesto,
    bool,
) {
    let t = aparado(linha);
    if t.len() == 0 || t[0] == '#' {
        (m, em_dependencias)
    } else if !em_dependencias {
        match primeiro(t, '=') {
            None => (m, false),
            Some(p) => {
                let chave = aparado(t.subrange(0, p));
                let valor = aparado(t.subrange(p + 1, t.len() as int));
                if valor == "{"@ {
                    (m, true)
                } else {
                    (definir(m, chave, valor), false)
                }
            },
        }
    } else if t == "}"@ {
        (m, false)
    } else {
        match primeiro(t, '=') {
            None => (m, true),
            Some(p) => (
                inserir(
                    m,
                    sem_aspas(aparado(t.subrange(0, p))),
                    sem_aspas(aparado(t.subrange(p + 1, t.len() as int))),
                ),
                true,
            ),
        }
    }
}

/// O manifesto depois de ler as linhas `ls`, em ordem.
pub open spec fn ler_linhas(m: ModeloManifesto, em_dependencias: bool, ls: Seq<Seq<char>>) -> ModeloManifesto
    decreases ls.len(),
{
    if ls.len() == 0 {
        m
    } else {
        let (m2, e2) = passo(m, em_dependencias, ls[0]);
        ler_linhas(m2, e2, ls.drop_first())
    }
}

} // verus!

verus! {

/// Os caracteres de `v` entre `a` e `b`.
pub(crate) fn fatia(v: &Vec<char>, a: usize, b: usize) -> (r: Vec<char>)
    requires
        a <= b <= v.len(),
    ensures
        r@ == v@.subrange(a as int, b as int),
{
    let mut r: Vec<char> = Vec::new();
    let mut i: usize = a;
    while i < b
        invariant
            a <= i <= b <= v.len(),
            r@ == v@.subrange(a as int, i as int),
        decreases b - i,
    {
        proof {
            assert(v@.subrange(a as int, i + 1) =~= r@.push(v@[i as int]));
        }
        r.push(v[i]);
        i += 1;
    }
    r
}

/// `v` sem espaços em branco nas pontas.
pub(crate) fn aparar(v: &Vec<char>) -> (r: Vec<char>)
    ensures
        r@ == aparado(v@),
{
    let n = v.len();
    proof {
        assert(v@.subrange(0, n as int) =~= v@);
    }
    let mut a: usize = 0;
    while a < n && e_espaco(v[a])
        invariant
            a <= n == v.len(),
            sem_espacos_inicio(v@.subrange(a as int, n as int)) == sem_espacos_inicio(v@),
        decreases n - a,
    {
        proof {
            assert(v@.subrange(a as int, n as int).drop_first() =~= v@.subrange(a + 1, n as int));
        }
        a += 1;
    }
    proof {
        assert(v@.subrange(0, n as int) =~= v@);
    }
    let mut b: usize = n;
    while b > a && e_espaco(v[b - 1])
        invariant
            a <= b <= n == v.len(),
            sem_espacos_fim(v@.subrange(a as int, b as int)) == sem_espacos_fim(
                v@.subrange(a as int, n as int),
            ),
        decreases b - a,
    {
        proof {
            assert(v@.subrange(a as int, b as int).drop_last() =~= v@.subrange(a as int, b - 1));
        }
        b -= 1;
    }
    fatia(v, a, b)
}

/// `v` sem aspas nas pontas.
pub(crate) fn tirar_aspas(v: &Vec<char>) -> (r: Vec<char>)
    ensures
        r@ == sem_aspas(v@),
{
    let n = v.len();
    proof {
        assert(v@.subrange(0, n as int) =~= v@);
    }
    let mut a: usize = 0;
    while a < n && v[a] == '"'
        invariant
            a <= n == v.len(),
            sem_aspas_inicio(v@.subrange(a as int, n as int)) == sem_aspas_inicio(v@),
        decreases n - a,
    {
        proof {
            assert(v@.subrange(a as int, n as int).drop_first() =~= v@.subrange(a + 1, n as int));
        }
        a += 1;
    }
    proof {
        assert(v@.subrange(0, n as int) =~= v@);
    }
    let mut b: usize = n;
    while b > a && v[b - 1] == '"'
        invariant
            a <= b <= n == v.len(),
            sem_aspas_fim(v@.subrange(a as int, b as int)) == sem_aspas_fim(
                v@.subrange(a as int, n as int),
            ),
        decreases b - a,
    {
        proof {
            assert(v@.subrange(a as int, b as int).drop_last() =~= v@.subrange(a as int, b - 1));
        }
        b -= 1;
    }
    fatia(v, a, b)
}

/// O primeiro índice em que `v` tem `c`.
fn primeiro_indice(v: &Vec<char>, c: char) -> (r: Option<usize>)
    ensures
        match primeiro(v@, c) {
            Some(i) => r == Some(i as usize) && 0 <= i < v.len(),
            None => r is None,
        },
{
    let mut i: usize = 0;
    while i < v.len()
        invariant
            i <= v.len(),
            primeiro_desde(v@, c, i as int) == primeiro(v@, c),
        decreases v.len() - i,
    {
        if v[i] == c {
            return Some(i);
        }
        i += 1;
    }
    None
}

/// `v` dividido em todo `c`.
pub(crate) fn dividir(v: &Vec<char>, c: char) -> (r: Vec<Vec<char>>)
    ensures
        r@.map_values(|p: Vec<char>| p@) == dividido(v@, c),
{
    let mut r: Vec<Vec<char>> = Vec::new();
    let mut ini: usize = 0;
    let mut i: usize = 0;
    while i < v.len()
        invariant
            ini <= i <= v.len(),
            r@.map_values(|p: Vec<char>| p@) + pedacos(v@, c, ini as int, i as int) == dividido(
                v@,
                c,
            ),
        decreases v.len() - i,
    {
        if v[i] == c {
            let p = fatia(v, ini, i);
            proof {
                assert(r@.push(p).map_values(|p: Vec<char>| p@) =~= r@.map_values(
                    |p: Vec<char>| p@,
                ).push(p@));
                assert(r@.push(p).map_values(|p: Vec<char>| p@) + pedacos(v@, c, i + 1, i + 1)
                    =~= r@.map_values(|p: Vec<char>| p@) + pedacos(v@, c, ini as int, i as int));
            }
            r.push(p);
            ini = i + 1;
        }
        i += 1;
    }
    let p = fatia(v, ini, v.len());
    proof {
        assert(r@.push(p).map_values(|p: Vec<char>| p@) =~= r@.map_values(|p: Vec<char>| p@)
            + pedacos(v@, c, ini as int, i as int));
    }
    r.push(p);
    r
}

/// Os itens de uma lista já sem os colchetes, cada um aparado e sem aspas.
fn ler_itens(v: &Vec<char>) -> (r: Vec<String>)
    ensures
        textos(r@) == itens(v@),
{
    let partes = dividir(v, ',');
    let ghost pv = partes@.map_values(|p: Vec<char>| p@);
    let mut r: Vec<String> = Vec::new();
    let mut i: usize = 0;
    while i < partes.len()
        invariant
            i <= partes.len(),
            pv == partes@.map_values(|p: Vec<char>| p@),
            pv == dividido(v@, ','),
            textos(r@) == pv.take(i as int).map_values(|p: Seq<char>| sem_aspas(aparado(p))),
        decreases partes.len() - i,
    {
        let limpo = tirar_aspas(&aparar(&partes[i]));
        let s = de_caracteres(&limpo);
        proof {
            assert(pv[i as int] == partes@[i as int]@);
            assert(textos(r@.push(s)) =~= textos(r@).push(s@));
            assert(pv.take(i + 1).map_values(|p: Seq<char>| sem_aspas(aparado(p))) =~= pv.take(
                i as int,
            ).map_values(|p: Seq<char>| sem_aspas(aparado(p))).push(sem_aspas(aparado(pv[i as int]))));
            assert(textos(r@.push(s)) =~= pv.take(i + 1).map_values(
                |p: Seq<char>| sem_aspas(aparado(p)),
            ));
        }
        r.push(s);
        i += 1;
    }
    proof {
        assert(pv.take(partes.len() as int) =~= pv);
    }
    r
}

} // verus!

verus! {

impl Manifesto {
    fn definir_valor(&mut self, chave: &Vec<char>, valor: &Vec<char>)
        ensures
            final(self)@ == definir(old(self)@, chave@, valor@),
    {
        let lista = valor.len() >= 2 && valor[0] == '[' && valor[valor.len() - 1] == ']';
        if iguais(chave, &caracteres("nome")) {
            self.nome = de_caracteres(&tirar_aspas(valor));
        } else if iguais(chave, &caracteres("versao")) {
            self.versao = de_caracteres(&tirar_aspas(valor));
        } else if iguais(chave, &caracteres("descricao")) {
            self.descricao = de_caracteres(&tirar_aspas(valor));
        } else if iguais(chave, &caracteres("principal")) {
            self.principal = de_caracteres(&tirar_aspas(valor));
        } else if iguais(chave, &caracteres("licenca")) {
            self.licenca = de_caracteres(&tirar_aspas(valor));
        } else if iguais(chave, &caracteres("repositorio")) {
            self.repositorio = de_caracteres(&tirar_aspas(valor));
        } else if iguais(chave, &caracteres("autores")) && lista {
            self.autores = ler_itens(&fatia(valor, 1, valor.len() - 1));
        } else if iguais(chave, &caracteres("palavras_chave")) && lista {
            self.palavras_chave = ler_itens(&fatia(valor, 1, valor.len() - 1));
        }
    }

    fn inserir_dependencia(&mut self, k: &Vec<char>, v: &Vec<char>)
        ensures
            final(self)@ == inserir(old(self)@, k@, v@),
    {
        let ghost d = old(self)@.dependencias;
        let mut i: usize = 0;
        while i < self.dependencias.len()
            invariant
                i <= self.dependencias.len(),
                *self == *old(self),
                d == old(self)@.dependencias,
                indice_dependencia(d, k@, i as int) == indice_dependencia(d, k@, 0),
            decreases self.dependencias.len() - i,
        {
            if iguais(&caracteres(self.dependencias[i].0.as_str()), k) {
                let par = (de_caracteres(k), de_caracteres(v));
                self.dependencias[i] = par;
                proof {
                    assert(pares_de_textos(self.dependencias@) =~= d.update(i as int, (k@, v@)));
                }
                return;
            }
            i += 1;
        }
        self.dependencias.push((de_caracteres(k), de_caracteres(v)));
        proof {
            assert(pares_de_textos(self.dependencias@) =~= d.push((k@, v@)));
        }
    }

    /// Lê um manifesto de texto: linhas `chave = valor`, linhas vazias e
    /// comentários `#` ignorados, e uma seção `chave = {` ... `}` com as
    /// dependências `"nome" = "versão"`. Começa do manifesto `novo("temp", "0.1.0")`.
    pub fn parse(conteudo: &str) -> (r: Result<Manifesto, ErroManifesto>)
        ensures
            r matches Ok(m) && m@ == ler_linhas(
                Manifesto::novo_spec("temp"@, "0.1.0"@),
                false,
                dividido(conteudo@, '\n'),
            ),
            r matches Ok(m) && chaves_unicas(m@.dependencias),
    {
        let mut manifesto = Manifesto::novo("temp", "0.1.0");
        let v = caracteres(conteudo);
        let linhas = dividir(&v, '\n');
        let ghost lv = linhas@.map_values(|p: Vec<char>| p@);
        let mut em_dependencias = false;
        let mut i: usize = 0;
        proof {
            assert(lv.subrange(0, lv.len() as int) =~= lv);
        }
        while i < linhas.len()
            invariant
                i <= linhas.len(),
                lv == linhas@.map_values(|p: Vec<char>| p@),
                lv == dividido(conteudo@, '\n'),
                ler_linhas(manifesto@, em_dependencias, lv.subrange(i as int, lv.len() as int))
                    == ler_linhas(Manifesto::novo_spec("temp"@, "0.1.0"@), false, lv),
            decreases linhas.len() - i,
        {
            proof {
                assert(lv.subrange(i as int, lv.len() as int).drop_first() =~= lv.subrange(
                    i + 1,
                    lv.len() as int,
                ));
                assert(lv.subrange(i as int, lv.len() as int)[0] == linhas@[i as int]@);
            }
            let ghost antes = manifesto@;
            let t = aparar(&linhas[i]);
            if t.len() == 0 || t[0] == '#' {
            } else if !em_dependencias {
                match primeiro_indice(&t, '=') {
                    None => {},
                    Some(p) => {
                        let chave = aparar(&fatia(&t, 0, p));
                        let valor = aparar(&fatia(&t, p + 1, t.len()));
                        if iguais(&valor, &caracteres("{")) {
                            em_dependencias = true;
                        } else {
                            manifesto.definir_valor(&chave, &valor);
                        }
                    },
                }
            } else if iguais(&t, &caracteres("}")) {
                em_dependencias = false;
            } else {
                match primeiro_indice(&t, '=') {
                    None => {},
                    Some(p) => {
                        let chave = tirar_aspas(&aparar(&fatia(&t, 0, p)));
                        let valor = tirar_aspas(&aparar(&fatia(&t, p + 1, t.len())));
                        manifesto.inserir_dependencia(&chave, &valor);
                    },
                }
            }
            i += 1;
        }
        proof {
            assert(lv.subrange(lv.len() as int, lv.len() as int).len() == 0);
            lei_dependencias_unicas(Manifesto::novo_spec("temp"@, "0.1.0"@), false, lv);
        }
        Ok(manifesto)
    }
}

} // verus!

verus! {

/// Gerenciador de pacotes: o diretório de cache e o endereço do repositório.
#[derive(Debug)]
pub struct GerenciadorPacotes {
    cache_dir: String,
    repositorio: String,
}

impl GerenciadorPacotes {
    /// Um gerenciador com o cache em `cache_dir` e o repositório padrão.
    pub fn novo(cache_dir: String) -> (r: GerenciadorPacotes)
        ensures
            r.cache_dir_spec() == cache_dir@,
            r.repositorio_spec() == "https://caixotes.pbrlang.org"@,
    {
        GerenciadorPacotes { cache_dir, repositorio: String::from_str("https://caixotes.pbrlang.org") }
    }

    pub closed spec fn cache_dir_spec(&self) -> Seq<char> {
        self.cache_dir@
    }

    pub closed spec fn repositorio_spec(&self) -> Seq<char> {
        self.repositorio@
    }

    pub fn cache_dir(&self) -> (r: &String)
        ensures
            r@ == self.cache_dir_spec(),
    {
        &self.cache_dir
    }

    pub fn repositorio(&self) -> (r: &String)
        ensures
            r@ == self.repositorio_spec(),
    {
        &self.repositorio
    }

    /// Define o endereço do repositório.
    pub fn definir_repositorio(&mut self, url: &str)
        ensures
            final(self).repositorio_spec() == url@,
            final(self).cache_dir_spec() == old(self).cache_dir_spec(),
    {
        self.repositorio = String::from_str(url);
    }

    /// A versão pedida de um pacote: a dada, ou `latest`.
    pub fn versao_pedida(versao: Option<&str>) -> (r: String)
        ensures
            r@ == match versao {
                Some(v) => v@,
                None => "latest"@,
            },
    {
        match versao {
            Some(v) => String::from_str(v),
            None => String::from_str("latest"),
        }
    }

    /// Os pacotes instalados.
    pub fn listar_pacotes(&self) -> (r: Result<Vec<String>, ErroManifesto>)
        ensures
            r matches Ok(v) && textos(v@) == seq!["exemplo"@, "teste"@],
    {
        let v = vec![String::from_str("exemplo"), String::from_str("teste")];
        proof {
            assert(textos(v@) =~= seq!["exemplo"@, "teste"@]);
        }
        Ok(v)
    }
}

} // verus!

verus! {

proof fn lema_indice_dependencia(d: Seq<(Seq<char>, Seq<char>)>, k: Seq<char>, i: int)
    requires
        0 <= i <= d.len(),
    ensures
        indice_dependencia(d, k, i) matches Some(j) ==> i <= j < d.len() && d[j].0 == k,
        indice_dependencia(d, k, i) is None ==> forall|j: int| i <= j < d.len() ==> d[j].0 != k,
    decreases d.len() - i,
{
    if i < d.len() && d[i].0 != k {
        lema_indice_dependencia(d, k, i + 1);
    }
}

proof fn lema_passo_unico(m: ModeloManifesto, e: bool, linha: Seq<char>)
    requires
        chaves_unicas(m.dependencias),
    ensures
        chaves_unicas(passo(m, e, linha).0.dependencias),
{
    let t = aparado(linha);
    if e && t.len() > 0 && t[0] != '#' && t != "}"@ {
        if let Some(p) = primeiro(t, '=') {
            let k = sem_aspas(aparado(t.subrange(0, p)));
            let d = m.dependencias;
            lema_indice_dependencia(d, k, 0);
            match indice_dependencia(d, k, 0) {
                Some(i) => {
                    let d2 = d.update(i, (k, sem_aspas(aparado(t.subrange(p + 1, t.len() as int)))));
                    assert forall|a: int, b: int| 0 <= a < b < d2.len() implies d2[a].0 != d2[b].0 by {
                        assert(d[a].0 != d[b].0);
                    }
                },
                None => {},
            }
        }
    }
}

/// Ler linhas nunca repete o nome de uma dependência: uma dependência já
/// presente tem a versão trocada no lugar.
pub proof fn lei_dependencias_unicas(m: ModeloManifesto, e: bool, ls: Seq<Seq<char>>)
    requires
        chaves_unicas(m.dependencias),
    ensures
        chaves_unicas(ler_linhas(m, e, ls).dependencias),
    decreases ls.len(),
{
    if ls.len() > 0 {
        lema_passo_unico(m, e, ls[0]);
        let (m2, e2) = passo(m, e, ls[0]);
        lei_dependencias_unicas(m2, e2, ls.drop_first());
    }
}

} // verus!
