use vstd::prelude::*;
use crate::caixotes::{aparado, aparar, dividido, dividir, sem_aspas, tirar_aspas};
use crate::texto::{caracteres, de_caracteres, empurrar};

verus! {

/// `l` começa com `p`.
pub open spec fn comeca_com(l: Seq<char>, p: Seq<char>) -> bool {
    p.len() <= l.len() && l.subrange(0, p.len() as int) == p
}

/// O valor da primeira linha, a partir de `i`, que começa com `prefixo` e tem
/// um `=`: o trecho entre o primeiro `=` e o seguinte, aparado e sem aspas.
pub open spec fn valor_desde(ls: Seq<Seq<char>>, prefixo: Seq<char>, i: int) -> Option<Seq<char>>
    decreases ls.len() - i,
{
    if i < 0 || i >= ls.len() {
        None
    } else if comeca_com(ls[i], prefixo) && dividido(ls[i], '=').len() > 1 {
        Some(sem_aspas(aparado(dividido(ls[i], '=')[1])))
    } else {
        valor_desde(ls, prefixo, i + 1)
    }
}

/// O valor de uma chave num arquivo de configuração de projeto, procurado pela
/// primeira linha que começa com `prefixo` (por exemplo `nome =`).
pub open spec fn valor_configuracao_spec(conteudo: Seq<char>, prefixo: Seq<char>) -> Option<
    Seq<char>,
> {
    valor_desde(dividido(conteudo, '\n'), prefixo, 0)
}

fn comeca_com_exec(l: &Vec<char>, p: &Vec<char>) -> (r: bool)
    ensures
        r == comeca_com(l@, p@),
{
    if p.len() > l.len() {
        return false;
    }
    let mut i: usize = 0;
    while i < p.len()
        invariant
            p.len() <= l.len(),
            i <= p.len(),
            forall|k: int| 0 <= k < i ==> l@[k] == p@[k],
        decreases p.len() - i,
    {
        if l[i] != p[i] {
            proof {
                assert(l@.subrange(0, p.len() as int)[i as int] != p@[i as int]);
            }
            return false;
        }
        i += 1;
    }
    proof {
        assert(l@.subrange(0, p.len() as int) =~= p@);
    }
    true
}

/// O valor de uma chave num arquivo de configuração: o texto depois do `=` da
/// primeira linha que começa com `prefixo`, aparado e sem aspas.
pub fn valor_configuracao(conteudo: &str, prefixo: &str) -> (r: Option<String>)
    ensures
        match valor_configuracao_spec(conteudo@, prefixo@) {
            Some(v) => r matches Some(s) && s@ == v,
            None => r is None,
        },
{
    let v = caracteres(conteudo);
    let p = caracteres(prefixo);
    let linhas = dividir(&v, '\n');
    let ghost lv = linhas@.map_values(|l: Vec<char>| l@);
    let mut i: usize = 0;
    while i < linhas.len()
        invariant
            i <= linhas.len(),
            lv == linhas@.map_values(|l: Vec<char>| l@),
            lv == dividido(conteudo@, '\n'),
            p@ == prefixo@,
            valor_desde(lv, prefixo@, i as int) == valor_configuracao_spec(conteudo@, prefixo@),
        decreases linhas.len() - i,
    {
        proof {
            assert(lv[i as int] == linhas@[i as int]@);
        }
        if comeca_com_exec(&linhas[i], &p) {
            let partes = dividir(&linhas[i], '=');
            proof {
                assert(partes@.map_values(|l: Vec<char>| l@).len() == partes.len());
            }
            if partes.len() > 1 {
                proof {
                    assert(partes@.map_values(|l: Vec<char>| l@)[1] == partes@[1]@);
                }
                return Some(de_caracteres(&tirar_aspas(&aparar(&partes[1]))));
            }
        }
        i += 1;
    }
    None
}

/// O nome do pacote de um projeto: `nome_versao`, com os pontos da versão
/// trocados por `_`.
pub open spec fn nome_pacote_spec(nome: Seq<char>, versao: Seq<char>) -> Seq<char> {
    nome + seq!['_'] + versao.map_values(|c: char| if c == '.' { '_' } else { c })
}

pub fn nome_pacote(nome: &str, versao: &str) -> (r: String)
    ensures
        r@ == nome_pacote_spec(nome@, versao@),
{
    let mut r = String::from_str(nome);
    empurrar(&mut r, '_');
    let v = caracteres(versao);
    let ghost ini = r@;
    let mut i: usize = 0;
    while i < v.len()
        invariant
            i <= v.len(),
            v@ == versao@,
            ini == nome@ + seq!['_'],
            r@ == ini + v@.take(i as int).map_values(|c: char| if c == '.' { '_' } else { c }),
        decreases v.len() - i,
    {
        let c = v[i];
        if c == '.' {
            empurrar(&mut r, '_');
        } else {
            empurrar(&mut r, c);
        }
        proof {
            assert(v@.take(i + 1).map_values(|c: char| if c == '.' { '_' } else { c }) =~= v@.take(
                i as int,
            ).map_values(|c: char| if c == '.' { '_' } else { c }).push(if c == '.' { '_' } else { c }));
        }
        i += 1;
    }
    proof {
        assert(v@.take(v.len() as int) =~= v@);
    }
    r
}

} // verus!
