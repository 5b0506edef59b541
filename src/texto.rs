use vstd::prelude::*;

verus! {

/// Usa `String::push`: acrescenta um caractere no fim.
#[verifier::external_body]
pub(crate) fn empurrar(s: &mut String, c: char)
    ensures
        final(s)@ == old(s)@.push(c),
{
    s.push(c)
}

/// Os caracteres de `s`, em ordem.
pub fn caracteres(s: &str) -> (r: Vec<char>)
    ensures
        r@ == s@,
{
    broadcast use vstd::string::axiom_spec_iter;
    let mut r: Vec<char> = Vec::new();
    for c in it: s.chars()
        invariant
            it.seq() == s@,
            r@ == it.seq().take(it.index() as int),
    {
        proof {
            assert(it.seq().take(it.index() + 1) =~= it.seq().take(it.index() as int).push(c));
        }
        r.push(c);
    }
    proof {
        assert(r@ =~= s@);
    }
    r
}

/// O texto formado pelos caracteres de `v`, em ordem.
pub fn de_caracteres(v: &Vec<char>) -> (r: String)
    ensures
        r@ == v@,
{
    let mut r = String::new();
    let mut i: usize = 0;
    while i < v.len()
        invariant
            i <= v.len(),
            r@ == v@.take(i as int),
        decreases v.len() - i,
    {
        proof {
            assert(v@.take(i + 1) =~= v@.take(i as int).push(v@[i as int]));
        }
        empurrar(&mut r, v[i]);
        i += 1;
    }
    proof {
        assert(r@ =~= v@);
    }
    r
}

} // verus!
