//! Text primitives on character sequences: replacing every occurrence of a
//! pattern, searching for one, and moving between `String` and `Vec<char>`.

use vstd::prelude::*;

verus! {

/// The text `s` with every occurrence of `p` replaced by `r`, scanning from the
/// left and never looking back into a replacement.
pub open spec fn replaced(s: Seq<char>, p: Seq<char>, r: Seq<char>) -> Seq<char>
    decreases s.len(),
{
    if p.len() == 0 || s.len() < p.len() {
        s
    } else if s.subrange(0, p.len() as int) == p {
        r + replaced(s.subrange(p.len() as int, s.len() as int), p, r)
    } else {
        seq![s[0]] + replaced(s.subrange(1, s.len() as int), p, r)
    }
}

/// `p` stands in `s` starting at position `i`.
pub open spec fn occurs_at(s: Seq<char>, p: Seq<char>, i: int) -> bool {
    0 <= i && i + p.len() <= s.len() && s.subrange(i, i + p.len()) == p
}

/// `p` stands somewhere in `s`.
pub open spec fn occurs_in(s: Seq<char>, p: Seq<char>) -> bool {
    exists|i: int| occurs_at(s, p, i)
}

/// The characters of `s`, in order.
pub(crate) fn chars_of(s: &str) -> (r: Vec<char>)
    ensures
        r@ == s@,
{
    broadcast use vstd::string::axiom_spec_iter;

    let mut v: Vec<char> = Vec::new();
    for c in it: s.chars()
        invariant
            it.seq() == s@,
            v@ == it.seq().subrange(0, it.index() as int),
    {
        v.push(c);
        assert(v@ =~= it.seq().subrange(0, it.index() + 1));
    }
    assert(v@ =~= s@);
    v
}

/// Relies on `String`'s `FromIterator<&char>`: the same characters in order.
#[verifier::external_body]
pub(crate) fn string_of(v: &Vec<char>) -> (r: String)
    ensures
        r@ == v@,
{
    v.iter().collect()
}

pub(crate) fn matches_at(s: &Vec<char>, p: &Vec<char>, i: usize) -> (r: bool)
    requires
        i <= s@.len(),
    ensures
        r == occurs_at(s@, p@, i as int),
{
    if p.len() > s.len() - i {
        return false;
    }
    let n = s.len();
    let mut k: usize = 0;
    while k < p.len()
        invariant
            n == s@.len(),
            i + p@.len() <= n,
            k <= p@.len(),
            forall|j: int| 0 <= j < k ==> s@[i + j] == p@[j],
        decreases p@.len() - k,
    {
        if s[i + k] != p[k] {
            assert(s@.subrange(i as int, i + p@.len())[k as int] != p@[k as int]);
            return false;
        }
        k = k + 1;
    }
    assert(s@.subrange(i as int, i + p@.len()) =~= p@);
    true
}

proof fn lemma_replaced_step(s: Seq<char>, p: Seq<char>, r: Seq<char>, i: int)
    requires
        p.len() > 0,
        0 <= i <= s.len(),
    ensures
        i + p.len() <= s.len() && occurs_at(s, p, i) ==> replaced(s.subrange(i, s.len() as int), p, r)
            == r + replaced(s.subrange(i + p.len(), s.len() as int), p, r),
        i + p.len() <= s.len() && !occurs_at(s, p, i) ==> replaced(s.subrange(i, s.len() as int), p, r)
            == seq![s[i]] + replaced(s.subrange(i + 1, s.len() as int), p, r),
        i + p.len() > s.len() ==> replaced(s.subrange(i, s.len() as int), p, r) == s.subrange(i, s.len() as int),
{
    let t = s.subrange(i, s.len() as int);
    if i + p.len() <= s.len() {
        assert(t.subrange(0, p.len() as int) =~= s.subrange(i, i + p.len()));
        assert(t.subrange(p.len() as int, t.len() as int) =~= s.subrange(i + p.len(), s.len() as int));
        assert(t.subrange(1, t.len() as int) =~= s.subrange(i + 1, s.len() as int));
    }
}

/// Every occurrence of `pat` in `s` replaced by `rep`, left to right.
pub fn replace_all(s: &str, pat: &str, rep: &str) -> (r: String)
    requires
        pat@.len() > 0,
    ensures
        r@ == replaced(s@, pat@, rep@),
{
    let sv = chars_of(s);
    let pv = chars_of(pat);
    let rv = chars_of(rep);
    let n = sv.len();
    let mut out: Vec<char> = Vec::new();
    let mut i: usize = 0;
    assert(sv@.subrange(0, n as int) =~= sv@);
    while i < n
        invariant
            sv@ == s@,
            pv@ == pat@,
            rv@ == rep@,
            n == sv@.len(),
            pv@.len() > 0,
            i <= n,
            out@ + replaced(sv@.subrange(i as int, n as int), pv@, rv@) == replaced(sv@, pv@, rv@),
        decreases n - i,
    {
        proof {
            lemma_replaced_step(sv@, pv@, rv@, i as int);
        }
        if matches_at(&sv, &pv, i) {
            let ghost before = out@;
            let mut k: usize = 0;
            while k < rv.len()
                invariant
                    out@ == before + rv@.subrange(0, k as int),
                    k <= rv@.len(),
                decreases rv@.len() - k,
            {
                out.push(rv[k]);
                k = k + 1;
                assert(out@ =~= before + rv@.subrange(0, k as int));
            }
            assert(rv@.subrange(0, k as int) =~= rv@);
            assert(before + (rv@ + replaced(sv@.subrange(i + pv@.len(), n as int), pv@, rv@))
                =~= out@ + replaced(sv@.subrange(i + pv@.len(), n as int), pv@, rv@));
            i = i + pv.len();
        } else if pv.len() <= n - i {
            let ghost before = out@;
            out.push(sv[i]);
            assert(before + (seq![sv@[i as int]] + replaced(sv@.subrange(i + 1, n as int), pv@, rv@))
                =~= out@ + replaced(sv@.subrange(i + 1, n as int), pv@, rv@));
            i = i + 1;
        } else {
            let ghost before = out@;
            let ghost j0 = i;
            while i < n
                invariant
                    j0 <= i <= n,
                    n == sv@.len(),
                    out@ == before + sv@.subrange(j0 as int, i as int),
                decreases n - i,
            {
                out.push(sv[i]);
                i = i + 1;
                assert(out@ =~= before + sv@.subrange(j0 as int, i as int));
            }
            assert(sv@.subrange(n as int, n as int) =~= Seq::<char>::empty());
            assert(replaced(Seq::<char>::empty(), pv@, rv@) =~= Seq::<char>::empty());
            assert(out@ + replaced(sv@.subrange(n as int, n as int), pv@, rv@) =~= out@);
        }
    }
    assert(sv@.subrange(n as int, n as int) =~= Seq::<char>::empty());
    assert(out@ + replaced(sv@.subrange(n as int, n as int), pv@, rv@) =~= out@);
    string_of(&out)
}

/// Whether two texts are the same characters.
pub fn same(a: &str, b: &str) -> (r: bool)
    ensures
        r == (a@ == b@),
{
    String::from_str(a) == String::from_str(b)
}

/// `a` followed by `b`.
pub fn join2(a: &str, b: &str) -> (r: String)
    ensures
        r@ == a@ + b@,
{
    String::from_str(a).concat(b)
}

/// The characters of `s` from position `from` up to, not including, `to`.
pub fn slice(s: &str, from: usize, to: usize) -> (r: String)
    requires
        from <= to <= s@.len(),
    ensures
        r@ == s@.subrange(from as int, to as int),
{
    String::from_str(s.substring_char(from, to))
}

/// Whether `pat` occurs anywhere in `s`.
pub fn contains(s: &str, pat: &str) -> (r: bool)
    ensures
        r == occurs_in(s@, pat@),
{
    let sv = chars_of(s);
    let pv = chars_of(pat);
    if pv.len() == 0 {
        assert(occurs_at(s@, pat@, 0)) by {
            assert(s@.subrange(0, 0) =~= pat@);
        }
        return true;
    }
    let mut i: usize = 0;
    while i < sv.len()
        invariant
            sv@ == s@,
            pv@ == pat@,
            pv@.len() > 0,
            i <= sv@.len(),
            forall|j: int| 0 <= j < i ==> !occurs_at(s@, pat@, j),
        decreases sv@.len() - i,
    {
        if matches_at(&sv, &pv, i) {
            return true;
        }
        i = i + 1;
    }
    assert forall|j: int| !occurs_at(s@, pat@, j) by {
        if 0 <= j < i {
        }
    }
    false
}

} // verus!
