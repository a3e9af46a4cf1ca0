//! Looking vehicles up in the vehicle database: the spellings of an identifier
//! that are tried, in the order the database is searched with them.
use vstd::prelude::*;

use crate::text::{chars_of, lowercase, string_from_chars, to_lowercase};

verus! {

/// `a` comes strictly before `b` in the order of `str`'s `Ord`: character by
/// character, by code point, a proper prefix first.
pub open spec fn lex_lt(a: Seq<char>, b: Seq<char>) -> bool
    decreases a.len(),
{
    if a.len() == 0 {
        b.len() > 0
    } else if b.len() == 0 {
        false
    } else if a[0] != b[0] {
        a[0] < b[0]
    } else {
        lex_lt(a.drop_first(), b.drop_first())
    }
}

proof fn lemma_lex_irreflexive(a: Seq<char>)
    ensures
        !lex_lt(a, a),
    decreases a.len(),
{
    if a.len() > 0 {
        lemma_lex_irreflexive(a.drop_first());
    }
}

proof fn lemma_lex_transitive(a: Seq<char>, b: Seq<char>, c: Seq<char>)
    requires
        lex_lt(a, b),
        lex_lt(b, c),
    ensures
        lex_lt(a, c),
    decreases a.len(),
{
    if a.len() > 0 && b.len() > 0 && c.len() > 0 && a[0] == b[0] && b[0] == c[0] {
        lemma_lex_transitive(a.drop_first(), b.drop_first(), c.drop_first());
    }
}

proof fn lemma_lex_total(a: Seq<char>, b: Seq<char>)
    requires
        a != b,
    ensures
        lex_lt(a, b) || lex_lt(b, a),
    decreases a.len(),
{
    if a.len() > 0 && b.len() > 0 && a[0] == b[0] {
        if a.drop_first() == b.drop_first() {
            assert(a =~= seq![a[0]] + a.drop_first());
            assert(b =~= seq![b[0]] + b.drop_first());
            assert(a =~= b);
        }
        lemma_lex_total(a.drop_first(), b.drop_first());
    } else if a.len() == 0 && b.len() == 0 {
        assert(a =~= b);
    }
}

fn lex_less(a: &Vec<char>, b: &Vec<char>) -> (r: bool)
    ensures
        r == lex_lt(a@, b@),
{
    let mut i: usize = 0;
    assert(a@.subrange(0, a@.len() as int) =~= a@);
    assert(b@.subrange(0, b@.len() as int) =~= b@);
    while i < a.len() && i < b.len()
        invariant
            i <= a@.len(),
            i <= b@.len(),
            lex_lt(a@, b@) == lex_lt(a@.subrange(i as int, a@.len() as int), b@.subrange(i as int, b@.len() as int)),
        decreases a@.len() - i,
    {
        let ghost sa = a@.subrange(i as int, a@.len() as int);
        let ghost sb = b@.subrange(i as int, b@.len() as int);
        if a[i] != b[i] {
            assert(sa[0] == a@[i as int] && sb[0] == b@[i as int]);
            return a[i] < b[i];
        }
        assert(sa.drop_first() =~= a@.subrange(i + 1, a@.len() as int));
        assert(sb.drop_first() =~= b@.subrange(i + 1, b@.len() as int));
        i = i + 1;
    }
    i == a.len() && i < b.len()
}

/// The character sequences of a list of character vectors.
pub open spec fn seqs(v: Seq<Vec<char>>) -> Seq<Seq<char>> {
    v.map_values(|x: Vec<char>| x@)
}

proof fn lemma_take_to_set(s: Seq<Seq<char>>, k: int)
    requires
        0 <= k < s.len(),
    ensures
        s.take(k + 1).to_set() == s.take(k).to_set().insert(s[k]),
{
    let a = s.take(k + 1);
    let b = s.take(k);
    assert forall|y: Seq<char>| a.to_set().contains(y) <==> b.to_set().insert(s[k]).contains(y) by {
        if a.to_set().contains(y) {
            let j = choose|j: int| 0 <= j < a.len() && a[j] == y;
            if j < k {
                assert(b[j] == y);
            }
        }
        if b.to_set().contains(y) {
            let j = choose|j: int| 0 <= j < b.len() && b[j] == y;
            assert(a[j] == y);
        }
        if y == s[k] {
            assert(a[k] == y);
        }
    }
    assert(a.to_set() =~= b.to_set().insert(s[k]));
}

/// Strictly increasing in the `str` order: sorted and without repeats.
pub open spec fn strictly_sorted(s: Seq<Seq<char>>) -> bool {
    forall|i: int, j: int| 0 <= i < j < s.len() ==> lex_lt(#[trigger] s[i], #[trigger] s[j])
}

/// `s` with every `a` made `b`.
pub open spec fn replaced(s: Seq<char>, a: char, b: char) -> Seq<char> {
    s.map_values(|c: char| if c == a { b } else { c })
}

/// `s` without spaces, dashes and underscores.
pub open spec fn unseparated(s: Seq<char>) -> Seq<char> {
    s.filter(|c: char| c != ' ' && c != '-' && c != '_')
}

/// The spellings of an identifier that are tried: as given, in lower case, with
/// spaces, dashes or both made underscores, with underscores made dashes, and
/// without any separator.
pub open spec fn identifier_spellings(input: Seq<char>) -> Seq<Seq<char>> {
    let l = lowercase(input);
    seq![
        input,
        l,
        replaced(l, ' ', '_'),
        replaced(l, '-', '_'),
        replaced(replaced(l, ' ', '_'), '-', '_'),
        replaced(l, '_', '-'),
        unseparated(l),
    ]
}

pub(crate) fn replace_char(s: &Vec<char>, a: char, b: char) -> (r: Vec<char>)
    ensures
        r@ == replaced(s@, a, b),
{
    let mut r: Vec<char> = Vec::new();
    let n = s.len();
    for i in 0..n
        invariant
            n == s@.len(),
            r@ == replaced(s@.take(i as int), a, b),
    {
        let c = s[i];
        r.push(if c == a { b } else { c });
        assert(replaced(s@.take(i + 1), a, b) =~= replaced(s@.take(i as int), a, b).push(
            if c == a { b } else { c },
        ));
    }
    assert(s@.take(n as int) =~= s@);
    r
}

fn remove_separators(s: &Vec<char>) -> (r: Vec<char>)
    ensures
        r@ == unseparated(s@),
{
    let mut r: Vec<char> = Vec::new();
    let n = s.len();
    for i in 0..n
        invariant
            n == s@.len(),
            r@ == unseparated(s@.take(i as int)),
    {
        let c = s[i];
        proof {
            let t1 = s@.take(i + 1);
            assert(t1.drop_last() =~= s@.take(i as int));
            assert(t1.last() == c);
            reveal(Seq::filter);
        }
        if c != ' ' && c != '-' && c != '_' {
            r.push(c);
        }
    }
    assert(s@.take(n as int) =~= s@);
    r
}

/// Adds `x` to a strictly sorted list, where it is not yet.
fn insert_sorted(v: &mut Vec<Vec<char>>, x: Vec<char>)
    requires
        strictly_sorted(seqs(old(v)@)),
    ensures
        strictly_sorted(seqs(final(v)@)),
        seqs(final(v)@).to_set() == seqs(old(v)@).to_set().insert(x@),
{
    let ghost s0 = seqs(v@);
    let n = v.len();
    let mut p: usize = 0;
    while p < n && lex_less(&v[p], &x)
        invariant
            n == v@.len(),
            p <= n,
            seqs(v@) == s0,
            forall|k: int| 0 <= k < p ==> lex_lt(#[trigger] s0[k], x@),
        decreases n - p,
    {
        assert(s0[p as int] == v@[p as int]@);
        p = p + 1;
    }
    if p < n {
        assert(s0[p as int] == v@[p as int]@);
        if !lex_less(&x, &v[p]) {
            proof {
                if x@ != s0[p as int] {
                    lemma_lex_total(x@, s0[p as int]);
                }
                assert(s0.to_set().insert(x@) =~= s0.to_set()) by {
                    assert(s0.to_set().contains(x@)) by {
                        assert(s0[p as int] == x@);
                    }
                }
            }
            return;
        }
    }
    let ghost xv = x@;
    let ghost v0 = v@;
    v.insert(p, x);
    proof {
        let s1 = seqs(v@);
        assert(v@ == v0.insert(p as int, x));
        assert forall|k: int| 0 <= k < s1.len() implies #[trigger] s1[k] == (if k < p {
            s0[k]
        } else if k == p {
            xv
        } else {
            s0[k - 1]
        }) by {
            if k < p {
                assert(v@[k] == v0[k]);
            } else if k > p {
                assert(v@[k] == v0[k - 1]);
            }
        }
        assert forall|i: int, j: int| 0 <= i < j < s1.len() implies lex_lt(#[trigger] s1[i], #[trigger] s1[j]) by {
            let a = s1[i];
            let b = s1[j];
            if j < p {
                assert(lex_lt(s0[i], s0[j]));
            } else if j == p {
                assert(lex_lt(s0[i], xv));
            } else if i < p {
                assert(lex_lt(s0[i], xv));
                if j - 1 == p {
                    assert(lex_lt(xv, s0[p as int]));
                    lemma_lex_transitive(s0[i], xv, s0[p as int]);
                } else {
                    assert(lex_lt(s0[p as int], s0[j - 1]));
                    lemma_lex_transitive(xv, s0[p as int], s0[j - 1]);
                    lemma_lex_transitive(s0[i], xv, s0[j - 1]);
                }
            } else if i == p {
                if j - 1 == p {
                    assert(lex_lt(xv, s0[p as int]));
                } else {
                    assert(lex_lt(s0[p as int], s0[j - 1]));
                    lemma_lex_transitive(xv, s0[p as int], s0[j - 1]);
                }
            } else {
                assert(lex_lt(s0[i - 1], s0[j - 1]));
            }
        }
        assert forall|y: Seq<char>| s1.to_set().contains(y) <==> s0.to_set().insert(xv).contains(y) by {
            if s1.to_set().contains(y) {
                let k = choose|k: int| 0 <= k < s1.len() && s1[k] == y;
                if k < p {
                    assert(s0[k] == y);
                } else if k > p {
                    assert(s0[k - 1] == y);
                }
            }
            if s0.to_set().contains(y) {
                let k = choose|k: int| 0 <= k < s0.len() && s0[k] == y;
                if k < p {
                    assert(s1[k] == y);
                } else {
                    assert(s1[k + 1] == y);
                }
            }
            if y == xv {
                assert(s1[p as int] == y);
            }
        }
        assert(s1.to_set() =~= s0.to_set().insert(xv));
    }
}

/// The spellings of `input` to search the database with: each of
/// `identifier_spellings` once, in the `str` order.
pub fn generate_identifier_alternatives(input: &str) -> (r: Vec<String>)
    ensures
        strictly_sorted(r.deep_view()),
        r.deep_view().to_set() == identifier_spellings(input@).to_set(),
{
    let original = chars_of(input);
    let lower_s = to_lowercase(input);
    let lower = chars_of(lower_s.as_str());
    let spaces = replace_char(&lower, ' ', '_');
    let dashes = replace_char(&lower, '-', '_');
    let both = replace_char(&spaces, '-', '_');
    let unders = replace_char(&lower, '_', '-');
    let bare = remove_separators(&lower);
    let ghost cands = seq![original@, lower@, spaces@, dashes@, both@, unders@, bare@];
    assert(cands =~= identifier_spellings(input@));
    let mut v: Vec<Vec<char>> = Vec::new();
    assert(seqs(v@).to_set() =~= cands.take(0).to_set());
    proof {
        lemma_take_to_set(cands, 0);
        lemma_take_to_set(cands, 1);
        lemma_take_to_set(cands, 2);
        lemma_take_to_set(cands, 3);
        lemma_take_to_set(cands, 4);
        lemma_take_to_set(cands, 5);
        lemma_take_to_set(cands, 6);
    }
    insert_sorted(&mut v, original);
    insert_sorted(&mut v, lower);
    insert_sorted(&mut v, spaces);
    insert_sorted(&mut v, dashes);
    insert_sorted(&mut v, both);
    insert_sorted(&mut v, unders);
    insert_sorted(&mut v, bare);
    assert(cands.take(7) =~= cands);
    let mut r: Vec<String> = Vec::new();
    let n = v.len();
    for i in 0..n
        invariant
            n == v@.len(),
            r.deep_view() == seqs(v@).take(i as int),
    {
        let s = string_from_chars(&v[i]);
        let ghost before = r.deep_view();
        r.push(s);
        assert(r.deep_view() =~= before.push(s@));
        assert(seqs(v@).take(i + 1) =~= seqs(v@).take(i as int).push(v@[i as int]@));
    }
    assert(seqs(v@).take(n as int) =~= seqs(v@));
    r
}

} // verus!
