//! Character-level text operations on which the message parsers are built.
//!
//! Strings are handled as sequences of Unicode scalar values (`Seq<char>`),
//! which is how vstd views `str` and `String`.
use vstd::prelude::*;

verus! {

/// `n` occurs in `h` starting at position `i`.
pub open spec fn occurs_at(h: Seq<char>, n: Seq<char>, i: int) -> bool {
    &&& 0 <= i
    &&& i + n.len() <= h.len()
    &&& h.subrange(i, i + n.len()) == n
}

/// `n` is a contiguous part of `h` (the empty sequence is a part of every sequence).
pub open spec fn has_part(h: Seq<char>, n: Seq<char>) -> bool {
    exists|i: int| #[trigger] occurs_at(h, n, i)
}

/// The leftmost position at or after `s` where `n` occurs in `h`.
pub open spec fn find_from(h: Seq<char>, n: Seq<char>, s: int) -> Option<int>
    decreases h.len() - s,
{
    if s < 0 || s + n.len() > h.len() {
        None
    } else if n.len() == 0 {
        Some(s)
    } else if h.subrange(s, s + n.len()) == n {
        Some(s)
    } else {
        find_from(h, n, s + 1)
    }
}

/// What `find_from` returns is the leftmost occurrence at or after `s`.
pub proof fn lemma_find_from(h: Seq<char>, n: Seq<char>, s: int)
    requires
        0 <= s,
    ensures
        find_from(h, n, s) matches Some(i) ==> {
            &&& s <= i
            &&& occurs_at(h, n, i)
            &&& forall|j: int| s <= j < i ==> !occurs_at(h, n, j)
        },
        find_from(h, n, s) is None ==> forall|j: int| s <= j ==> !occurs_at(h, n, j),
    decreases h.len() - s,
{
    if s + n.len() > h.len() {
    } else if n.len() == 0 {
        assert(h.subrange(s, s + n.len()) =~= n);
    } else if h.subrange(s, s + n.len()) == n {
    } else {
        lemma_find_from(h, n, s + 1);
    }
}

/// A needle occurs in a haystack exactly when a search from the start finds it.
pub proof fn lemma_has_part_find(h: Seq<char>, n: Seq<char>)
    ensures
        has_part(h, n) <==> find_from(h, n, 0) is Some,
{
    lemma_find_from(h, n, 0);
    if let Some(i) = find_from(h, n, 0) {
        assert(occurs_at(h, n, i));
    }
}

/// The characters of `s`, in order.
pub fn chars_of(s: &str) -> (v: Vec<char>)
    ensures
        v@ == s@,
{
    let mut v: Vec<char> = Vec::new();
    for c in it: s.chars()
        invariant
            v@ == it.seq().take(it.index() as int),
            it.seq() == s@,
    {
        v.push(c);
    }
    v
}

/// Whether `n` occurs in `h` at position `i`.
pub fn matches_at(h: &Vec<char>, n: &Vec<char>, i: usize) -> (r: bool)
    requires
        i + n@.len() <= h@.len(),
    ensures
        r == (h@.subrange(i as int, i + n@.len()) == n@),
{
    let hl = h.len();
    let mut k: usize = 0;
    while k < n.len()
        invariant
            hl == h@.len(),
            k <= n@.len(),
            i + n@.len() <= h@.len(),
            forall|j: int| 0 <= j < k ==> h@[i + j] == n@[j],
        decreases n@.len() - k,
    {
        if h[i + k] != n[k] {
            assert(h@.subrange(i as int, i + n@.len())[k as int] != n@[k as int]);
            return false;
        }
        k = k + 1;
    }
    assert(h@.subrange(i as int, i + n@.len()) =~= n@);
    true
}

/// The leftmost position at or after `start` where `n` occurs in `h`.
pub fn find_chars_from(h: &Vec<char>, n: &Vec<char>, start: usize) -> (r: Option<usize>)
    ensures
        r matches Some(i) ==> find_from(h@, n@, start as int) == Some(i as int),
        r is None ==> find_from(h@, n@, start as int) is None,
{
    if start > h.len() || n.len() > h.len() - start {
        return None;
    }
    let hl = h.len();
    let last = hl - n.len();
    let mut i: usize = start;
    while i <= last
        invariant
            hl == h@.len(),
            last + n@.len() == h@.len(),
            start <= i,
            i <= h@.len(),
            find_from(h@, n@, start as int) == find_from(h@, n@, i as int),
        decreases h@.len() - i,
    {
        if n.len() == 0 || matches_at(h, n, i) {
            return Some(i);
        }
        i = i + 1;
    }
    None
}

/// Whether `n` occurs anywhere in `h`.
pub fn contains_chars(h: &Vec<char>, n: &Vec<char>) -> (r: bool)
    ensures
        r == has_part(h@, n@),
{
    proof {
        lemma_has_part_find(h@, n@);
    }
    find_chars_from(h, n, 0).is_some()
}

/// Whether `n` occurs anywhere in `h` (what `str::contains` answers for a string pattern).
pub fn str_contains(h: &str, n: &str) -> (r: bool)
    ensures
        r == has_part(h@, n@),
{
    let hv = chars_of(h);
    let nv = chars_of(n);
    contains_chars(&hv, &nv)
}


/// Unicode `White_Space` characters: what `char::is_whitespace` accepts and what
/// `str::trim` and `str::split_whitespace` strip or split on.
pub open spec fn is_ws(c: char) -> bool {
    let u = c as u32;
    ||| 0x09 <= u <= 0x0d
    ||| u == 0x20
    ||| u == 0x85
    ||| u == 0xa0
    ||| u == 0x1680
    ||| 0x2000 <= u <= 0x200a
    ||| u == 0x2028
    ||| u == 0x2029
    ||| u == 0x202f
    ||| u == 0x205f
    ||| u == 0x3000
}

/// Whether `c` is a Unicode white-space character.
pub fn is_whitespace(c: char) -> (r: bool)
    ensures
        r == is_ws(c),
{
    let u = c as u32;
    (0x09 <= u && u <= 0x0d) || u == 0x20 || u == 0x85 || u == 0xa0 || u == 0x1680 || (0x2000
        <= u && u <= 0x200a) || u == 0x2028 || u == 0x2029 || u == 0x202f || u == 0x205f || u
        == 0x3000
}

/// `s` without its leading white space.
pub open spec fn trim_start(s: Seq<char>) -> Seq<char>
    decreases s.len(),
{
    if s.len() > 0 && is_ws(s[0]) {
        trim_start(s.drop_first())
    } else {
        s
    }
}

/// `s` without its trailing white space.
pub open spec fn trim_end(s: Seq<char>) -> Seq<char>
    decreases s.len(),
{
    if s.len() > 0 && is_ws(s.last()) {
        trim_end(s.drop_last())
    } else {
        s
    }
}

/// `s` without leading and trailing white space (what `str::trim` gives).
pub open spec fn trim(s: Seq<char>) -> Seq<char> {
    trim_end(trim_start(s))
}

/// The characters of `v` between `from` and `to`.
pub fn slice_chars(v: &Vec<char>, from: usize, to: usize) -> (r: Vec<char>)
    requires
        from <= to <= v@.len(),
    ensures
        r@ == v@.subrange(from as int, to as int),
{
    let mut r: Vec<char> = Vec::new();
    let mut i = from;
    while i < to
        invariant
            from <= i <= to <= v@.len(),
            r@ == v@.subrange(from as int, i as int),
        decreases to - i,
    {
        r.push(v[i]);
        i = i + 1;
        assert(r@ =~= v@.subrange(from as int, i as int));
    }
    r
}

/// `v` without leading and trailing white space.
pub fn trim_chars(v: &Vec<char>) -> (r: Vec<char>)
    ensures
        r@ == trim(v@),
{
    let n = v.len();
    let mut a: usize = 0;
    assert(v@.subrange(0, n as int) =~= v@);
    while a < n && is_whitespace(v[a])
        invariant
            n == v@.len(),
            a <= n,
            trim_start(v@) == trim_start(v@.subrange(a as int, n as int)),
        decreases n - a,
    {
        assert(v@.subrange(a as int, n as int).drop_first() =~= v@.subrange(a + 1, n as int));
        a = a + 1;
    }
    assert(trim_start(v@) == v@.subrange(a as int, n as int));
    let mut b: usize = n;
    while b > a && is_whitespace(v[b - 1])
        invariant
            a <= b <= n,
            n == v@.len(),
            trim(v@) == trim_end(v@.subrange(a as int, b as int)),
        decreases b,
    {
        assert(v@.subrange(a as int, b as int).drop_last() =~= v@.subrange(a as int, b - 1));
        b = b - 1;
    }
    slice_chars(v, a, b)
}

/// Names the result of `str::to_lowercase` on the given characters.
pub uninterp spec fn lowercase(s: Seq<char>) -> Seq<char>;

/// Calls `str::to_lowercase` (Unicode lower-case mapping). The contract claims only
/// that the result is `lowercase` of the input's characters, a function of the
/// input alone; which characters that is, is left unsaid.
#[verifier::external_body]
pub(crate) fn to_lowercase(s: &str) -> (r: String)
    ensures
        r@ == lowercase(s@),
{
    s.to_lowercase()
}

/// Calls `String::from_iter` on the characters of `v`: the string made of exactly
/// those characters, in order.
#[verifier::external_body]
pub(crate) fn string_from_chars(v: &Vec<char>) -> (r: String)
    ensures
        r@ == v@,
{
    v.iter().collect::<String>()
}

/// A copy of `s` with the same characters.
pub fn copy_string(s: &str) -> (r: String)
    ensures
        r@ == s@,
{
    let v = chars_of(s);
    string_from_chars(&v)
}

/// `s` without leading and trailing white space, as a new string.
pub fn trim_str(s: &str) -> (r: String)
    ensures
        r@ == trim(s@),
{
    let v = chars_of(s);
    let t = trim_chars(&v);
    string_from_chars(&t)
}

/// What `s.split(n).next()` gives: the part of `s` before the first occurrence of
/// `n`, or all of `s` when `n` does not occur.
pub open spec fn before_first(s: Seq<char>, n: Seq<char>) -> Seq<char> {
    match find_from(s, n, 0) {
        Some(i) => s.subrange(0, i),
        None => s,
    }
}

/// What `s.split(n).nth(1)` gives: the part between the first and the second
/// (non-overlapping) occurrence of `n`, or to the end when there is no second one.
pub open spec fn after_first(s: Seq<char>, n: Seq<char>) -> Option<Seq<char>> {
    match find_from(s, n, 0) {
        Some(i) => match find_from(s, n, i + n.len()) {
            Some(j) => Some(s.subrange(i + n.len(), j)),
            None => Some(s.subrange(i + n.len(), s.len() as int)),
        },
        None => None,
    }
}

/// `s.split(n)` yields exactly two parts: `n` occurs once, with no further
/// occurrence after the end of the first.
pub open spec fn splits_in_two(s: Seq<char>, n: Seq<char>) -> bool {
    match find_from(s, n, 0) {
        Some(i) => find_from(s, n, i + n.len()) is None,
        None => false,
    }
}

/// The pieces that `split` on a non-empty pattern yields first and second,
/// and whether it yields exactly two.
pub fn split_first_two(s: &Vec<char>, n: &Vec<char>) -> (r: (Vec<char>, Option<Vec<char>>, bool))
    requires
        n@.len() > 0,
    ensures
        r.0@ == before_first(s@, n@),
        r.1 matches Some(p) ==> after_first(s@, n@) == Some(p@),
        r.1 is None ==> after_first(s@, n@) is None,
        r.2 == splits_in_two(s@, n@),
{
    let sl = s.len();
    match find_chars_from(s, n, 0) {
        None => (slice_chars(s, 0, sl), None, false),
        Some(i) => {
            proof {
                lemma_find_from(s@, n@, 0);
            }
            let first = slice_chars(s, 0, i);
            let after = i + n.len();
            match find_chars_from(s, n, after) {
                Some(j) => {
                    proof {
                        lemma_find_from(s@, n@, after as int);
                    }
                    (first, Some(slice_chars(s, after, j)), false)
                },
                None => (first, Some(slice_chars(s, after, s.len())), true),
            }
        },
    }
}

/// What `s.split(c).last()` gives: the part after the last `c`, or all of `s`.
pub open spec fn after_last(s: Seq<char>, c: char) -> Seq<char>
    decreases s.len(),
{
    if s.len() == 0 {
        s
    } else if s.last() == c {
        Seq::empty()
    } else {
        after_last(s.drop_last(), c).push(s.last())
    }
}

/// The part of `s` after its last `c` (all of `s` when there is none).
pub fn after_last_char(s: &Vec<char>, c: char) -> (r: Vec<char>)
    ensures
        r@ == after_last(s@, c),
{
    let n = s.len();
    let mut k: usize = n;
    assert(s@.subrange(0, n as int) =~= s@);
    assert(s@.subrange(n as int, n as int) =~= Seq::<char>::empty());
    assert(after_last(s@, c) + Seq::<char>::empty() =~= after_last(s@, c));
    while k > 0 && s[k - 1] != c
        invariant
            k <= n == s@.len(),
            after_last(s@, c) == after_last(s@.subrange(0, k as int), c) + s@.subrange(
                k as int,
                n as int,
            ),
        decreases k,
    {
        let ghost p = s@.subrange(0, k as int);
        assert(p.drop_last() =~= s@.subrange(0, k - 1));
        assert(s@.subrange(k - 1, n as int) =~= seq![p.last()] + s@.subrange(k as int, n as int));
        assert(after_last(p, c) == after_last(p.drop_last(), c).push(p.last()));
        assert(after_last(p.drop_last(), c).push(p.last()) + s@.subrange(k as int, n as int)
            =~= after_last(p.drop_last(), c) + s@.subrange(k - 1, n as int));
        k = k - 1;
    }
    proof {
        if k == 0 {
            assert(s@.subrange(0, 0) =~= Seq::<char>::empty());
            assert(s@.subrange(0, n as int) =~= s@);
        }
    }
    slice_chars(s, k, n)
}

/// Whether every character of `s` is an ASCII digit.
pub open spec fn all_digits(s: Seq<char>) -> bool {
    forall|i: int| 0 <= i < s.len() ==> '0' <= #[trigger] s[i] <= '9'
}

/// The value of a string of ASCII decimal digits.
pub open spec fn digits_value(s: Seq<char>) -> nat
    decreases s.len(),
{
    if s.len() == 0 {
        0
    } else {
        digits_value(s.drop_last()) * 10 + ((s.last() as u32) - ('0' as u32)) as nat
    }
}

/// What `str::parse::<u8>` gives: an optional `+`, then one or more ASCII digits
/// whose value is at most 255.
pub open spec fn parse_u8_spec(s: Seq<char>) -> Option<u8> {
    let d = if s.len() > 0 && s[0] == '+' {
        s.drop_first()
    } else {
        s
    };
    if d.len() > 0 && all_digits(d) && digits_value(d) <= 255 {
        Some(digits_value(d) as u8)
    } else {
        None
    }
}

/// Parses a decimal `u8` the way `str::parse::<u8>` does.
pub fn parse_u8(s: &Vec<char>) -> (r: Option<u8>)
    ensures
        r == parse_u8_spec(s@),
{
    let n = s.len();
    let start: usize = if n > 0 && s[0] == '+' {
        1
    } else {
        0
    };
    let ghost d = if s@.len() > 0 && s@[0] == '+' {
        s@.drop_first()
    } else {
        s@
    };
    assert(d =~= s@.subrange(start as int, n as int));
    if start == n {
        return None;
    }
    let mut acc: u32 = 0;
    let mut i = start;
    while i < n
        invariant
            start <= i <= n == s@.len(),
            d == s@.subrange(start as int, n as int),
            d == (if s@.len() > 0 && s@[0] == '+' {
                s@.drop_first()
            } else {
                s@
            }),
            all_digits(s@.subrange(start as int, i as int)),
            acc as nat == if digits_value(s@.subrange(start as int, i as int)) < 256 {
                digits_value(s@.subrange(start as int, i as int))
            } else {
                256
            },
        decreases n - i,
    {
        let c = s[i];
        if !('0' <= c && c <= '9') {
            assert(d[i - start] == c);
            assert(!all_digits(d));
            return None;
        }
        let ghost p = s@.subrange(start as int, i + 1);
        assert(p.drop_last() =~= s@.subrange(start as int, i as int));
        let dv = (c as u32) - ('0' as u32);
        acc = if acc >= 256 {
            256
        } else if acc * 10 + dv >= 256 {
            256
        } else {
            acc * 10 + dv
        };
        i = i + 1;
    }
    if acc <= 255 {
        Some(acc as u8)
    } else {
        None
    }
}


/// The whitespace-separated words of `s` found so far, and the word being read.
pub open spec fn words_acc(s: Seq<char>) -> (Seq<Seq<char>>, Seq<char>)
    decreases s.len(),
{
    if s.len() == 0 {
        (Seq::empty(), Seq::empty())
    } else {
        let (ws, cur) = words_acc(s.drop_last());
        if is_ws(s.last()) {
            if cur.len() > 0 {
                (ws.push(cur), Seq::empty())
            } else {
                (ws, Seq::empty())
            }
        } else {
            (ws, cur.push(s.last()))
        }
    }
}

/// The words of `s`: its maximal runs of non-white-space characters, in order
/// (what `str::split_whitespace` yields).
pub open spec fn words(s: Seq<char>) -> Seq<Seq<char>> {
    let (ws, cur) = words_acc(s);
    if cur.len() > 0 {
        ws.push(cur)
    } else {
        ws
    }
}

/// The words of `s`: its maximal runs of non-white-space characters, in order.
pub fn split_words(s: &Vec<char>) -> (r: Vec<Vec<char>>)
    ensures
        r@.len() == words(s@).len(),
        forall|k: int| 0 <= k < r@.len() ==> #[trigger] r@[k]@ == words(s@)[k],
{
    let mut ws: Vec<Vec<char>> = Vec::new();
    let mut cur: Vec<char> = Vec::new();
    let n = s.len();
    for i in 0..n
        invariant
            n == s@.len(),
            ws@.len() == words_acc(s@.take(i as int)).0.len(),
            forall|k: int| 0 <= k < ws@.len() ==> #[trigger] ws@[k]@ == words_acc(s@.take(i as int)).0[k],
            cur@ == words_acc(s@.take(i as int)).1,
    {
        assert(s@.take(i + 1).drop_last() =~= s@.take(i as int));
        assert(s@.take(i + 1).last() == s@[i as int]);
        let c = s[i];
        if is_whitespace(c) {
            if cur.len() > 0 {
                let w = cur;
                ws.push(w);
                cur = Vec::new();
            } else {
                cur = Vec::new();
            }
        } else {
            cur.push(c);
        }
    }
    assert(s@.take(n as int) =~= s@);
    if cur.len() > 0 {
        ws.push(cur);
    }
    ws
}

/// The ASCII digits of `s`, in order.
pub open spec fn digits_of(s: Seq<char>) -> Seq<char> {
    s.filter(|c: char| '0' <= c <= '9')
}

/// The ASCII digits of `s`, in order.
pub fn keep_digits(s: &Vec<char>) -> (r: Vec<char>)
    ensures
        r@ == digits_of(s@),
{
    let mut r: Vec<char> = Vec::new();
    let n = s.len();
    for i in 0..n
        invariant
            n == s@.len(),
            r@ == s@.take(i as int).filter(|c: char| '0' <= c <= '9'),
    {
        proof {
            reveal_with_fuel(Seq::<_>::filter, 1);
        }
        assert(s@.take(i + 1).drop_last() =~= s@.take(i as int));
        if '0' <= s[i] && s[i] <= '9' {
            r.push(s[i]);
        }
    }
    assert(s@.take(n as int) =~= s@);
    r
}


/// The ASCII digit of `d` (from 0 to 9).
pub open spec fn digit_char(d: int) -> char {
    (('0' as int) + d) as char
}

/// The decimal digits of `n`, most significant first, without leading zeros.
pub open spec fn decimal(n: nat) -> Seq<char>
    decreases n,
{
    if n < 10 {
        seq![digit_char(n as int)]
    } else {
        decimal(n / 10).push(digit_char((n % 10) as int))
    }
}

/// `i` as `Display` writes an integer: a minus sign when it is negative, then
/// its decimal digits.
pub open spec fn int_text(i: int) -> Seq<char> {
    if i < 0 {
        seq!['-'] + decimal((-i) as nat)
    } else {
        decimal(i as nat)
    }
}

fn digit(d: u64) -> (r: char)
    requires
        d < 10,
    ensures
        r == digit_char(d as int),
{
    if d == 0 {
        '0'
    } else if d == 1 {
        '1'
    } else if d == 2 {
        '2'
    } else if d == 3 {
        '3'
    } else if d == 4 {
        '4'
    } else if d == 5 {
        '5'
    } else if d == 6 {
        '6'
    } else if d == 7 {
        '7'
    } else if d == 8 {
        '8'
    } else {
        '9'
    }
}

/// The characters of `i` written in decimal.
pub fn int_chars(i: i64) -> (r: Vec<char>)
    ensures
        r@ == int_text(i as int),
{
    let neg = i < 0;
    let m: u64 = if neg {
        ((-(i + 1)) as u64) + 1
    } else {
        i as u64
    };
    assert(m == if i < 0 { -(i as int) } else { i as int });
    let mut n = m;
    let mut v: Vec<char> = Vec::new();
    while n >= 10
        invariant
            decimal(m as nat) == decimal(n as nat) + v@,
        decreases n,
    {
        let d = digit(n % 10);
        let ghost v0 = v@;
        v.insert(0, d);
        assert(decimal(n as nat) == decimal((n / 10) as nat).push(d));
        assert(decimal((n / 10) as nat).push(d) + v0 =~= decimal((n / 10) as nat) + v@);
        n = n / 10;
    }
    let d = digit(n);
    let ghost v0 = v@;
    v.insert(0, d);
    assert(decimal(n as nat) =~= seq![d]);
    assert(decimal(m as nat) =~= v@);
    if neg {
        let ghost v1 = v@;
        v.insert(0, '-');
        assert(v@ =~= seq!['-'] + v1);
    }
    v
}

} // verus!
