//! What the tank model files tell of a ground vehicle besides its numbers: its
//! crew, its gears, the calibre of its main gun and its class.
use vstd::prelude::*;

use crate::text::{after_last, after_last_char, before_first, chars_of, split_first_two, string_from_chars};
use crate::wt_telemetry::str_eq;

verus! {

/// The entries of a `tank_crew` block that are crew members: all but the
/// `changeTimeMult` setting.
pub open spec fn crew_members(keys: Seq<Seq<char>>) -> Seq<Seq<char>> {
    keys.filter(|k: Seq<char>| k != "changeTimeMult"@)
}

/// The crew count of a `tank_crew` block with these keys, as a `u8` (the count
/// modulo 256, as a cast to `u8` gives it).
pub fn crew_count(keys: &Vec<String>) -> (r: u8)
    ensures
        r as nat == crew_members(keys.deep_view()).len() % 256,
{
    let ghost ks = keys.deep_view();
    let n = keys.len();
    let mut count: usize = 0;
    for i in 0..n
        invariant
            n == keys@.len() == ks.len(),
            ks == keys.deep_view(),
            count == crew_members(ks.take(i as int)).len(),
            count <= i,
    {
        let member = !str_eq(keys[i].as_str(), "changeTimeMult");
        proof {
            let t1 = ks.take(i + 1);
            assert(t1.drop_last() =~= ks.take(i as int));
            assert(t1.last() == keys@[i as int]@);
            reveal(Seq::filter);
        }
        if member {
            count = count + 1;
        }
    }
    assert(ks.take(n as int) =~= ks);
    (count % 256) as u8
}

/// The direction a gear ratio drives in: negative ratios are reverse gears,
/// positive ones forward gears, and zero is neutral.
#[derive(Debug, Clone, Copy, PartialEq, Eq, Structural)]
pub enum GearRatio {
    Reverse,
    Neutral,
    Forward,
}

/// How many of `ratios` drive in direction `g`.
pub open spec fn count_of(ratios: Seq<GearRatio>, g: GearRatio) -> nat {
    ratios.filter(|x: GearRatio| x == g).len()
}

/// The forward and reverse gear counts of a gearbox, or nothing when it has
/// neither.
pub open spec fn gear_counts_of(ratios: Seq<GearRatio>) -> (Option<u8>, Option<u8>) {
    let f = count_of(ratios, GearRatio::Forward);
    let r = count_of(ratios, GearRatio::Reverse);
    if f > 0 || r > 0 {
        (Some(f as u8), Some(r as u8))
    } else {
        (None, None)
    }
}

/// Counting the ratios of a prefix one more at a time.
proof fn lemma_count_step(s: Seq<GearRatio>, i: int, g: GearRatio)
    requires
        0 <= i < s.len(),
    ensures
        count_of(s.take(i + 1), g) == count_of(s.take(i), g) + if s[i] == g {
            1int
        } else {
            0int
        },
        count_of(s.take(i), g) <= count_of(s, g),
{
    let t1 = s.take(i + 1);
    assert(t1.drop_last() =~= s.take(i));
    reveal(Seq::filter);
    assert(s =~= s.take(i) + s.skip(i));
    Seq::filter_distributes_over_add(s.take(i), s.skip(i), |x: GearRatio| x == g);
}

/// The forward and reverse gear counts of a gearbox given by its ratios in
/// order. Counts above 255 would overflow the `u8` that holds them.
pub fn gear_counts(ratios: &Vec<GearRatio>) -> (r: (Option<u8>, Option<u8>))
    requires
        count_of(ratios@, GearRatio::Forward) <= 255,
        count_of(ratios@, GearRatio::Reverse) <= 255,
    ensures
        r == gear_counts_of(ratios@),
{
    let n = ratios.len();
    let mut forward: u8 = 0;
    let mut reverse: u8 = 0;
    for i in 0..n
        invariant
            n == ratios@.len(),
            count_of(ratios@, GearRatio::Forward) <= 255,
            count_of(ratios@, GearRatio::Reverse) <= 255,
            forward == count_of(ratios@.take(i as int), GearRatio::Forward),
            reverse == count_of(ratios@.take(i as int), GearRatio::Reverse),
    {
        proof {
            lemma_count_step(ratios@, i as int, GearRatio::Forward);
            lemma_count_step(ratios@, i as int, GearRatio::Reverse);
            if i + 1 < n {
                lemma_count_step(ratios@, i + 1, GearRatio::Forward);
                lemma_count_step(ratios@, i + 1, GearRatio::Reverse);
            } else {
                assert(ratios@.take(i + 1) =~= ratios@);
            }
        }
        match ratios[i] {
            GearRatio::Reverse => {
                reverse = reverse + 1;
            },
            GearRatio::Forward => {
                forward = forward + 1;
            },
            GearRatio::Neutral => {},
        }
    }
    assert(ratios@.take(n as int) =~= ratios@);
    if forward > 0 || reverse > 0 {
        (Some(forward), Some(reverse))
    } else {
        (None, None)
    }
}

/// `s` with every `mm` taken out, matched from the left without overlap (what
/// `replace("mm", "")` gives).
pub open spec fn without_mm(s: Seq<char>) -> Seq<char>
    decreases s.len(),
{
    if s.len() < 2 {
        s
    } else if s[0] == 'm' && s[1] == 'm' {
        without_mm(s.skip(2))
    } else {
        seq![s[0]] + without_mm(s.skip(1))
    }
}

/// The text of a weapon's calibre in its `blk` path: the file name's part before
/// the first `_`, without `mm` ("gameData/Weapons/120mm_kan_user_cannon.blk"
/// gives "120").
pub open spec fn caliber_text_of(blk: Seq<char>) -> Seq<char> {
    without_mm(before_first(after_last(blk, '/'), "_"@))
}

fn remove_mm(s: &Vec<char>) -> (r: Vec<char>)
    ensures
        r@ == without_mm(s@),
{
    let n = s.len();
    let mut r: Vec<char> = Vec::new();
    let mut i: usize = 0;
    assert(s@.skip(0) =~= s@);
    while i < n
        invariant
            n == s@.len(),
            i <= n,
            without_mm(s@) == r@ + without_mm(s@.skip(i as int)),
        decreases n - i,
    {
        let ghost rest = s@.skip(i as int);
        if i + 1 < n && s[i] == 'm' && s[i + 1] == 'm' {
            assert(rest.skip(2) =~= s@.skip(i + 2));
            i = i + 2;
        } else {
            let c = s[i];
            assert(rest.skip(1) =~= s@.skip(i + 1));
            assert(r@.push(c) + without_mm(s@.skip(i + 1)) =~= r@ + (seq![c] + without_mm(
                s@.skip(i + 1),
            )));
            r.push(c);
            i = i + 1;
        }
    }
    assert(s@.skip(n as int).len() == 0);
    assert(r@ + without_mm(s@.skip(n as int)) =~= r@);
    r
}

/// The calibre text of a weapon's `blk` path, for the caller to read as a number.
pub fn caliber_text(blk: &str) -> (r: String)
    ensures
        r@ == caliber_text_of(blk@),
{
    let v = chars_of(blk);
    let name = after_last_char(&v, '/');
    let sep = chars_of("_");
    proof {
        reveal_strlit("_");
    }
    let (first, _, _) = split_first_two(&name, &sep);
    let t = remove_mm(&first);
    string_from_chars(&t)
}

/// The class of a ground vehicle: its `subclass`, or `mediumVehicle` when the
/// file has none.
pub open spec fn ground_class_of(subclass: Option<Seq<char>>) -> Seq<char> {
    match subclass {
        Some(s) => s,
        None => "mediumVehicle"@,
    }
}

/// The class of a ground vehicle, from the `subclass` of its file.
pub fn ground_class(subclass: Option<&str>) -> (r: String)
    ensures
        r@ == ground_class_of(
            match subclass {
                Some(s) => Some(s@),
                None => None,
            },
        ),
{
    match subclass {
        Some(s) => string_from_chars(&chars_of(s)),
        None => string_from_chars(&chars_of("mediumVehicle")),
    }
}

} // verus!
