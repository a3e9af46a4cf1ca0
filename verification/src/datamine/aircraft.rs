//! What the flight model files tell of an aircraft besides its numbers: its
//! class and how it is shown.
use vstd::prelude::*;

use crate::datamine::database::{replace_char, replaced};
use crate::text::{before_first, chars_of, split_first_two, string_from_chars};

verus! {

/// The class of an aircraft: its identifier up to the first `_`, or the whole
/// identifier when it has none ("f-14a_early" gives "f-14a").
pub open spec fn aircraft_class_of(identifier: Seq<char>) -> Seq<char> {
    before_first(identifier, "_"@)
}

/// The class of an aircraft, from its identifier.
pub fn aircraft_class(identifier: &str) -> (r: String)
    ensures
        r@ == aircraft_class_of(identifier@),
{
    let v = chars_of(identifier);
    let sep = chars_of("_");
    proof {
        reveal_strlit("_");
    }
    let (first, _, _) = split_first_two(&v, &sep);
    string_from_chars(&first)
}

/// How an aircraft's identifier is shown: underscores and dashes made spaces.
pub open spec fn aircraft_display(identifier: Seq<char>) -> Seq<char> {
    replaced(replaced(identifier, '_', ' '), '-', ' ')
}

/// The display name of an aircraft ("bf-109f-4" gives "bf 109f 4").
pub fn aircraft_display_name(identifier: &str) -> (r: String)
    ensures
        r@ == aircraft_display(identifier@),
{
    let v = chars_of(identifier);
    let a = replace_char(&v, '_', ' ');
    let b = replace_char(&a, '-', ' ');
    string_from_chars(&b)
}

} // verus!
