//! Reading vehicle characteristics out of War Thunder Wiki texts.
use vstd::prelude::*;

use scraper::{ElementRef, Html, Selector};

use crate::text::{
    after_first, before_first, chars_of, digits_of, has_part, keep_digits, lowercase, parse_u8,
    parse_u8_spec, split_first_two, split_words, string_from_chars, to_lowercase, trim, trim_chars,
    trim_str, words,
};
use crate::wt_telemetry::str_eq;

verus! {

/// The numbers among `ws` that read as `u8` values, in order.
pub open spec fn u8_numbers(ws: Seq<Seq<char>>) -> Seq<u8>
    decreases ws.len(),
{
    if ws.len() == 0 {
        Seq::empty()
    } else {
        u8_numbers(ws.drop_last()) + match parse_u8_spec(ws.last()) {
            Some(v) => seq![v],
            None => Seq::empty(),
        }
    }
}

/// The forward and reverse gear counts that a Wiki text gives, read as
/// "X / Y" (digits on either side of the first `/`) or else, in a text that
/// mentions forward and reverse, as its first two numbers.
pub open spec fn gears_of(text: Seq<char>) -> Option<(u8, u8)> {
    let by_slash = if text.contains('/') {
        match after_first(text, seq!['/']) {
            Some(second) => match (
                parse_u8_spec(digits_of(before_first(text, seq!['/']))),
                parse_u8_spec(digits_of(second)),
            ) {
                (Some(f), Some(r)) => Some((f, r)),
                _ => None,
            },
            None => None,
        }
    } else {
        None
    };
    match by_slash {
        Some(g) => Some(g),
        None => {
            let l = lowercase(text);
            let ns = u8_numbers(words(text));
            if has_part(l, "forward"@) && has_part(l, "reverse"@) && ns.len() >= 2 {
                Some((ns[0], ns[1]))
            } else {
                None
            }
        },
    }
}

/// Extracts the forward and reverse gear counts from texts such as "8 / 4",
/// "Forward / Reverse: 8 / 4" or "8 forward, 4 reverse".
pub fn extract_gears(text: &str) -> (r: Option<(u8, u8)>)
    ensures
        r == gears_of(text@),
{
    let lower = to_lowercase(text);
    let t = chars_of(text);
    let slash = vec!['/'];
    assert(slash@ =~= seq!['/']);
    let has_slash = crate::wt_telemetry::has_char(&t, '/');
    if has_slash {
        let (first, second, _) = split_first_two(&t, &slash);
        if let Some(second) = second {
            let fwd = parse_u8(&keep_digits(&first));
            let rev = parse_u8(&keep_digits(&second));
            if let (Some(f), Some(r)) = (fwd, rev) {
                return Some((f, r));
            }
        }
    }
    let l = lower.as_str();
    if crate::text::str_contains(l, "forward") && crate::text::str_contains(l, "reverse") {
        let ws = split_words(&t);
        let mut numbers: Vec<u8> = Vec::new();
        let n = ws.len();
        for i in 0..n
            invariant
                n == ws@.len(),
                ws@.len() == words(t@).len(),
                forall|k: int| 0 <= k < ws@.len() ==> #[trigger] ws@[k]@ == words(t@)[k],
                numbers@ == u8_numbers(words(t@).take(i as int)),
        {
            assert(words(t@).take(i + 1).drop_last() =~= words(t@).take(i as int));
            assert(words(t@).take(i + 1).last() == ws@[i as int]@);
            if let Some(v) = parse_u8(&ws[i]) {
                numbers.push(v);
            }
        }
        assert(words(t@).take(n as int) =~= words(t@));
        if numbers.len() >= 2 {
            return Some((numbers[0], numbers[1]));
        }
    }
    None
}

/// The pieces of `s` between the occurrences of `c`, in order (what
/// `str::split` on a character yields; a string without `c` is one piece).
pub open spec fn split_on(s: Seq<char>, c: char) -> Seq<Seq<char>>
    decreases s.len(),
{
    if s.len() == 0 {
        seq![Seq::empty()]
    } else {
        let rest = split_on(s.drop_last(), c);
        if s.last() == c {
            rest.push(Seq::empty())
        } else {
            rest.update(rest.len() - 1, rest.last().push(s.last()))
        }
    }
}

/// `split_on` always yields at least one piece.
proof fn lemma_split_on_len(s: Seq<char>, c: char)
    ensures
        split_on(s, c).len() >= 1,
    decreases s.len(),
{
    if s.len() > 0 {
        lemma_split_on_len(s.drop_last(), c);
    }
}

/// `s` without its commas.
pub open spec fn without_commas(s: Seq<char>) -> Seq<char> {
    s.filter(|ch: char| ch != ',')
}

/// The texts in which a Wiki speed such as "68 / 72 / 68 km/h (AB / RB / SB)"
/// is looked for, in order: the text before the first "km/h", trimmed, cut at
/// each `/`, each piece trimmed and without commas. The speed is the first of
/// them that reads as a number.
pub open spec fn speed_candidates_of(text: Seq<char>) -> Seq<Seq<char>> {
    split_on(trim(before_first(text, "km/h"@)), '/').map_values(|p: Seq<char>| without_commas(trim(p)))
}

fn split_char(s: &Vec<char>, c: char) -> (r: Vec<Vec<char>>)
    ensures
        r@.len() == split_on(s@, c).len(),
        forall|k: int| 0 <= k < r@.len() ==> #[trigger] r@[k]@ == split_on(s@, c)[k],
{
    let mut done: Vec<Vec<char>> = Vec::new();
    let mut cur: Vec<char> = Vec::new();
    let n = s.len();
    for i in 0..n
        invariant
            n == s@.len(),
            split_on(s@.take(i as int), c).len() == done@.len() + 1,
            forall|k: int| 0 <= k < done@.len() ==> #[trigger] done@[k]@ == split_on(s@.take(i as int), c)[k],
            cur@ == split_on(s@.take(i as int), c).last(),
    {
        proof {
            lemma_split_on_len(s@.take(i as int), c);
        }
        assert(s@.take(i + 1).drop_last() =~= s@.take(i as int));
        assert(s@.take(i + 1).last() == s@[i as int]);
        let ch = s[i];
        if ch == c {
            let piece = cur;
            done.push(piece);
            cur = Vec::new();
            assert(cur@ =~= Seq::<char>::empty());
        } else {
            cur.push(ch);
        }
    }
    assert(s@.take(n as int) =~= s@);
    proof {
        lemma_split_on_len(s@, c);
    }
    done.push(cur);
    done
}

fn remove_commas(s: &Vec<char>) -> (r: Vec<char>)
    ensures
        r@ == without_commas(s@),
{
    let mut r: Vec<char> = Vec::new();
    let n = s.len();
    for i in 0..n
        invariant
            n == s@.len(),
            r@ == without_commas(s@.take(i as int)),
    {
        let ch = s[i];
        proof {
            let t1 = s@.take(i + 1);
            assert(t1.drop_last() =~= s@.take(i as int));
            assert(t1.last() == ch);
            reveal(Seq::filter);
        }
        if ch != ',' {
            r.push(ch);
        }
    }
    assert(s@.take(n as int) =~= s@);
    r
}

/// The texts in which a Wiki speed is looked for, in order; the caller reads
/// the first that is a number.
pub fn speed_candidates(text: &str) -> (r: Vec<String>)
    ensures
        r.deep_view() == speed_candidates_of(text@),
{
    let t = chars_of(text);
    let unit = chars_of("km/h");
    proof {
        reveal_strlit("km/h");
    }
    let (before, _, _) = split_first_two(&t, &unit);
    let trimmed = trim_chars(&before);
    let pieces = split_char(&trimmed, '/');
    let ghost ps = split_on(trim(before_first(t@, "km/h"@)), '/');
    let mut r: Vec<String> = Vec::new();
    let n = pieces.len();
    for i in 0..n
        invariant
            n == pieces@.len() == ps.len(),
            forall|k: int| 0 <= k < n ==> #[trigger] pieces@[k]@ == ps[k],
            r.deep_view() == ps.take(i as int).map_values(|p: Seq<char>| without_commas(trim(p))),
    {
        let piece = remove_commas(&trim_chars(&pieces[i]));
        let ghost before_r = r.deep_view();
        r.push(string_from_chars(&piece));
        assert(r.deep_view() =~= before_r.push(piece@));
        assert(ps.take(i + 1).map_values(|p: Seq<char>| without_commas(trim(p))) =~= ps.take(
            i as int,
        ).map_values(|p: Seq<char>| without_commas(trim(p))).push(without_commas(trim(ps[i as int]))));
    }
    assert(ps.take(n as int) =~= ps);
    r
}

/// A characteristics block of a Wiki vehicle page: the text of its header, if
/// it has one, and for each of its sub-lines the line's text and the text of
/// the realistic-battle value shown on it, if any.
#[derive(Debug, Clone)]
pub struct CharBlock {
    pub header: Option<String>,
    pub lines: Vec<(String, Option<String>)>,
}

impl DeepView for CharBlock {
    type V = (Option<Seq<char>>, Seq<(Seq<char>, Option<Seq<char>>)>);

    open spec fn deep_view(&self) -> Self::V {
        (self.header.deep_view(), self.lines.deep_view())
    }
}

/// Names what `scraper` finds in the page `html` for the given CSS selectors
/// (`None` when one of them does not parse).
pub uninterp spec fn char_blocks_of(
    html: Seq<char>,
    block: Seq<char>,
    header: Seq<char>,
    subline: Seq<char>,
    value: Seq<char>,
    rb: Seq<char>,
) -> Option<Seq<(Option<Seq<char>>, Seq<(Seq<char>, Option<Seq<char>>)>)>>;

/// Calls `scraper`: `Selector::parse` on each selector, `Html::parse_document` on
/// the page, then `select` for the blocks, within each block its first header
/// and its sub-lines, within each sub-line the first value element and in it
/// the first realistic-battle element, each read with `text` (all text below
/// the element, in document order). The contract claims only that the result
/// is `char_blocks_of` of the arguments; what the HTML parser finds in a page
/// is left unsaid.
#[verifier::external_body]
fn char_blocks(html: &str, block: &str, header: &str, subline: &str, value: &str, rb: &str) -> (r:
    Option<Vec<CharBlock>>)
    ensures
        r.deep_view() == char_blocks_of(html@, block@, header@, subline@, value@, rb@),
{
    let sel = |s: &str| Selector::parse(s).ok();
    let (b, h, s, v, x) = (sel(block)?, sel(header)?, sel(subline)?, sel(value)?, sel(rb)?);
    let text = |e: ElementRef| e.text().collect::<String>();
    Some(Html::parse_document(html).select(&b).map(|e| CharBlock {
        header: e.select(&h).next().map(text),
        lines: e.select(&s).map(|l| (text(l), l.select(&v).next().and_then(|w| w.select(&x).next()).map(text))).collect(),
    }).collect())
}

/// The label of a sub-line: its first word, lower-cased (empty for a line
/// without words).
pub open spec fn line_label(text: Seq<char>) -> Seq<char> {
    if words(text).len() == 0 {
        Seq::empty()
    } else {
        lowercase(words(text)[0])
    }
}

/// The speed texts, trimmed and in order, of the lines labelled `label` that
/// show a realistic-battle value.
pub open spec fn line_speeds(lines: Seq<(Seq<char>, Option<Seq<char>>)>, label: Seq<char>) -> Seq<
    Seq<char>,
>
    decreases lines.len(),
{
    if lines.len() == 0 {
        Seq::empty()
    } else {
        let rest = line_speeds(lines.drop_last(), label);
        let line = lines.last();
        if line.1 is Some && line_label(line.0) == label {
            rest.push(trim(line.1->0))
        } else {
            rest
        }
    }
}

/// Whether a block is the "Max speed" block (its header, trimmed, says so).
pub open spec fn is_max_speed_block(b: (Option<Seq<char>>, Seq<(Seq<char>, Option<Seq<char>>)>)) -> bool {
    b.0 is Some && trim(b.0->0) == "Max speed"@
}

/// The speed texts labelled `label` in the "Max speed" blocks, in page order.
pub open spec fn block_speeds(
    blocks: Seq<(Option<Seq<char>>, Seq<(Seq<char>, Option<Seq<char>>)>)>,
    label: Seq<char>,
) -> Seq<Seq<char>>
    decreases blocks.len(),
{
    if blocks.len() == 0 {
        Seq::empty()
    } else {
        let rest = block_speeds(blocks.drop_last(), label);
        if is_max_speed_block(blocks.last()) {
            rest + line_speeds(blocks.last().1, label)
        } else {
            rest
        }
    }
}

fn label_of(text: &String) -> (r: String)
    ensures
        r@ == line_label(text@),
{
    let ws = split_words(&chars_of(text.as_str()));
    if ws.len() == 0 {
        String::new()
    } else {
        let w = string_from_chars(&ws[0]);
        to_lowercase(w.as_str())
    }
}

/// The forward and the backward speed texts of a vehicle page's blocks: in each
/// "Max speed" block, each line labelled "forward" or "backward" that shows a
/// realistic-battle value gives that value's text, trimmed, in page order. A
/// speed is the last of them that reads as a number.
pub fn max_speed_texts(blocks: &Vec<CharBlock>) -> (r: (Vec<String>, Vec<String>))
    ensures
        r.0.deep_view() == block_speeds(blocks.deep_view(), "forward"@),
        r.1.deep_view() == block_speeds(blocks.deep_view(), "backward"@),
{
    let mut fwd: Vec<String> = Vec::new();
    let mut back: Vec<String> = Vec::new();
    let ghost bs = blocks.deep_view();
    let n = blocks.len();
    for i in 0..n
        invariant
            n == blocks@.len(),
            bs == blocks.deep_view(),
            fwd.deep_view() == block_speeds(bs.take(i as int), "forward"@),
            back.deep_view() == block_speeds(bs.take(i as int), "backward"@),
    {
        assert(bs.take(i + 1).drop_last() =~= bs.take(i as int));
        assert(bs.take(i + 1).last() == blocks@[i as int].deep_view());
        let b = &blocks[i];
        let is_speed = match &b.header {
            Some(h) => str_eq(trim_str(h.as_str()).as_str(), "Max speed"),
            None => false,
        };
        if is_speed {
            let ghost ls = b.lines.deep_view();
            let ghost f0 = fwd.deep_view();
            let ghost b0 = back.deep_view();
            let m = b.lines.len();
            for j in 0..m
                invariant
                    m == b.lines@.len(),
                    ls == b.lines.deep_view(),
                    fwd.deep_view() == f0 + line_speeds(ls.take(j as int), "forward"@),
                    back.deep_view() == b0 + line_speeds(ls.take(j as int), "backward"@),
            {
                assert(ls.take(j + 1).drop_last() =~= ls.take(j as int));
                assert(ls.take(j + 1).last() == b.lines@[j as int].deep_view());
                proof {
                    reveal_strlit("forward");
                    reveal_strlit("backward");
                }
                let line = &b.lines[j];
                if let Some(v) = &line.1 {
                    let label = label_of(&line.0);
                    let t = trim_str(v.as_str());
                    let ghost fp = fwd.deep_view();
                    let ghost bp = back.deep_view();
                    if str_eq(label.as_str(), "forward") {
                        fwd.push(t);
                        assert(fwd.deep_view() =~= fp.push(t@));
                        assert("forward"@.len() != "backward"@.len());
                        assert(line_label(ls[j as int].0) != "backward"@);

                    } else if str_eq(label.as_str(), "backward") {
                        back.push(t);
                        assert(back.deep_view() =~= bp.push(t@));
                    }
                }
                assert(fwd.deep_view() =~= f0 + line_speeds(ls.take(j + 1), "forward"@));
                assert(back.deep_view() =~= b0 + line_speeds(ls.take(j + 1), "backward"@));
            }
            assert(ls.take(m as int) =~= ls);
        }
    }
    assert(bs.take(n as int) =~= bs);
    (fwd, back)
}

/// The forward and backward speed texts of a ground vehicle's Wiki page, as
/// `max_speed_texts` reads them from the page's characteristics blocks (none
/// when the selectors are refused).
pub open spec fn ground_speeds_of(html: Seq<char>) -> (Seq<Seq<char>>, Seq<Seq<char>>) {
    match char_blocks_of(
        html,
        "div.game-unit_chars-block"@,
        ".game-unit_chars-header"@,
        ".game-unit_chars-subline"@,
        ".game-unit_chars-value"@,
        ".show-char-rb"@,
    ) {
        Some(bs) => (block_speeds(bs, "forward"@), block_speeds(bs, "backward"@)),
        None => (Seq::empty(), Seq::empty()),
    }
}

/// The forward and backward speed texts found on a ground vehicle's Wiki page.
pub fn ground_speed_texts(html: &str) -> (r: (Vec<String>, Vec<String>))
    ensures
        (r.0.deep_view(), r.1.deep_view()) == ground_speeds_of(html@),
{
    let found = char_blocks(
        html,
        "div.game-unit_chars-block",
        ".game-unit_chars-header",
        ".game-unit_chars-subline",
        ".game-unit_chars-value",
        ".show-char-rb",
    );
    match found {
        Some(blocks) => max_speed_texts(&blocks),
        None => (Vec::new(), Vec::new()),
    }
}

/// Fills a field that the game files left empty with what the Wiki gives; a
/// field that has a value keeps it. Answers whether the field was filled.
pub fn fill_missing<T: Copy>(field: &mut Option<T>, found: Option<T>) -> (updated: bool)
    ensures
        updated == (*old(field) is None && found is Some),
        *final(field) == if updated {
            found
        } else {
            *old(field)
        },
{
    if field.is_none() && found.is_some() {
        *field = found;
        true
    } else {
        false
    }
}

} // verus!
