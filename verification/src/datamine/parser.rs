//! File names and paths of the game's data files.
use vstd::prelude::*;

use std::path::Path;

verus! {

/// Names the final component of a path, as `Path::file_name` finds it (absent
/// for a path that has none, such as one ending in `..`).
pub uninterp spec fn file_name_of(path: Seq<char>) -> Option<Seq<char>>;

/// Calls `Path::file_name` on `path` and converts the name to a `String`. The
/// contract claims only that the result is `file_name_of` of the path, a function
/// of the path alone; how the path is split into components is left unsaid.
#[verifier::external_body]
pub(crate) fn path_file_name(path: &str) -> (r: Option<String>)
    ensures
        match r {
            Some(s) => file_name_of(path@) == Some(s@),
            None => file_name_of(path@) is None,
        },
{
    Path::new(path).file_name().map(|s| s.to_string_lossy().into_owned())
}

/// Names the path that `PathBuf::join` makes of `base` and `part`.
pub uninterp spec fn joined(base: Seq<char>, part: Seq<char>) -> Seq<char>;

/// Calls `Path::join` and converts the result to a `String`. The contract claims
/// only that the result is `joined` of the two paths, a function of them alone;
/// which separator is used is left unsaid.
#[verifier::external_body]
pub(crate) fn path_join(base: &str, part: &str) -> (r: String)
    ensures
        r@ == joined(base@, part@),
{
    Path::new(base).join(part).to_string_lossy().into_owned()
}

/// Names the path that `Path::parent` gives of a path (absent for a root or an
/// empty path).
pub uninterp spec fn parent_of(path: Seq<char>) -> Option<Seq<char>>;

/// Calls `Path::parent` and converts the result to a `String`. The contract claims
/// only that the result is `parent_of` of the path, a function of the path alone;
/// how the path is split into components is left unsaid.
#[verifier::external_body]
pub(crate) fn path_parent(path: &str) -> (r: Option<String>)
    ensures
        match r {
            Some(s) => parent_of(path@) == Some(s@),
            None => parent_of(path@) is None,
        },
{
    Path::new(path).parent().map(|p| p.to_string_lossy().into_owned())
}

/// Calls `Path::exists`. Nothing is claimed of the answer: it depends on the disk.
#[verifier::external_body]
pub(crate) fn path_exists(path: &str) -> bool {
    Path::new(path).exists()
}

/// The position of the last `.` in `s`, if any.
pub open spec fn last_dot(s: Seq<char>) -> Option<int>
    decreases s.len(),
{
    if s.len() == 0 {
        None
    } else if s.last() == '.' {
        Some(s.len() - 1)
    } else {
        last_dot(s.drop_last())
    }
}

/// The stem of a file name, as `Path::file_stem` documents it: the whole name if it
/// has no `.`, or if its only `.` is the first character; otherwise the part
/// before the last `.`.
pub open spec fn stem_of(name: Seq<char>) -> Seq<char> {
    match last_dot(name) {
        Some(k) => if k == 0 {
            name
        } else {
            name.subrange(0, k)
        },
        None => name,
    }
}

/// The stem of a file name.
pub fn file_stem(name: &Vec<char>) -> (r: Vec<char>)
    ensures
        r@ == stem_of(name@),
{
    let n = name.len();
    let mut k: usize = n;
    assert(name@.subrange(0, n as int) =~= name@);
    while k > 0 && name[k - 1] != '.'
        invariant
            k <= n == name@.len(),
            last_dot(name@) == last_dot(name@.subrange(0, k as int)),
        decreases k,
    {
        assert(name@.subrange(0, k as int).drop_last() =~= name@.subrange(0, k - 1));
        k = k - 1;
    }
    if k <= 1 {
        crate::text::slice_chars(name, 0, n)
    } else {
        crate::text::slice_chars(name, 0, k - 1)
    }
}

/// The vehicle identifier of a data file: the stem of its file name
/// ("bf-109f-4.blkx" gives "bf-109f-4").
pub fn extract_identifier(path: &str) -> (r: Option<String>)
    ensures
        match r {
            Some(s) => file_name_of(path@) matches Some(n) && s@ == stem_of(n),
            None => file_name_of(path@) is None,
        },
{
    match path_file_name(path) {
        Some(name) => {
            let v = crate::text::chars_of(name.as_str());
            let stem = file_stem(&v);
            Some(crate::text::string_from_chars(&stem))
        },
        None => None,
    }
}

/// The directories that a War Thunder installation holds: the unpacked archive
/// and its `gamedata` folder.
pub fn game_path_markers(path: &str) -> (r: (String, String))
    ensures
        r.0@ == joined(path@, "aces.vromfs.bin_u"@),
        r.1@ == joined(joined(path@, "aces.vromfs.bin_u"@), "gamedata"@),
{
    let aces = path_join(path, "aces.vromfs.bin_u");
    let gamedata = path_join(aces.as_str(), "gamedata");
    (aces, gamedata)
}

/// Whether the markers of an installation are present, from what the disk
/// answers for each: both must be.
pub fn markers_present(aces: bool, gamedata: bool) -> (r: bool)
    ensures
        r == (aces && gamedata),
{
    aces && gamedata
}

/// Whether `path` is a War Thunder installation: both of its marker directories
/// exist, as `markers_present` decides on what the disk answers for the paths of
/// `game_path_markers`. What the disk answers is not claimed.
pub fn validate_game_path(path: &str) -> bool {
    let (aces, gamedata) = game_path_markers(path);
    let a = path_exists(aces.as_str());
    let g = path_exists(gamedata.as_str());
    markers_present(a, g)
}

/// The position of the first `true`.
pub fn first_present(found: &Vec<bool>) -> (r: Option<usize>)
    ensures
        r matches Some(i) ==> i < found@.len() && found@[i as int] && forall|j: int|
            0 <= j < i ==> !found@[j],
        r is None ==> forall|j: int| 0 <= j < found@.len() ==> !found@[j],
{
    let n = found.len();
    for i in 0..n
        invariant
            n == found@.len(),
            forall|j: int| 0 <= j < i ==> !found@[j],
    {
        if found[i] {
            return Some(i);
        }
    }
    None
}

/// The first of `candidates` whose answer in `found` is yes, if any.
pub fn first_found_path(candidates: &Vec<String>, found: &Vec<bool>) -> (r: Option<String>)
    requires
        found@.len() == candidates@.len(),
    ensures
        match r {
            Some(p) => exists|i: int|
                0 <= i < candidates@.len() && found@[i] && candidates@[i]@ == p@ && forall|j: int|
                    0 <= j < i ==> !found@[j],
            None => forall|j: int| 0 <= j < found@.len() ==> !found@[j],
        },
{
    match first_present(found) {
        Some(i) => {
            let p = candidates[i].clone();
            assert(candidates@[i as int]@ == p@);
            Some(p)
        },
        None => None,
    }
}

/// The first of `candidates` that exists on disk, if any, as `first_found_path`
/// decides on what the disk answers for each. What the disk answers is not
/// claimed; what comes back is one of the candidates, and none comes back from
/// no candidates.
pub fn first_existing(candidates: &Vec<String>) -> (r: Option<String>)
    ensures
        r matches Some(p) ==> exists|i: int| 0 <= i < candidates@.len() && candidates@[i]@ == p@,
        candidates@.len() == 0 ==> r is None,
{
    let mut found: Vec<bool> = Vec::new();
    let n = candidates.len();
    for i in 0..n
        invariant
            n == candidates@.len(),
            found@.len() == i,
    {
        found.push(path_exists(candidates[i].as_str()));
    }
    first_found_path(candidates, &found)
}

/// The first value that is present, in the order given: a field read from the
/// first place of a list of fallbacks that holds it.
pub open spec fn first_some<T>(s: Seq<Option<T>>) -> Option<T>
    decreases s.len(),
{
    if s.len() == 0 {
        None
    } else if s[0] is Some {
        s[0]
    } else {
        first_some(s.skip(1))
    }
}

/// The first present value among `candidates`, or `None` when none is.
pub fn first_found<T: Copy>(candidates: &Vec<Option<T>>) -> (r: Option<T>)
    ensures
        r == first_some(candidates@),
{
    let n = candidates.len();
    let mut i: usize = 0;
    assert(candidates@.skip(0) =~= candidates@);
    while i < n
        invariant
            n == candidates@.len(),
            i <= n,
            first_some(candidates@) == first_some(candidates@.skip(i as int)),
        decreases n - i,
    {
        let c = candidates[i];
        assert(candidates@.skip(i as int).skip(1) =~= candidates@.skip(i + 1));
        if c.is_some() {
            return c;
        }
        i = i + 1;
    }
    None
}

/// The kinds of unit whose model files are read.
#[derive(Debug, Clone, Copy, PartialEq, Eq, Structural)]
pub enum UnitKind {
    Aircraft,
    Ground,
    Ship,
}

/// The folders, below the game data root, that hold the model files of a kind.
pub open spec fn model_folders(kind: UnitKind) -> Seq<Seq<char>> {
    match kind {
        UnitKind::Aircraft => seq!["gamedata"@, "flightmodels"@, "fm"@],
        UnitKind::Ground => seq!["gamedata"@, "units"@, "tankmodels"@],
        UnitKind::Ship => seq!["gamedata"@, "units"@, "ships"@],
    }
}

/// `base` joined with each of `parts` in turn.
pub open spec fn joined_all(base: Seq<char>, parts: Seq<Seq<char>>) -> Seq<char>
    decreases parts.len(),
{
    if parts.len() == 0 {
        base
    } else {
        joined_all(joined(base, parts[0]), parts.skip(1))
    }
}

/// Joining three parts in turn is joining each of them.
proof fn lemma_joined_three(base: Seq<char>, parts: Seq<Seq<char>>)
    requires
        parts.len() == 3,
    ensures
        joined_all(base, parts) == joined(joined(joined(base, parts[0]), parts[1]), parts[2]),
{
    let p1 = parts.skip(1);
    let p2 = p1.skip(1);
    let p3 = p2.skip(1);
    assert(p3.len() == 0);
    assert(p1[0] == parts[1] && p2[0] == parts[2]);
    reveal_with_fuel(joined_all, 4);
}

/// The places where the model files of a kind may be, in the order in which they
/// are tried: below `game_path` itself (a folder of unpacked files), then below
/// the unpacked archive of an installation.
pub fn models_dir_candidates(game_path: &str, kind: UnitKind) -> (r: Vec<String>)
    ensures
        r@.len() == 2,
        r@[0]@ == joined_all(game_path@, model_folders(kind)),
        r@[1]@ == joined_all(joined(game_path@, "aces.vromfs.bin_u"@), model_folders(kind)),
{
    let (a, b, c) = match kind {
        UnitKind::Aircraft => ("gamedata", "flightmodels", "fm"),
        UnitKind::Ground => ("gamedata", "units", "tankmodels"),
        UnitKind::Ship => ("gamedata", "units", "ships"),
    };
    proof {
        lemma_joined_three(game_path@, model_folders(kind));
        lemma_joined_three(joined(game_path@, "aces.vromfs.bin_u"@), model_folders(kind));
    }
    assert(a@ == model_folders(kind)[0] && b@ == model_folders(kind)[1] && c@ == model_folders(
        kind,
    )[2]);
    let unpacked = path_join(game_path, "aces.vromfs.bin_u");
    let mut r: Vec<String> = Vec::new();
    let p1 = path_join(game_path, a);
    let p2 = path_join(p1.as_str(), b);
    r.push(path_join(p2.as_str(), c));
    let q1 = path_join(unpacked.as_str(), a);
    let q2 = path_join(q1.as_str(), b);
    r.push(path_join(q2.as_str(), c));
    r
}

/// The folder of the model files of a kind: the first candidate that exists.
/// What the disk answers is not claimed; what comes back is one of the
/// candidates of `models_dir_candidates`.
pub fn find_models_dir(game_path: &str, kind: UnitKind) -> (r: Option<String>)
    ensures
        r matches Some(p) ==> p@ == joined_all(game_path@, model_folders(kind)) || p@ == joined_all(
            joined(game_path@, "aces.vromfs.bin_u"@),
            model_folders(kind),
        ),
{
    let c = models_dir_candidates(game_path, kind);
    first_existing(&c)
}

/// A file name whose extension, as `Path::extension` finds it, is `blk`: the
/// name has a `.` after its first character, and `blk` follows the last one.
pub open spec fn is_blk_name(name: Seq<char>) -> bool {
    match last_dot(name) {
        Some(k) => k > 0 && name.subrange(k + 1, name.len() as int) == "blk"@,
        None => false,
    }
}

/// Whether a file name has the extension `blk`, that of the unpacked model files.
pub fn is_blk_file(name: &str) -> (r: bool)
    ensures
        r == is_blk_name(name@),
{
    let v = crate::text::chars_of(name);
    let n = v.len();
    let mut k: usize = n;
    assert(v@.subrange(0, n as int) =~= v@);
    while k > 0 && v[k - 1] != '.'
        invariant
            k <= n == v@.len(),
            last_dot(v@) == last_dot(v@.subrange(0, k as int)),
        decreases k,
    {
        assert(v@.subrange(0, k as int).drop_last() =~= v@.subrange(0, k - 1));
        k = k - 1;
    }
    if k <= 1 {
        return false;
    }
    let ext = crate::text::slice_chars(&v, k, n);
    let blk = crate::text::chars_of("blk");
    crate::wt_telemetry::chars_eq(&ext, &blk)
}

/// How a unit's identifier is shown: with its underscores made spaces.
pub open spec fn unit_display(identifier: Seq<char>) -> Seq<char> {
    crate::datamine::database::replaced(identifier, '_', ' ')
}

/// The display name of a ground vehicle or a ship ("t_34_1941" gives "t 34 1941").
pub fn unit_display_name(identifier: &str) -> (r: String)
    ensures
        r@ == unit_display(identifier@),
{
    let v = crate::text::chars_of(identifier);
    let d = crate::datamine::database::replace_char(&v, '_', ' ');
    crate::text::string_from_chars(&d)
}

} // verus!
