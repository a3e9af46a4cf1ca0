//! Vehicle data from the game's files: where the game is installed, and what the
//! data files and Wiki pages say.
pub mod aircraft;
pub mod database;
pub mod ground;
pub mod naval;
pub mod parser;
pub mod vromfs;
pub mod wiki_scraper;

use vstd::prelude::*;

use crate::datamine::parser::{first_existing, joined, path_exists, path_join};

verus! {

/// Why the game could not be found.
#[derive(Debug, Clone, Copy, PartialEq, Eq, Structural)]
pub enum DatamineError {
    /// No War Thunder installation in any known place.
    NotFound,
}

/// Counts of a parse of the game files.
#[derive(Debug, Clone, Copy)]
pub struct ParseStats {
    pub aircraft_count: usize,
    pub ground_count: usize,
    pub ships_count: usize,
    pub duration_ms: u64,
}

/// The vehicle data of one War Thunder installation.
pub struct Datamine {
    game_path: String,
}

/// The usual places of a War Thunder installation, in the order in which they
/// are tried: four Steam library layouts on drives C to G, then two standalone
/// layouts on drives C to G.
pub open spec fn install_candidates_spec() -> Seq<Seq<char>> {
    seq![
        "C:\\Program Files (x86)\\Steam\\steamapps\\common\\War Thunder"@,
        "D:\\Program Files (x86)\\Steam\\steamapps\\common\\War Thunder"@,
        "E:\\Program Files (x86)\\Steam\\steamapps\\common\\War Thunder"@,
        "F:\\Program Files (x86)\\Steam\\steamapps\\common\\War Thunder"@,
        "G:\\Program Files (x86)\\Steam\\steamapps\\common\\War Thunder"@,
        "C:\\Steam\\steamapps\\common\\War Thunder"@,
        "D:\\Steam\\steamapps\\common\\War Thunder"@,
        "E:\\Steam\\steamapps\\common\\War Thunder"@,
        "F:\\Steam\\steamapps\\common\\War Thunder"@,
        "G:\\Steam\\steamapps\\common\\War Thunder"@,
        "C:\\SteamLibrary\\steamapps\\common\\War Thunder"@,
        "D:\\SteamLibrary\\steamapps\\common\\War Thunder"@,
        "E:\\SteamLibrary\\steamapps\\common\\War Thunder"@,
        "F:\\SteamLibrary\\steamapps\\common\\War Thunder"@,
        "G:\\SteamLibrary\\steamapps\\common\\War Thunder"@,
        "C:\\Steam Library\\steamapps\\common\\War Thunder"@,
        "D:\\Steam Library\\steamapps\\common\\War Thunder"@,
        "E:\\Steam Library\\steamapps\\common\\War Thunder"@,
        "F:\\Steam Library\\steamapps\\common\\War Thunder"@,
        "G:\\Steam Library\\steamapps\\common\\War Thunder"@,
        "C:\\Games\\War Thunder"@,
        "D:\\Games\\War Thunder"@,
        "E:\\Games\\War Thunder"@,
        "F:\\Games\\War Thunder"@,
        "G:\\Games\\War Thunder"@,
        "C:\\War Thunder"@,
        "D:\\War Thunder"@,
        "E:\\War Thunder"@,
        "F:\\War Thunder"@,
        "G:\\War Thunder"@,
    ]
}

/// The usual places of a War Thunder installation, in the order in which they
/// are tried.
pub fn install_candidates() -> (r: Vec<String>)
    ensures
        r.deep_view() == install_candidates_spec(),
{
    let mut r: Vec<String> = Vec::new();
    r.push(String::from_str("C:\\Program Files (x86)\\Steam\\steamapps\\common\\War Thunder"));
    r.push(String::from_str("D:\\Program Files (x86)\\Steam\\steamapps\\common\\War Thunder"));
    r.push(String::from_str("E:\\Program Files (x86)\\Steam\\steamapps\\common\\War Thunder"));
    r.push(String::from_str("F:\\Program Files (x86)\\Steam\\steamapps\\common\\War Thunder"));
    r.push(String::from_str("G:\\Program Files (x86)\\Steam\\steamapps\\common\\War Thunder"));
    r.push(String::from_str("C:\\Steam\\steamapps\\common\\War Thunder"));
    r.push(String::from_str("D:\\Steam\\steamapps\\common\\War Thunder"));
    r.push(String::from_str("E:\\Steam\\steamapps\\common\\War Thunder"));
    r.push(String::from_str("F:\\Steam\\steamapps\\common\\War Thunder"));
    r.push(String::from_str("G:\\Steam\\steamapps\\common\\War Thunder"));
    r.push(String::from_str("C:\\SteamLibrary\\steamapps\\common\\War Thunder"));
    r.push(String::from_str("D:\\SteamLibrary\\steamapps\\common\\War Thunder"));
    r.push(String::from_str("E:\\SteamLibrary\\steamapps\\common\\War Thunder"));
    r.push(String::from_str("F:\\SteamLibrary\\steamapps\\common\\War Thunder"));
    r.push(String::from_str("G:\\SteamLibrary\\steamapps\\common\\War Thunder"));
    r.push(String::from_str("C:\\Steam Library\\steamapps\\common\\War Thunder"));
    r.push(String::from_str("D:\\Steam Library\\steamapps\\common\\War Thunder"));
    r.push(String::from_str("E:\\Steam Library\\steamapps\\common\\War Thunder"));
    r.push(String::from_str("F:\\Steam Library\\steamapps\\common\\War Thunder"));
    r.push(String::from_str("G:\\Steam Library\\steamapps\\common\\War Thunder"));
    r.push(String::from_str("C:\\Games\\War Thunder"));
    r.push(String::from_str("D:\\Games\\War Thunder"));
    r.push(String::from_str("E:\\Games\\War Thunder"));
    r.push(String::from_str("F:\\Games\\War Thunder"));
    r.push(String::from_str("G:\\Games\\War Thunder"));
    r.push(String::from_str("C:\\War Thunder"));
    r.push(String::from_str("D:\\War Thunder"));
    r.push(String::from_str("E:\\War Thunder"));
    r.push(String::from_str("F:\\War Thunder"));
    r.push(String::from_str("G:\\War Thunder"));
    assert(r.deep_view() =~= install_candidates_spec());
    r
}

/// The registry keys (under `HKEY_LOCAL_MACHINE`) that may name the War Thunder
/// installation, in the order in which they are tried. Of each key, the values
/// `InstallLocation` and `Path` and the folder of `DisplayIcon` are tried in
/// that order; the first that exists on disk is the installation.
pub open spec fn registry_subkeys_spec() -> Seq<Seq<char>> {
    seq![
        "SOFTWARE\\Gaijin\\War Thunder"@,
        "SOFTWARE\\WOW6432Node\\Gaijin\\War Thunder"@,
        "SOFTWARE\\Microsoft\\Windows\\CurrentVersion\\Uninstall\\War Thunder"@,
        "SOFTWARE\\WOW6432Node\\Microsoft\\Windows\\CurrentVersion\\Uninstall\\War Thunder"@,
    ]
}

/// The registry keys that may name the installation, in order.
pub fn registry_subkeys() -> (r: Vec<String>)
    ensures
        r.deep_view() == registry_subkeys_spec(),
{
    let mut r: Vec<String> = Vec::new();
    r.push(String::from_str("SOFTWARE\\Gaijin\\War Thunder"));
    r.push(String::from_str("SOFTWARE\\WOW6432Node\\Gaijin\\War Thunder"));
    r.push(String::from_str("SOFTWARE\\Microsoft\\Windows\\CurrentVersion\\Uninstall\\War Thunder"));
    r.push(String::from_str("SOFTWARE\\WOW6432Node\\Microsoft\\Windows\\CurrentVersion\\Uninstall\\War Thunder"));
    assert(r.deep_view() =~= registry_subkeys_spec());
    r
}

/// Where the game files to parse are, or that they still have to be unpacked.
pub enum ParseSource {
    /// Parse the files under this directory.
    Dir(String),
    /// Unpack the game's archives first.
    Unpack,
}

/// `r` says to parse the files under `dir`.
pub open spec fn parses_dir(r: ParseSource, dir: Seq<char>) -> bool {
    r matches ParseSource::Dir(d) && d@ == dir
}

/// The directory where unpacked archives are cached, under the temporary
/// directory `temp`.
pub open spec fn cached_unpack_dir(temp: Seq<char>) -> Seq<char> {
    joined(joined(temp, "tailgunner_datamine"@), "aces.vromfs.bin_u"@)
}

/// Which files to parse, from what the disk answers: the game's own unpacked
/// archive when it exists with its `gamedata` (`unpacked`, `unpacked_gamedata`),
/// else the game's loose `gamedata` (`gamedata`), else the cached unpacked
/// archive when it exists with its `gamedata` (`cached`, `cached_gamedata`),
/// else none yet.
pub open spec fn parse_source_spec(
    game_path: Seq<char>,
    unpacked: bool,
    unpacked_gamedata: bool,
    gamedata: bool,
    cached: bool,
    cached_gamedata: bool,
    cached_dir: Seq<char>,
) -> Option<Seq<char>> {
    if (unpacked && unpacked_gamedata) || gamedata {
        Some(game_path)
    } else if cached && cached_gamedata {
        Some(cached_dir)
    } else {
        None
    }
}

/// Which files to parse, from what the disk answers, as `parse_source_spec`
/// says (`None` there is `Unpack`).
pub fn choose_parse_source(
    game_path: &str,
    unpacked: bool,
    unpacked_gamedata: bool,
    gamedata: bool,
    cached: bool,
    cached_gamedata: bool,
    cached_dir: &str,
) -> (r: ParseSource)
    ensures
        match parse_source_spec(
            game_path@,
            unpacked,
            unpacked_gamedata,
            gamedata,
            cached,
            cached_gamedata,
            cached_dir@,
        ) {
            Some(d) => parses_dir(r, d),
            None => r is Unpack,
        },
{
    if (unpacked && unpacked_gamedata) || gamedata {
        ParseSource::Dir(String::from_str(game_path))
    } else if cached && cached_gamedata {
        ParseSource::Dir(String::from_str(cached_dir))
    } else {
        ParseSource::Unpack
    }
}

impl Datamine {
    /// The War Thunder installation: the one the Windows registry names, if any,
    /// else the first of the usual places that exists. What the disk answers is not
    /// claimed; what comes back is the registry's path or one of the candidates.
    pub fn find_game_path(registry_hit: Option<String>) -> (r: Option<String>)
        ensures
            registry_hit matches Some(p) ==> r == Some(p),
            registry_hit is None && r is Some ==> exists|i: int|
                0 <= i < install_candidates_spec().len() && install_candidates_spec()[i] == r->0@,
    {
        if let Some(p) = registry_hit {
            return Some(p);
        }
        let c = install_candidates();
        let r = first_existing(&c);
        proof {
            if r is Some {
                let i = choose|i: int| 0 <= i < c@.len() && c@[i]@ == r->0@;
                assert(c.deep_view()[i] == r->0@);
            }
        }
        r
    }

    /// Finds the War Thunder installation, as `find_game_path` does; fails with
    /// `NotFound` when there is none.
    pub fn auto_detect(registry_hit: Option<String>) -> (r: Result<String, DatamineError>)
        ensures
            registry_hit matches Some(p) ==> r == Ok::<String, DatamineError>(p),
            registry_hit is None && r is Ok ==> exists|i: int|
                0 <= i < install_candidates_spec().len() && install_candidates_spec()[i] == r->Ok_0@,
            r is Err ==> registry_hit is None && r == Err::<String, DatamineError>(DatamineError::NotFound),
    {
        match Datamine::find_game_path(registry_hit) {
            Some(p) => Ok(p),
            None => Err(DatamineError::NotFound),
        }
    }

    /// The installation's directory.
    pub closed spec fn path(&self) -> Seq<char> {
        self.game_path@
    }

    /// The data of the installation at `game_path`.
    pub fn new(game_path: String) -> (r: Self)
        ensures
            r.path() == game_path@,
    {
        Datamine { game_path }
    }

    /// The installation's directory.
    pub fn game_path(&self) -> (r: &str)
        ensures
            r@ == self.path(),
    {
        self.game_path.as_str()
    }

    /// Which game files to parse, looking on disk as `choose_parse_source` says,
    /// with `temp_dir` the system's temporary directory. What the disk answers is
    /// not claimed: the result is the installation, the cached unpacked archive,
    /// or the need to unpack.
    pub fn prepare_game_files(&self, temp_dir: &str) -> (r: ParseSource)
        ensures
            parses_dir(r, self.path()) || parses_dir(r, cached_unpack_dir(temp_dir@))
                || r is Unpack,
    {
        let game = self.game_path.as_str();
        let unpacked_dir = path_join(game, "aces.vromfs.bin_u");
        let unpacked = path_exists(unpacked_dir.as_str());
        let unpacked_gamedata = path_exists(path_join(unpacked_dir.as_str(), "gamedata").as_str());
        let gamedata = path_exists(path_join(game, "gamedata").as_str());
        let base = path_join(temp_dir, "tailgunner_datamine");
        let cached_dir = path_join(base.as_str(), "aces.vromfs.bin_u");
        let cached = path_exists(cached_dir.as_str());
        let cached_gamedata = path_exists(path_join(cached_dir.as_str(), "gamedata").as_str());
        choose_parse_source(game, unpacked, unpacked_gamedata, gamedata, cached, cached_gamedata, cached_dir.as_str())
    }
}

} // verus!
