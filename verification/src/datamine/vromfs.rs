//! Where the game keeps its packed data archive.
use vstd::prelude::*;

use crate::datamine::parser::{
    file_name_of, first_existing, joined, parent_of, path_exists, path_file_name, path_join, path_parent,
};
use crate::text::{chars_of, string_from_chars};

verus! {

/// The places where `aces.vromfs.bin` may lie in an installation, in the order
/// in which they are tried.
pub fn vromfs_candidates(game_path: &str) -> (r: Vec<String>)
    ensures
        r@.len() == 2,
        r@[0]@ == joined(game_path@, "aces.vromfs.bin"@),
        r@[1]@ == joined(joined(game_path@, "content"@), "aces.vromfs.bin"@),
{
    let mut r: Vec<String> = Vec::new();
    r.push(path_join(game_path, "aces.vromfs.bin"));
    let content = path_join(game_path, "content");
    r.push(path_join(content.as_str(), "aces.vromfs.bin"));
    r
}

/// Finds `aces.vromfs.bin` in a War Thunder installation: the first of the
/// candidate places that exists. What the disk answers is not claimed; what comes
/// back is one of the candidates.
pub fn find_vromfs_archive(game_path: &str) -> (r: Option<String>)
    ensures
        r matches Some(p) ==> p@ == joined(game_path@, "aces.vromfs.bin"@) || p@ == joined(
            joined(game_path@, "content"@),
            "aces.vromfs.bin"@,
        ),
{
    let c = vromfs_candidates(game_path);
    first_existing(&c)
}

/// Where the unpacked archive is, or where to unpack it.
pub enum UnpackSource {
    /// Unpacked files are under this directory already.
    Found(String),
    /// Unpack the archive into this directory.
    Unpack(String),
}

/// Why the archive cannot be located.
#[derive(Debug, Clone, Copy, PartialEq, Eq, Structural)]
pub enum VromfsError {
    /// The archive does not exist.
    NotFound,
    /// The archive's path has no parent directory.
    NoParent,
    /// The archive's path has no file name.
    InvalidName,
}

/// The name of the folder that holds an archive's unpacked files: its own name
/// followed by "_u".
pub open spec fn unpacked_name(name: Seq<char>) -> Seq<char> {
    name + "_u"@
}

fn unpacked_folder(name: &str) -> (r: String)
    ensures
        r@ == unpacked_name(name@),
{
    let mut v = chars_of(name);
    v.push('_');
    v.push('u');
    proof {
        reveal_strlit("_u");
    }
    assert(v@ =~= name@ + "_u"@);
    string_from_chars(&v)
}

/// `r` says that unpacked files are under `dir`.
pub open spec fn found_in(r: UnpackSource, dir: Seq<char>) -> bool {
    r matches UnpackSource::Found(d) && d@ == dir
}

/// `r` says to unpack into `dir`.
pub open spec fn unpack_into(r: UnpackSource, dir: Seq<char>) -> bool {
    r matches UnpackSource::Unpack(d) && d@ == dir
}

/// Where the data of an archive is, from what the disk answers: no archive
/// (`exists` false) is `NotFound`; an archive path without a parent or a file
/// name is `NoParent` or `InvalidName`; the game's directory `parent` when the
/// archive was unpacked beside itself (`beside` and `beside_gamedata`) or
/// `gamedata` lies loose there (`loose`); the cached folder `cached_dir` when it
/// holds `gamedata` (`cached` and `cached_gamedata`); else `cached_dir` as the
/// place to unpack into. The folder answers count only where the path has both
/// a parent and a name.
pub open spec fn unpack_choice(
    exists: bool,
    parent: Option<Seq<char>>,
    name: Option<Seq<char>>,
    beside: bool,
    beside_gamedata: bool,
    loose: bool,
    cached: bool,
    cached_gamedata: bool,
    cached_dir: Seq<char>,
) -> Result<(bool, Seq<char>), VromfsError> {
    if !exists {
        Err(VromfsError::NotFound)
    } else {
        match parent {
            None => Err(VromfsError::NoParent),
            Some(d) => match name {
                None => Err(VromfsError::InvalidName),
                Some(_) => if (beside && beside_gamedata) || loose {
                    Ok((true, d))
                } else if cached && cached_gamedata {
                    Ok((true, cached_dir))
                } else {
                    Ok((false, cached_dir))
                },
            },
        }
    }
}

/// `r` as found (`true`) or to unpack (`false`), with its directory.
pub open spec fn source_view(r: Result<UnpackSource, VromfsError>) -> Result<(bool, Seq<char>), VromfsError> {
    match r {
        Ok(UnpackSource::Found(d)) => Ok((true, d@)),
        Ok(UnpackSource::Unpack(d)) => Ok((false, d@)),
        Err(e) => Err(e),
    }
}

/// Where the data of an archive is, from what the disk answers, as
/// `unpack_choice` says.
pub fn choose_unpack_source(
    exists: bool,
    parent: Option<String>,
    name: Option<String>,
    beside: bool,
    beside_gamedata: bool,
    loose: bool,
    cached: bool,
    cached_gamedata: bool,
    cached_dir: String,
) -> (r: Result<UnpackSource, VromfsError>)
    ensures
        source_view(r) == unpack_choice(
            exists,
            match parent {
                Some(d) => Some(d@),
                None => None,
            },
            match name {
                Some(n) => Some(n@),
                None => None,
            },
            beside,
            beside_gamedata,
            loose,
            cached,
            cached_gamedata,
            cached_dir@,
        ),
{
    if !exists {
        return Err(VromfsError::NotFound);
    }
    let d = match parent {
        Some(d) => d,
        None => {
            return Err(VromfsError::NoParent);
        },
    };
    if name.is_none() {
        return Err(VromfsError::InvalidName);
    }
    if (beside && beside_gamedata) || loose {
        Ok(UnpackSource::Found(d))
    } else if cached && cached_gamedata {
        Ok(UnpackSource::Found(cached_dir))
    } else {
        Ok(UnpackSource::Unpack(cached_dir))
    }
}

/// Where the data of the archive at `vromfs_path` is, with `temp_dir` the
/// system's temporary directory, as `choose_unpack_source` decides on what the
/// disk answers: the game's own directory when the archive was unpacked beside
/// itself (with `gamedata`) or `gamedata` lies loose there, the cached unpacked
/// folder when it holds `gamedata`, else that folder as the place to unpack
/// into. What the disk answers is not claimed; the errors other than a missing
/// archive come exactly from a missing parent or file name.
pub fn locate_unpacked(vromfs_path: &str, temp_dir: &str) -> (r: Result<UnpackSource, VromfsError>)
    ensures
        match r {
            Ok(s) => parent_of(vromfs_path@) matches Some(d) && file_name_of(vromfs_path@) matches Some(n) && {
                let cached = joined(joined(temp_dir@, "tailgunner_datamine"@), unpacked_name(n));
                found_in(s, d) || found_in(s, cached) || unpack_into(s, cached)
            },
            Err(VromfsError::NoParent) => parent_of(vromfs_path@) is None,
            Err(VromfsError::InvalidName) => parent_of(vromfs_path@) is Some && file_name_of(vromfs_path@) is None,
            Err(VromfsError::NotFound) => true,
        },
        parent_of(vromfs_path@) is None ==> r is Err && r != Err::<UnpackSource, VromfsError>(
            VromfsError::InvalidName,
        ),
        parent_of(vromfs_path@) is Some && file_name_of(vromfs_path@) is None ==> r is Err && r
            != Err::<UnpackSource, VromfsError>(VromfsError::NoParent),
        parent_of(vromfs_path@) is Some && file_name_of(vromfs_path@) is Some ==> r
            != Err::<UnpackSource, VromfsError>(VromfsError::NoParent) && r != Err::<
            UnpackSource,
            VromfsError,
        >(VromfsError::InvalidName),
{
    let exists = path_exists(vromfs_path);
    let parent = path_parent(vromfs_path);
    let name = path_file_name(vromfs_path);
    let (mut beside, mut beside_gamedata, mut loose, mut cached, mut cached_gamedata) = (
        false,
        false,
        false,
        false,
        false,
    );
    let mut cached_dir = String::new();
    if let (Some(game_dir), Some(n)) = (&parent, &name) {
        let folder = unpacked_folder(n.as_str());
        let beside_dir = path_join(game_dir.as_str(), folder.as_str());
        beside = path_exists(beside_dir.as_str());
        beside_gamedata = path_exists(path_join(beside_dir.as_str(), "gamedata").as_str());
        loose = path_exists(path_join(game_dir.as_str(), "gamedata").as_str());
        let base = path_join(temp_dir, "tailgunner_datamine");
        cached_dir = path_join(base.as_str(), folder.as_str());
        cached = path_exists(cached_dir.as_str());
        cached_gamedata = path_exists(path_join(cached_dir.as_str(), "gamedata").as_str());
    }
    choose_unpack_source(exists, parent, name, beside, beside_gamedata, loose, cached, cached_gamedata, cached_dir)
}

} // verus!
