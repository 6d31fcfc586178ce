//! Local filesystem identity and Windows path encoding policies.
//!
//! A path is given as its UTF-16 units. This module never accesses or mutates
//! a remote process.

use crate::error::{copy_units, file_io, viewed, Error, ErrorView, Result};
use crate::pe::imports::{imports_fault, ImportDescriptor};
use vstd::prelude::*;

verus! {

/// The length in units, with the terminator, that classic Windows paths have at most.
pub const MAX_PATH: usize = 260;

/// A path as a NUL-terminated wide string.
pub open spec fn wide_of(path: Seq<u16>) -> std::result::Result<Seq<u16>, ErrorView> {
    if path.contains(0) {
        Err(ErrorView::UnsupportedPath("embedded NUL"@))
    } else {
        Ok(path.push(0))
    }
}

/// Whether `units` holds a NUL.
pub fn contains_nul(units: &[u16]) -> (found: bool)
    ensures
        found == units@.contains(0),
{
    let mut i: usize = 0;
    while i < units.len()
        invariant
            i <= units@.len(),
            forall|k: int| 0 <= k < i ==> units@[k] != 0,
        decreases units@.len() - i,
    {
        if units[i] == 0 {
            assert(units@.contains(0));
            return true;
        }
        i += 1;
    }
    false
}

/// Terminate a path losslessly. Unpaired surrogates are valid path units.
pub fn wide(path: &[u16]) -> (result: Result<Vec<u16>>)
    ensures
        viewed(result) == wide_of(path@),
{
    if contains_nul(path) {
        return Err(Error::UnsupportedPath("embedded NUL"));
    }
    let mut units = copy_units(path);
    units.push(0);
    Ok(units)
}

/// What the file system says of a payload path.
pub enum Resolved {
    /// There is no such file.
    NotFound,
    /// The path could not be resolved for another reason.
    Failed(std::io::Error),
    /// The path names this canonical one.
    Found { path: Vec<u16>, is_file: bool },
}

/// The canonical path of a payload, given what the file system says of it.
pub open spec fn canonical_of(path: Seq<u16>, resolved: Resolved) -> std::result::Result<
    Seq<u16>,
    ErrorView,
> {
    match wide_of(path) {
        Err(fault) => Err(fault),
        Ok(_) => match resolved {
            Resolved::NotFound => Err(ErrorView::DllNotFound(path)),
            Resolved::Failed(source) => Err(
                ErrorView::Io { operation: "canonicalize DLL"@, path, source },
            ),
            Resolved::Found { path: found, is_file } => if is_file {
                Ok(found@)
            } else {
                Err(ErrorView::UnsupportedPath("payload is not a file"@))
            },
        },
    }
}

/// Accept the canonical path of a payload file.
pub fn canonical(path: &[u16], resolved: Resolved) -> (result: Result<Vec<u16>>)
    ensures
        viewed(result) == canonical_of(path@, resolved),
{
    match wide(path) {
        Err(error) => return Err(error),
        Ok(_) => {},
    }
    match resolved {
        Resolved::NotFound => Err(Error::DllNotFound(copy_units(path))),
        Resolved::Failed(source) => Err(file_io("canonicalize DLL", path, source)),
        Resolved::Found { path: found, is_file } => if is_file {
            Ok(found)
        } else {
            Err(Error::UnsupportedPath("payload is not a file"))
        },
    }
}

/// The spelling to compare a path by: the canonical one where there is one.
/// Windows case-sensitive directories retain their spelling.
pub fn normalized(path: &[u16], canonical: Option<Vec<u16>>) -> (units: Vec<u16>)
    ensures
        units@ == match canonical {
            Some(found) => found@,
            None => path@,
        },
{
    match canonical {
        Some(found) => found,
        None => copy_units(path),
    }
}

/// The verbatim prefix `\\?\`.
pub open spec fn verbatim_prefix() -> Seq<u16> {
    seq![92u16, 92, 63, 92]
}

/// The UNC marker `UNC\` behind a verbatim prefix.
pub open spec fn unc_prefix() -> Seq<u16> {
    seq![85u16, 78, 67, 92]
}

/// The path without its verbatim prefix.
pub open spec fn stripped(path: Seq<u16>) -> Seq<u16> {
    if verbatim_prefix().is_prefix_of(path) {
        path.skip(4)
    } else {
        path
    }
}

/// An ASCII letter.
pub open spec fn is_letter(unit: u16) -> bool {
    65 <= unit <= 90 || 97 <= unit <= 122
}

/// `X:\` or `X:/` for some drive letter.
pub open spec fn is_drive_absolute(path: Seq<u16>) -> bool {
    path.len() >= 3 && is_letter(path[0]) && path[1] == 58 && (path[2] == 92 || path[2] == 47)
}

/// The bytes of ASCII units.
pub open spec fn ascii_bytes(path: Seq<u16>) -> Seq<u8> {
    path.map_values(|unit: u16| unit as u8)
}

/// The module name that an import of `path` has.
pub open spec fn import_path_of(path: Seq<u16>) -> std::result::Result<Seq<u8>, ErrorView> {
    let local = stripped(path);
    if verbatim_prefix().is_prefix_of(path) && unc_prefix().is_prefix_of(local) {
        Err(ErrorView::UnsupportedPath("IAT UNC paths are unsupported"@))
    } else if local.len() >= MAX_PATH {
        Err(ErrorView::UnsupportedPath("IAT paths must fit MAX_PATH"@))
    } else if exists|i: int| 0 <= i < local.len() && (#[trigger] local[i] == 0 || local[i] > 127) {
        Err(
            ErrorView::UnsupportedPath(
                "IAT supports ASCII paths only; use LoadLibrary for Unicode"@,
            ),
        )
    } else if !is_drive_absolute(local) {
        Err(ErrorView::UnsupportedPath("IAT requires an absolute local drive path"@))
    } else {
        Ok(ascii_bytes(local))
    }
}

/// Whether `path` begins with these four units.
fn starts_with(path: &[u16], a: u16, b: u16, c: u16, d: u16) -> (yes: bool)
    ensures
        yes == seq![a, b, c, d].is_prefix_of(path@),
{
    let yes = path.len() >= 4 && path[0] == a && path[1] == b && path[2] == c && path[3] == d;
    proof {
        let prefix = seq![a, b, c, d];
        if yes {
            assert(prefix =~= path@.subrange(0, 4));
        } else if prefix.is_prefix_of(path@) {
            assert(prefix =~= path@.subrange(0, 4));
            assert(path@.subrange(0, 4)[0] == path@[0]);
            assert(path@.subrange(0, 4)[1] == path@[1]);
            assert(path@.subrange(0, 4)[2] == path@[2]);
            assert(path@.subrange(0, 4)[3] == path@[3]);
            assert(prefix[0] == a && prefix[1] == b && prefix[2] == c && prefix[3] == d);
        }
    }
    yes
}

/// IAT uses ASCII paths only. This is lossless for the supported PE import-name policy.
pub fn import_path(path: &[u16]) -> (result: Result<Vec<u8>>)
    ensures
        viewed(result) == import_path_of(path@),
{
    let verbatim = starts_with(path, 92, 92, 63, 92);
    let local: &[u16] = if verbatim {
        let len: usize = path.len();
        &path[4..len]
    } else {
        path
    };
    assert(local@ =~= stripped(path@));
    if verbatim && starts_with(local, 85, 78, 67, 92) {
        return Err(Error::UnsupportedPath("IAT UNC paths are unsupported"));
    }
    if local.len() >= MAX_PATH {
        return Err(Error::UnsupportedPath("IAT paths must fit MAX_PATH"));
    }
    let mut name: Vec<u8> = Vec::new();
    let mut i: usize = 0;
    while i < local.len()
        invariant
            i <= local@.len(),
            local@ == stripped(path@),
            verbatim == verbatim_prefix().is_prefix_of(path@),
            !(verbatim && unc_prefix().is_prefix_of(local@)),
            local@.len() < MAX_PATH,
            forall|k: int| 0 <= k < i ==> #[trigger] local@[k] != 0 && local@[k] <= 127,
            name@.len() == i,
            forall|k: int| 0 <= k < i ==> #[trigger] name@[k] == local@[k] as u8,
        decreases local@.len() - i,
    {
        let unit: u16 = local[i];
        if unit == 0 || unit > 127 {
            assert(local@[i as int] == 0 || local@[i as int] > 127);
            return Err(
                Error::UnsupportedPath(
                    "IAT supports ASCII paths only; use LoadLibrary for Unicode",
                ),
            );
        }
        name.push(unit as u8);
        i += 1;
    }
    if local.len() < 3 || !((65 <= local[0] && local[0] <= 90) || (97 <= local[0] && local[0]
        <= 122)) || local[1] != 58 || !(local[2] == 92 || local[2] == 47) {
        return Err(Error::UnsupportedPath("IAT requires an absolute local drive path"));
    }
    assert(name@ =~= ascii_bytes(local@));
    Ok(name)
}

/// An accepted import path keeps every unit of the path behind the verbatim
/// prefix, holds no NUL, and fits the path limit, so the import builder takes
/// it as a module name.
pub proof fn import_path_is_lossless(path: Seq<u16>, old: Seq<ImportDescriptor>)
    requires
        import_path_of(path) is Ok,
        old.len() <= 4096,
    ensures
        ({
            let name = import_path_of(path)->Ok_0;
            &&& name.len() == stripped(path).len()
            &&& forall|i: int|
                0 <= i < name.len() ==> #[trigger] name[i] == stripped(path)[i] && 0 < name[i]
                    <= 127
            &&& 3 <= name.len() < MAX_PATH
            &&& imports_fault(old, name, 0) is None
        }),
{
    let local = stripped(path);
    let name = ascii_bytes(local);
    assert forall|i: int| 0 <= i < name.len() implies #[trigger] name[i] == local[i] && 0 < name[i]
        <= 127 by {
        assert(!(local[i] == 0 || local[i] > 127));
    }
    assert(!name.contains(0)) by {
        if name.contains(0) {
            let i = choose|i: int| 0 <= i < name.len() && name[i] == 0;
            assert(name[i] == local[i]);
        }
    }
}

/// A wide string holds the path and exactly one NUL, at its end.
pub proof fn wide_has_one_nul(path: Seq<u16>)
    requires
        wide_of(path) is Ok,
    ensures
        ({
            let units = wide_of(path)->Ok_0;
            &&& units.len() == path.len() + 1
            &&& units.drop_last() == path
            &&& forall|i: int| 0 <= i < units.len() ==> (#[trigger] units[i] == 0 <==> i == units.len()
                - 1)
        }),
{
    let units = path.push(0);
    assert(units.drop_last() =~= path);
    assert forall|i: int| 0 <= i < units.len() implies (#[trigger] units[i] == 0 <==> i
        == units.len() - 1) by {
        if i < path.len() {
            assert(path[i] != 0) by {
                assert(!path.contains(0));
            }
        }
    }
}

} // verus!
