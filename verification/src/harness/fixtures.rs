//! Where the fixtures of a test run lie, and how they are built.

use crate::harness::scripts::{checkpoint_name, checkpoint_name_of, csharp_code, csharp_code_of};
use crate::text::{push_utf16, utf16_units};
use vstd::prelude::*;

verus! {

pub const SEPARATOR: u16 = 92;

/// The artifact directory of a build with or without debug assertions.
pub fn profile(debug_assertions: bool) -> (name: &'static str)
    ensures
        name@ == if debug_assertions {
            "debug"@
        } else {
            "release"@
        },
{
    if debug_assertions {
        "debug"
    } else {
        "release"
    }
}

/// What separates the components of a path.
pub open spec fn is_separator(unit: u16) -> bool {
    unit == 92 || unit == 47
}

/// A drive without a directory, such as `C:`.
pub open spec fn is_bare_drive(path: Seq<u16>) -> bool {
    path.len() == 2 && path[1] == 58 && (65 <= path[0] <= 90 || 97 <= path[0] <= 122)
}

/// The path of the file `name` in `dir`.
pub open spec fn joined(dir: Seq<u16>, name: Seq<u16>) -> Seq<u16> {
    if dir.len() == 0 || is_separator(dir.last()) || is_bare_drive(dir) {
        dir + name
    } else {
        dir.push(SEPARATOR) + name
    }
}

/// The path of the file `name` in `dir`.
pub fn join(dir: &[u16], name: &str) -> (path: Vec<u16>)
    ensures
        path@ == joined(dir@, utf16_units(name@)),
{
    let mut path: Vec<u16> = Vec::new();
    path.extend_from_slice(dir);
    assert(path@ =~= dir@);
    let len: usize = dir.len();
    if len > 0 {
        let last: u16 = dir[len - 1];
        let bare = len == 2 && dir[1] == 58 && ((65 <= dir[0] && dir[0] <= 90) || (97 <= dir[0]
            && dir[0] <= 122));
        if last != 92 && last != 47 && !bare {
            path.push(SEPARATOR);
        }
    }
    push_utf16(&mut path, name);
    path
}

/// The fixture artifacts and the workspace that they were built from.
#[derive(Debug)]
pub struct Fixtures {
    pub payload: Vec<u16>,
    pub rust_target: Vec<u16>,
    pub entry: Vec<u16>,
    pub noimport: Vec<u16>,
    pub workspace: Vec<u16>,
}

/// The fixtures in an artifact directory.
pub fn fixtures(target_dir: &[u16], workspace: Vec<u16>) -> (found: Fixtures)
    ensures
        found.payload@ == joined(target_dir@, utf16_units("test_payload.dll"@)),
        found.rust_target@ == joined(target_dir@, utf16_units("test_target.exe"@)),
        found.entry@ == joined(target_dir@, utf16_units("test_target_entry.exe"@)),
        found.noimport@ == joined(target_dir@, utf16_units("test_target_noimport.exe"@)),
        found.workspace == workspace,
{
    Fixtures {
        payload: join(target_dir, "test_payload.dll"),
        rust_target: join(target_dir, "test_target.exe"),
        entry: join(target_dir, "test_target_entry.exe"),
        noimport: join(target_dir, "test_target_noimport.exe"),
        workspace,
    }
}

/// The file that the target `pid` writes to `dir` once its main code runs.
pub fn checkpoint_path(dir: &[u16], pid: u32) -> (path: Vec<u16>)
    ensures
        path@ == joined(dir@, utf16_units(checkpoint_name_of(pid))),
{
    let name = checkpoint_name(pid);
    join(dir, name.as_str())
}

/// Where the name of the file begins: behind the last separator.
pub open spec fn name_start(path: Seq<u16>) -> int
    decreases path.len(),
{
    if path.len() == 0 || is_separator(path.last()) {
        path.len() as int
    } else {
        name_start(path.drop_last())
    }
}

/// The path of another file in the same directory. `path` is that of a file, so
/// it does not end in a separator.
pub fn with_file_name(path: &[u16], name: &str) -> (other: Vec<u16>)
    ensures
        other@ == path@.take(name_start(path@)) + utf16_units(name@),
{
    let mut i: usize = path.len();
    assert(path@.take(i as int) =~= path@);
    while i > 0 && path[i - 1] != 92 && path[i - 1] != 47
        invariant
            i <= path@.len(),
            name_start(path@.take(i as int)) == name_start(path@),
        decreases i,
    {
        assert(path@.take(i as int).last() == path@[i - 1]);
        assert(path@.take(i as int).drop_last() =~= path@.take(i - 1));
        i -= 1;
    }
    proof {
        if i > 0 {
            assert(path@.take(i as int).last() == path@[i - 1]);
        }
    }
    let mut other: Vec<u16> = Vec::new();
    other.extend_from_slice(&path[0..i]);
    assert(other@ =~= path@.take(name_start(path@)));
    push_utf16(&mut other, name);
    other
}

/// Where the mixed-mode fixture lies beside the Rust target.
pub fn mixed_path(rust_target: &[u16]) -> (path: Vec<u16>)
    ensures
        path@ == rust_target@.take(name_start(rust_target@)) + utf16_units(
            "test_target_mixed.exe"@,
        ),
{
    with_file_name(rust_target, "test_target_mixed.exe")
}

/// The mixed-mode fixture, if it was built.
pub fn mixed_target(rust_target: &[u16], is_file: bool) -> (found: Option<Vec<u16>>)
    ensures
        is_file ==> (found matches Some(path) && path@ == rust_target@.take(
            name_start(rust_target@),
        ) + utf16_units("test_target_mixed.exe"@)),
        !is_file ==> found is None,
{
    if is_file {
        Some(mixed_path(rust_target))
    } else {
        None
    }
}

/// How a managed fixture is compiled.
#[derive(Debug)]
pub struct ManagedBuild {
    /// The file name of its source.
    pub source: String,
    /// The file name of the program.
    pub exe: String,
    pub code: String,
    /// The compiler option that selects the platform.
    pub platform: String,
}

/// `build` compiles the managed fixture for `platform` that writes to `dir`.
pub open spec fn builds(build: ManagedBuild, dir: Seq<char>, platform: Seq<char>) -> bool {
    &&& build.source@ == "stork_csharp_"@ + platform + ".cs"@
    &&& build.exe@ == "stork_csharp_"@ + platform + ".exe"@
    &&& build.code@ == csharp_code_of(dir)
    &&& build.platform@ == "/platform:"@ + platform
}

fn managed_build(dir: &str, platform: &str) -> (build: ManagedBuild)
    ensures
        builds(build, dir@, platform@),
{
    let mut source = "stork_csharp_".to_owned();
    source.append(platform);
    source.append(".cs");
    let mut exe = "stork_csharp_".to_owned();
    exe.append(platform);
    exe.append(".exe");
    let mut option = "/platform:".to_owned();
    option.append(platform);
    ManagedBuild { source, exe, code: csharp_code(dir), platform: option }
}

/// The AnyCPU managed fixture, where the host has a compiler. Only a missing
/// compiler permits a skip.
pub fn csharp_target(compiler_found: bool, dir: &str) -> (build: Option<ManagedBuild>)
    ensures
        compiler_found ==> (build matches Some(build) && builds(build, dir@, "anycpu"@)),
        !compiler_found ==> build is None,
{
    if compiler_found {
        Some(managed_build(dir, "anycpu"))
    } else {
        None
    }
}

/// The AMD64 managed fixture, which needs no PE32 conversion.
pub fn csharp_target_x64(compiler_found: bool, dir: &str) -> (build: Option<ManagedBuild>)
    ensures
        compiler_found ==> (build matches Some(build) && builds(build, dir@, "x64"@)),
        !compiler_found ==> build is None,
{
    if compiler_found {
        Some(managed_build(dir, "x64"))
    } else {
        None
    }
}

/// The artifact directory of a test run, taken apart.
#[derive(Debug)]
pub struct TargetDir {
    /// The name of the directory itself.
    pub profile: Vec<u16>,
    /// The directory above it, and its name where it has one.
    pub parent: Vec<u16>,
    pub parent_name: Option<Vec<u16>>,
    /// The directory above that, where there is one.
    pub root: Option<Vec<u16>>,
}

/// The beginning of every target triple that the fixtures are built for.
pub open spec fn triple_prefix() -> Seq<u16> {
    utf16_units("x86_64-"@)
}

/// The directory above the profile is that of a target triple.
pub open spec fn has_triple(dir: TargetDir) -> bool {
    dir.parent_name matches Some(name) && triple_prefix().is_prefix_of(name@)
}

/// How Cargo calls the profile of an artifact directory.
pub open spec fn profile_argument(name: Seq<u16>) -> Seq<u16> {
    if name == utf16_units("debug"@) {
        utf16_units("dev"@)
    } else {
        name
    }
}

/// The arguments that make Cargo build the fixtures into an artifact directory.
pub open spec fn build_arguments_of(dir: TargetDir) -> Seq<Seq<u16>> {
    let start = seq![
        utf16_units("build"@),
        utf16_units("--locked"@),
        utf16_units("-p"@),
        utf16_units("test-payload"@),
        utf16_units("-p"@),
        utf16_units("test-target"@),
        utf16_units("--profile"@),
        profile_argument(dir.profile@),
    ];
    if has_triple(dir) {
        start + seq![
            utf16_units("--target"@),
            dir.parent_name->0@,
            utf16_units("--target-dir"@),
            dir.root->0@,
        ]
    } else {
        start + seq![utf16_units("--target-dir"@), dir.parent@]
    }
}

/// The views of arguments in a row.
pub open spec fn argument_views(arguments: Seq<Vec<u16>>) -> Seq<Seq<u16>> {
    arguments.map_values(|argument: Vec<u16>| argument@)
}

fn units(text: &str) -> (found: Vec<u16>)
    ensures
        found@ == utf16_units(text@),
{
    let mut found: Vec<u16> = Vec::new();
    push_utf16(&mut found, text);
    assert(found@ =~= utf16_units(text@));
    found
}

fn is_prefix(prefix: &[u16], of: &[u16]) -> (yes: bool)
    ensures
        yes == prefix@.is_prefix_of(of@),
{
    if prefix.len() > of.len() {
        return false;
    }
    let mut i: usize = 0;
    while i < prefix.len()
        invariant
            i <= prefix@.len() <= of@.len(),
            forall|k: int| 0 <= k < i ==> #[trigger] prefix@[k] == of@[k],
        decreases prefix@.len() - i,
    {
        if prefix[i] != of[i] {
            proof {
                if prefix@.is_prefix_of(of@) {
                    assert(prefix@ == of@.subrange(0, prefix@.len() as int));
                    assert(of@.subrange(0, prefix@.len() as int)[i as int] == of@[i as int]);
                }
            }
            return false;
        }
        i += 1;
    }
    assert(prefix@ =~= of@.subrange(0, prefix@.len() as int));
    true
}

/// The arguments that make Cargo build the fixtures into an artifact
/// directory, a custom one too.
pub fn build_arguments(dir: TargetDir) -> (arguments: Vec<Vec<u16>>)
    requires
        has_triple(dir) ==> dir.root is Some,
    ensures
        argument_views(arguments@) == build_arguments_of(dir),
{
    let debug = units("debug");
    let same = debug.len() == dir.profile.len() && is_prefix(&debug, &dir.profile);
    proof {
        if same {
            assert(debug@ =~= dir.profile@);
        } else if debug@ == dir.profile@ {
            assert(debug@ =~= dir.profile@.subrange(0, debug@.len() as int));
        }
    }
    let triple = match &dir.parent_name {
        Some(name) => is_prefix(&units("x86_64-"), name),
        None => false,
    };
    let ghost given = dir;
    let mut arguments: Vec<Vec<u16>> = Vec::new();
    arguments.push(units("build"));
    arguments.push(units("--locked"));
    arguments.push(units("-p"));
    arguments.push(units("test-payload"));
    arguments.push(units("-p"));
    arguments.push(units("test-target"));
    arguments.push(units("--profile"));
    arguments.push(
        if same {
            units("dev")
        } else {
            dir.profile
        },
    );
    match (triple, dir.parent_name, dir.root) {
        (true, Some(name), Some(root)) => {
            arguments.push(units("--target"));
            arguments.push(name);
            arguments.push(units("--target-dir"));
            arguments.push(root);
        },
        _ => {
            arguments.push(units("--target-dir"));
            arguments.push(dir.parent);
        },
    }
    assert(argument_views(arguments@) =~= build_arguments_of(given));
    arguments
}

/// How a wait for a file goes on.
#[derive(Debug, Clone, Copy, PartialEq, Eq, Structural)]
pub enum FileWait {
    Found,
    TimedOut,
    Sleep,
}

/// Poll for a file with a bounded wait, in milliseconds.
pub fn wait_for_file(is_file: bool, elapsed: u64, timeout: u64) -> (wait: FileWait)
    ensures
        wait == if is_file {
            FileWait::Found
        } else if elapsed >= timeout {
            FileWait::TimedOut
        } else {
            FileWait::Sleep
        },
{
    if is_file {
        FileWait::Found
    } else if elapsed >= timeout {
        FileWait::TimedOut
    } else {
        FileWait::Sleep
    }
}

} // verus!
