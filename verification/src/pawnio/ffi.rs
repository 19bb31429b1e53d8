//! What goes into and comes out of `PawnIOLib.dll`.
//!
//! The library is installed by a separate driver package, not on the search path, so its
//! full path has to be worked out.
use vstd::prelude::*;

use crate::text::{chars_of, eq_text, slice_of, string_of};
use crate::win::{WinError, WinResult};

verus! {

pub const PAWNIO_DLL: &'static str = "PawnIOLib.dll";

/// Where the installer records its install directory.
pub const PAWNIO_UNINSTALL_KEY: &'static str =
    "SOFTWARE\\Microsoft\\Windows\\CurrentVersion\\Uninstall\\PawnIO";

/// A directory without the backslashes at its end.
pub open spec fn without_trailing_backslashes(dir: Seq<char>) -> Seq<char>
    decreases dir.len(),
{
    if dir.len() > 0 && dir.last() == '\\' {
        without_trailing_backslashes(dir.drop_last())
    } else {
        dir
    }
}

fn trim_backslashes(dir: &str) -> (r: String)
    ensures
        r@ == without_trailing_backslashes(dir@),
{
    let chars = chars_of(dir);
    let mut n = chars.len();
    assert(chars@.take(n as int) == chars@);
    while n > 0 && chars[n - 1] == '\\'
        invariant
            n <= chars.len(),
            chars@ == dir@,
            without_trailing_backslashes(dir@) == without_trailing_backslashes(
                chars@.take(n as int),
            ),
        decreases n,
    {
        assert(chars@.take(n as int).drop_last() == chars@.take(n - 1));
        n = n - 1;
    }
    assert(chars@.subrange(0, n as int) == chars@.take(n as int));
    string_of(slice_of(&chars, 0, n))
}

/// The library under the directory that the installer recorded.
pub open spec fn installed_path(dir: Seq<char>) -> Seq<char> {
    without_trailing_backslashes(dir) + "\\"@ + PAWNIO_DLL@
}

/// The library under the directory for programs.
pub open spec fn program_files_path(dir: Seq<char>) -> Seq<char> {
    without_trailing_backslashes(dir) + "\\PawnIO\\"@ + PAWNIO_DLL@
}

/// Candidate full paths, best source first; one path is not listed twice.
pub open spec fn candidates(install: Option<Seq<char>>, program_files: Option<Seq<char>>) -> Seq<
    Seq<char>,
> {
    match (install, program_files) {
        (Some(i), Some(p)) => if installed_path(i) == program_files_path(p) {
            seq![installed_path(i)]
        } else {
            seq![installed_path(i), program_files_path(p)]
        },
        (Some(i), None) => seq![installed_path(i)],
        (None, Some(p)) => seq![program_files_path(p)],
        (None, None) => seq![],
    }
}

/// Candidate full paths to `PawnIOLib.dll`, best source first: the directory that the
/// installer recorded, then the usual place under the directory for programs.
pub fn candidate_paths(install: &Option<String>, program_files: &Option<String>) -> (r: Vec<String>)
    ensures
        r.deep_view() == candidates(install.deep_view(), program_files.deep_view()),
{
    let mut paths: Vec<String> = Vec::new();
    if let Some(dir) = install {
        paths.push(trim_backslashes(dir.as_str()).concat("\\").concat(PAWNIO_DLL));
    }
    if let Some(dir) = program_files {
        let path = trim_backslashes(dir.as_str()).concat("\\PawnIO\\").concat(PAWNIO_DLL);
        if paths.len() == 0 || !eq_text(paths[0].as_str(), path.as_str()) {
            paths.push(path);
        }
    }
    assert(paths.deep_view() == candidates(install.deep_view(), program_files.deep_view()));
    paths
}

/// The parts of a version: `(major << 16) | (minor << 8) | patch`.
pub open spec fn version_of(raw: u32) -> (u8, u8, u8) {
    (((raw >> 16) & 0xFF) as u8, ((raw >> 8) & 0xFF) as u8, (raw & 0xFF) as u8)
}

/// The parts of a version.
pub fn version_parts(raw: u32) -> (r: (u8, u8, u8))
    ensures
        r == version_of(raw),
{
    (((raw >> 16) & 0xFF) as u8, ((raw >> 8) & 0xFF) as u8, (raw & 0xFF) as u8)
}

/// The error code that a failed call carries: failures that wrap a Win32 code have it in the
/// low word; anything else is the raw result, so that it can still be searched for.
pub open spec fn failure_code(raw: u32) -> u32 {
    if raw >> 16 == 0x8007 {
        raw & 0xFFFF
    } else {
        raw
    }
}

/// Judge the result of a call: a negative result is a failure.
pub fn hr_result(hr: i32, context: &'static str) -> (r: WinResult<()>)
    ensures
        r == if hr >= 0 {
            Ok::<(), WinError>(())
        } else {
            Err(WinError { context, code: failure_code(hr as u32) })
        },
{
    if hr >= 0 {
        return Ok(());
    }
    let raw: u32 = hr as u32;
    let code: u32 = if (raw >> 16) == 0x8007 {
        raw & 0xFFFF
    } else {
        raw
    };
    Err(WinError::new(context, code))
}

// ---------------------------------------------------------------------------
// Laws
// ---------------------------------------------------------------------------

/// Every candidate is a path to the library itself.
pub proof fn candidates_name_the_library(
    install: Option<Seq<char>>,
    program_files: Option<Seq<char>>,
    i: int,
)
    requires
        0 <= i < candidates(install, program_files).len(),
    ensures
        exists|dir: Seq<char>|
            candidates(install, program_files)[i] == #[trigger] (dir + "\\"@) + PAWNIO_DLL@,
{
    reveal_strlit("\\");
    reveal_strlit("\\PawnIO\\");
    let path = candidates(install, program_files)[i];
    if install is Some && path == installed_path(install->0) {
        let dir = without_trailing_backslashes(install->0);
        assert(path == (dir + "\\"@) + PAWNIO_DLL@);
    } else {
        let head = without_trailing_backslashes(program_files->0);
        let dir = head + "\\PawnIO\\"@.drop_last();
        assert(dir + "\\"@ == head + "\\PawnIO\\"@);
        assert(path == (dir + "\\"@) + PAWNIO_DLL@);
    }
}

/// A directory loses the backslashes at its end and nothing else.
pub proof fn only_backslashes_are_cut_off(dir: Seq<char>)
    ensures
        ({
            let r = without_trailing_backslashes(dir);
            &&& r.len() <= dir.len()
            &&& r == dir.take(r.len() as int)
            &&& r.len() > 0 ==> r[r.len() - 1] != '\\'
            &&& forall|k: int| r.len() <= k < dir.len() ==> #[trigger] dir[k] == '\\'
        }),
    decreases dir.len(),
{
    if dir.len() > 0 && dir.last() == '\\' {
        let head = dir.drop_last();
        only_backslashes_are_cut_off(head);
        let r = without_trailing_backslashes(dir);
        assert(r == head.take(r.len() as int));
        assert forall|k: int| r.len() <= k < dir.len() implies #[trigger] dir[k] == '\\' by {
            if k < head.len() {
                assert(dir[k] == head[k]);
            }
        }
    }
}

/// The paths that are tried: the recorded directory first and the usual place behind it, each once
/// and no other.
pub proof fn the_recorded_directory_comes_first(
    install: Option<Seq<char>>,
    program_files: Option<Seq<char>>,
)
    ensures
        ({
            let c = candidates(install, program_files);
            &&& install matches Some(i) ==> c.len() > 0 && c[0] == without_trailing_backslashes(i)
                + "\\"@ + "PawnIOLib.dll"@
            &&& program_files matches Some(p) ==> c.len() > 0 && c[c.len() - 1]
                == without_trailing_backslashes(p) + "\\PawnIO\\"@ + "PawnIOLib.dll"@
            &&& c.no_duplicates()
            &&& c.len() <= (if install is Some {
                1int
            } else {
                0
            }) + (if program_files is Some {
                1int
            } else {
                0
            })
        }),
{
}

/// A version is one byte for each of its parts, the major one third from below.
pub proof fn a_version_has_a_byte_for_each_part(raw: u32)
    requires
        raw < 0x100_0000,
    ensures
        ({
            let (major, minor, patch) = version_of(raw);
            65536 * major + 256 * minor + patch == raw
        }),
{
    assert(raw < 0x100_0000 ==> 65536 * (((raw >> 16) & 0xFF) as u8) + 256 * (((raw >> 8) & 0xFF) as
        u8) + ((raw & 0xFF) as u8) == raw) by (bit_vector);
}

/// The code of a failure: the lower half of one whose upper half is 0x8007, and any other as it is.
pub proof fn wrapped_codes_are_unwrapped(raw: u32)
    ensures
        raw as int / 65536 == 0x8007 ==> failure_code(raw) == raw as int % 65536,
        raw as int / 65536 != 0x8007 ==> failure_code(raw) == raw,
{
    assert(raw >> 16 == raw / 65536 && raw & 0xFFFF == raw % 65536) by (bit_vector);
}

} // verus!
