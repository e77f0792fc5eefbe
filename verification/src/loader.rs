//! Finding extensions on disk: which directories are searched, which entry
//! is loaded, which icon is tried, and when a script is refused.

use vstd::prelude::*;
use crate::error::{HagitoriError, Result};
use crate::manifest::ExtensionManifest;
use crate::text::{chars_of, push_str, trim, trim_string};

verus! {

/// Deepest directory level searched for extensions (the root is level 0).
pub const MAX_SCAN_DEPTH: usize = 4;

/// Whether a directory at `depth` is searched.
pub fn may_scan(depth: usize) -> (b: bool)
    ensures
        b == (depth <= MAX_SCAN_DEPTH),
{
    depth <= MAX_SCAN_DEPTH
}

/// What the search does with one directory entry.
#[derive(Debug, Clone, Copy, PartialEq, Eq, Structural)]
pub enum ScanStep {
    /// Not a directory, or a hidden one: passed over.
    Skip,
    /// A directory holding `package.json`: an extension to load.
    Load,
    /// Any other directory: searched one level deeper.
    Descend,
}

/// What the search does with an entry: files and directories whose name
/// starts with `.` are passed over, a directory with `package.json` is
/// loaded, any other directory is searched.
pub fn scan_step(is_dir: bool, name: Option<&str>, has_manifest: bool) -> (r: ScanStep)
    ensures
        !is_dir ==> r == ScanStep::Skip,
        is_dir && (name matches Some(n) && n@.len() > 0 && n@[0] == '.') ==> r == ScanStep::Skip,
        is_dir && !(name matches Some(n) && n@.len() > 0 && n@[0] == '.') ==> r == (if has_manifest {
            ScanStep::Load
        } else {
            ScanStep::Descend
        }),
{
    if !is_dir {
        return ScanStep::Skip;
    }
    match name {
        Some(n) => {
            let v = chars_of(n);
            if v.len() > 0 && v[0] == '.' {
                return ScanStep::Skip;
            }
        },
        None => {},
    }
    if has_manifest {
        ScanStep::Load
    } else {
        ScanStep::Descend
    }
}

/// Icon files tried for an extension, in order: the one its manifest
/// names, then `icon.png`.
pub fn icon_candidates(manifest: &ExtensionManifest) -> (r: Vec<String>)
    ensures
        match manifest.hagitori.icon {
            Some(i) => r@.len() == 2 && r@[0]@ == i@ && r@[1]@ == "icon.png"@,
            None => r@.len() == 1 && r@[0]@ == "icon.png"@,
        },
{
    let mut r: Vec<String> = Vec::new();
    match &manifest.hagitori.icon {
        Some(i) => r.push(i.clone()),
        None => {},
    }
    r.push("icon.png".to_owned());
    r
}

/// An extension error carrying `prefix`, `a`, `middle` and `b`.
fn quoted_error(prefix: &str, a: &str, middle: &str, b: &str) -> (e: HagitoriError)
    ensures
        e matches HagitoriError::Extension(m) && m@ == prefix@ + a@ + middle@ + b@,
{
    let mut m = String::new();
    push_str(&mut m, prefix);
    push_str(&mut m, a);
    push_str(&mut m, middle);
    push_str(&mut m, b);
    HagitoriError::extension(m.as_str())
}

/// The error when a manifest's entry point is missing.
pub fn missing_entry_point(entry: &str, dir: &str) -> (e: HagitoriError)
    ensures
        e matches HagitoriError::Extension(m) && m@ == "entry point '"@ + entry@ + "' not found in "@ + dir@,
{
    quoted_error("entry point '", entry, "' not found in ", dir)
}

/// The error when a directory has no `package.json`.
pub fn missing_manifest(dir: &str) -> (e: HagitoriError)
    ensures
        e matches HagitoriError::Extension(m) && m@ == "package.json not found in "@ + dir@,
{
    proof {
        reveal_strlit("");
        assert("package.json not found in "@ + dir@ + ""@ + ""@ =~= "package.json not found in "@ + dir@);
    }
    quoted_error("package.json not found in ", dir, "", "")
}

/// The error when `package.json` cannot be read (`stage` is `read`) or
/// parsed (`stage` is anything else).
pub fn manifest_error(read_failed: bool, dir: &str, detail: &str) -> (e: HagitoriError)
    ensures
        read_failed ==> (e matches HagitoriError::Extension(m) && m@ == "failed to read package.json in "@
            + dir@ + ": "@ + detail@),
        !read_failed ==> (e matches HagitoriError::Extension(m) && m@ == "invalid package.json in "@ + dir@
            + ": "@ + detail@),
{
    if read_failed {
        quoted_error("failed to read package.json in ", dir, ": ", detail)
    } else {
        quoted_error("invalid package.json in ", dir, ": ", detail)
    }
}

/// A script is refused when it holds nothing but whitespace.
pub fn check_script(script: &str, script_path: &str) -> (r: Result<()>)
    ensures
        trim(script@).len() > 0 <==> r is Ok,
        r matches Err(e) ==> (e matches HagitoriError::Extension(m) && m@ == "script '"@ + script_path@
            + "' is empty"@),
{
    let t = trim_string(script);
    if t.as_str().is_empty() {
        proof {
            reveal_strlit("");
            assert("script '"@ + script_path@ + "' is empty"@ + ""@ =~= "script '"@ + script_path@ + "' is empty"@);
        }
        return Err(quoted_error("script '", script_path, "' is empty", ""));
    }
    Ok(())
}

} // verus!
