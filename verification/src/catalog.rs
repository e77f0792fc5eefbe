//! Remote extension catalog entries and installed-extension records.

use vstd::prelude::*;
use crate::text::{
    chars_of, free_of, join, join_chars, lemma_split_append, lemma_split_free,
    lemma_split_nonempty, lemma_split_pieces_free, split, split_chars, string_of,
};

verus! {

/// The whole `catalog.json` of an extensions repository.
#[derive(Debug, Clone, PartialEq, Eq)]
pub struct ExtensionCatalog {
    pub version: u32,
    pub updated_at: String,
    pub repo: String,
    pub branch: String,
    pub extensions: Vec<CatalogEntry>,
}

/// One extension listed in the catalog.
#[derive(Debug, Clone, PartialEq, Eq)]
pub struct CatalogEntry {
    pub id: String,
    pub name: String,
    pub lang: String,
    pub version_id: u32,
    /// Path from the repository root (e.g. `builds/en/mangadex`).
    pub path: String,
    pub entry: String,
    pub requires: Vec<String>,
    pub icon: Option<String>,
    pub domains: Vec<String>,
    pub features: Vec<String>,
    pub supports_details: bool,
    pub languages: Vec<String>,
    /// File name and SHA-256 hex pairs for integrity checks.
    pub files: Vec<(String, String)>,
    pub min_app_version: Option<String>,
}

/// The `<lang>/<name>` part of a catalog path: its last two `/`-separated
/// segments when it has more than two, the whole path otherwise.
pub open spec fn relative_path_of(p: Seq<char>) -> Seq<char> {
    let parts = split(p, '/');
    if parts.len() > 2 {
        join(parts.subrange(parts.len() - 2, parts.len() as int), seq!['/'])
    } else {
        p
    }
}

proof fn lemma_join_two(a: Seq<char>, b: Seq<char>, sep: Seq<char>)
    ensures
        join(seq![a, b], sep) == a + sep + b,
{
    assert(seq![a, b].drop_last() =~= seq![a]);
    assert(join(seq![a], sep) == a);
    assert(seq![a, b].last() == b);
}

impl CatalogEntry {
    /// The `<lang>/<ext_name>` part of `path`, without any repository-level
    /// prefix (`builds/en/mangadex` gives `en/mangadex`).
    pub fn relative_path(&self) -> (r: String)
        ensures
            r@ == relative_path_of(self.path@),
    {
        let v = chars_of(self.path.as_str());
        let parts = split_chars(&v, '/');
        let n = parts.len();
        if n > 2 {
            let mut last_two: Vec<Vec<char>> = Vec::new();
            last_two.push(parts[n - 2].clone());
            last_two.push(parts[n - 1].clone());
            let sep: Vec<char> = vec!['/'];
            let joined = join_chars(&last_two, &sep);
            let ghost ps = split(v@, '/');
            assert(Seq::new(last_two@.len(), |k: int| last_two@[k]@) =~= ps.subrange(
                ps.len() - 2,
                ps.len() as int,
            ));
            assert(sep@ =~= seq!['/']);
            string_of(&joined)
        } else {
            self.path.clone()
        }
    }
}

/// The relative path keeps only the last two segments of a path: its
/// segments are the path's last two, or all of them when there are fewer.
pub proof fn lemma_relative_path_last_two(p: Seq<char>)
    ensures
        ({
            let parts = split(p, '/');
            split(relative_path_of(p), '/') == if parts.len() > 2 {
                parts.subrange(parts.len() - 2, parts.len() as int)
            } else {
                parts
            }
        }),
        split(relative_path_of(p), '/').len() <= 2,
{
    let parts = split(p, '/');
    if parts.len() > 2 {
        let a = parts[parts.len() - 2];
        let b = parts[parts.len() - 1];
        assert(parts.subrange(parts.len() - 2, parts.len() as int) =~= seq![a, b]);
        lemma_join_two(a, b, seq!['/']);
        lemma_split_pieces_free(p, '/');
        assert(free_of(a, '/'));
        assert(free_of(b, '/'));
        lemma_split_append(a, b, '/');
        lemma_split_free(a, '/');
        assert(split(a + seq!['/'] + b, '/') =~= seq![a, b]);
    }
}

/// Taking the relative path twice gives the same as taking it once.
pub proof fn lemma_relative_path_idempotent(p: Seq<char>)
    ensures
        relative_path_of(relative_path_of(p)) == relative_path_of(p),
{
    lemma_relative_path_last_two(p);
}

/// Result of comparing an installed version with the catalog's.
#[derive(Debug, Clone, Copy, PartialEq, Eq)]
pub enum ExtensionSyncStatus {
    NotInstalled,
    UpToDate,
    UpdateAvailable,
    /// The installed version is newer than the catalog's.
    LocalNewer,
    /// Installed, but no longer listed in the catalog.
    Orphaned,
}

/// An installed extension as recorded locally.
#[derive(Debug, Clone, PartialEq, Eq)]
pub struct InstalledExtension {
    pub extension_id: String,
    pub name: String,
    pub version_id: u32,
    pub lang: String,
    pub source_repo: Option<String>,
    pub source_branch: Option<String>,
    pub source_path: Option<String>,
    pub installed_at: String,
    pub updated_at: Option<String>,
    pub auto_update: bool,
}

/// Synchronisation information about one extension.
#[derive(Debug, Clone, PartialEq, Eq)]
pub struct ExtensionUpdateInfo {
    pub id: String,
    pub name: String,
    pub lang: String,
    pub local_version_id: Option<u32>,
    pub remote_version_id: u32,
    pub status: ExtensionSyncStatus,
    pub domains: Vec<String>,
    pub features: Vec<String>,
    pub icon_url: Option<String>,
}

} // verus!
