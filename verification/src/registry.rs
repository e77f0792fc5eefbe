//! The registry of installed extensions: what is kept per extension, what
//! a catalog installation changes, and in what order extensions are listed.
//!
//! `ExtensionRegistry` here is an in-memory model of the registry's rules;
//! the registry that runs is the SQLite store in the application layer,
//! which applies the same `merge_installation` and `register_catalog` and
//! lists by name with SQL.

use vstd::prelude::*;
use crate::catalog::InstalledExtension;
use crate::config::catalog_installation;
use crate::text::{chars_of, str_eq};

verus! {

/// The record after installing `ext` over `existing`: a new record is kept
/// as given; a known one takes the new name, version, language, source and
/// update time, and keeps its install time and automatic-update choice.
pub open spec fn merged(existing: Option<InstalledExtension>, ext: InstalledExtension) -> InstalledExtension {
    match existing {
        None => ext,
        Some(old) => InstalledExtension {
            extension_id: ext.extension_id,
            name: ext.name,
            version_id: ext.version_id,
            lang: ext.lang,
            source_repo: ext.source_repo,
            source_branch: ext.source_branch,
            source_path: ext.source_path,
            installed_at: old.installed_at,
            updated_at: ext.updated_at,
            auto_update: old.auto_update,
        },
    }
}

/// Installing the same record twice changes nothing the second time.
pub proof fn lemma_merge_idempotent(existing: Option<InstalledExtension>, ext: InstalledExtension)
    ensures
        merged(Some(merged(existing, ext)), ext) == merged(existing, ext),
{
}

/// The record `ext` becomes when installed over `existing`.
pub fn merge_installation(existing: Option<&InstalledExtension>, ext: &InstalledExtension) -> (r: InstalledExtension)
    ensures
        r == merged(
            match existing {
                Some(e) => Some(*e),
                None => None,
            },
            *ext,
        ),
{
    match existing {
        None => ext.clone_record(),
        Some(old) => InstalledExtension {
            extension_id: ext.extension_id.clone(),
            name: ext.name.clone(),
            version_id: ext.version_id,
            lang: ext.lang.clone(),
            source_repo: ext.source_repo.clone(),
            source_branch: ext.source_branch.clone(),
            source_path: ext.source_path.clone(),
            installed_at: old.installed_at.clone(),
            updated_at: ext.updated_at.clone(),
            auto_update: old.auto_update,
        },
    }
}

impl InstalledExtension {
    /// A copy of the record.
    pub fn clone_record(&self) -> (r: Self)
        ensures
            r == *self,
    {
        InstalledExtension {
            extension_id: self.extension_id.clone(),
            name: self.name.clone(),
            version_id: self.version_id,
            lang: self.lang.clone(),
            source_repo: self.source_repo.clone(),
            source_branch: self.source_branch.clone(),
            source_path: self.source_path.clone(),
            installed_at: self.installed_at.clone(),
            updated_at: self.updated_at.clone(),
            auto_update: self.auto_update,
        }
    }
}

/// The record of extension `id`, if any.
pub open spec fn lookup(rs: Seq<InstalledExtension>, id: Seq<char>) -> Option<InstalledExtension>
    decreases rs.len(),
{
    if rs.len() == 0 {
        None
    } else if rs[0].extension_id@ == id {
        Some(rs[0])
    } else {
        lookup(rs.drop_first(), id)
    }
}

/// No extension is recorded twice.
pub open spec fn unique_ids(rs: Seq<InstalledExtension>) -> bool {
    forall|i: int, j: int| 0 <= i < j < rs.len() ==> (#[trigger] rs[i]).extension_id@ != (#[trigger] rs[j]).extension_id@
}

proof fn lemma_lookup_at(rs: Seq<InstalledExtension>, i: int)
    requires
        unique_ids(rs),
        0 <= i < rs.len(),
    ensures
        lookup(rs, rs[i].extension_id@) == Some(rs[i]),
    decreases i,
{
    if i > 0 {
        assert(rs[0].extension_id@ != rs[i].extension_id@);
        assert(rs.drop_first()[i - 1] == rs[i]);
        assert(unique_ids(rs.drop_first())) by {
            assert forall|a: int, b: int| 0 <= a < b < rs.drop_first().len() implies (#[trigger] rs.drop_first()[a]).extension_id@
                != (#[trigger] rs.drop_first()[b]).extension_id@ by {
                assert(rs.drop_first()[a] == rs[a + 1]);
                assert(rs.drop_first()[b] == rs[b + 1]);
            }
        }
        lemma_lookup_at(rs.drop_first(), i - 1);
    }
}

proof fn lemma_lookup_absent(rs: Seq<InstalledExtension>, id: Seq<char>)
    requires
        forall|k: int| 0 <= k < rs.len() ==> (#[trigger] rs[k]).extension_id@ != id,
    ensures
        lookup(rs, id) is None,
    decreases rs.len(),
{
    if rs.len() > 0 {
        assert forall|k: int| 0 <= k < rs.drop_first().len() implies (#[trigger] rs.drop_first()[k]).extension_id@ != id by {
            assert(rs.drop_first()[k] == rs[k + 1]);
        }
        lemma_lookup_absent(rs.drop_first(), id);
    }
}

/// Under unique ids, a lookup finds the record holding the id, or nothing
/// when no record holds it.
proof fn lemma_lookup_spec(rs: Seq<InstalledExtension>, id: Seq<char>)
    requires
        unique_ids(rs),
    ensures
        (exists|k: int| 0 <= k < rs.len() && rs[k].extension_id@ == id) ==> (lookup(rs, id) matches Some(r)
            && exists|k: int| 0 <= k < rs.len() && rs[k] == r && r.extension_id@ == id),
        !(exists|k: int| 0 <= k < rs.len() && rs[k].extension_id@ == id) ==> lookup(rs, id) is None,
{
    if exists|k: int| 0 <= k < rs.len() && rs[k].extension_id@ == id {
        let k = choose|k: int| 0 <= k < rs.len() && rs[k].extension_id@ == id;
        lemma_lookup_at(rs, k);
    } else {
        assert forall|k: int| 0 <= k < rs.len() implies (#[trigger] rs[k]).extension_id@ != id by {}
        lemma_lookup_absent(rs, id);
    }
}

/// Name order: code point by code point, a prefix first.
pub open spec fn text_le(a: Seq<char>, b: Seq<char>) -> bool
    decreases a.len(),
{
    if a.len() == 0 {
        true
    } else if b.len() == 0 {
        false
    } else if (a[0] as u32) != (b[0] as u32) {
        (a[0] as u32) < (b[0] as u32)
    } else {
        text_le(a.drop_first(), b.drop_first())
    }
}

proof fn lemma_text_le_total(a: Seq<char>, b: Seq<char>)
    ensures
        text_le(a, b) || text_le(b, a),
    decreases a.len(),
{
    if a.len() > 0 && b.len() > 0 && (a[0] as u32) == (b[0] as u32) {
        lemma_text_le_total(a.drop_first(), b.drop_first());
    }
}

proof fn lemma_text_le_trans(a: Seq<char>, b: Seq<char>, c: Seq<char>)
    requires
        text_le(a, b),
        text_le(b, c),
    ensures
        text_le(a, c),
    decreases a.len(),
{
    if a.len() > 0 && b.len() > 0 && c.len() > 0 && (a[0] as u32) == (b[0] as u32) && (b[0] as u32) == (c[0] as u32) {
        lemma_text_le_trans(a.drop_first(), b.drop_first(), c.drop_first());
    }
}

/// Whether `a` comes no later than `b` in name order.
fn name_le(a: &str, b: &str) -> (r: bool)
    ensures
        r == text_le(a@, b@),
{
    let x = chars_of(a);
    let y = chars_of(b);
    let mut i: usize = 0;
    assert(x@.skip(0) =~= x@);
    assert(y@.skip(0) =~= y@);
    while i < x.len() && i < y.len() && (x[i] as u32) == (y[i] as u32)
        invariant
            x@ == a@,
            y@ == b@,
            i <= x.len(),
            i <= y.len(),
            text_le(a@, b@) == text_le(x@.skip(i as int), y@.skip(i as int)),
        decreases x.len() - i,
    {
        assert(x@.skip(i as int).drop_first() =~= x@.skip(i + 1));
        assert(y@.skip(i as int).drop_first() =~= y@.skip(i + 1));
        i = i + 1;
    }
    if i == x.len() {
        return true;
    }
    if i == y.len() {
        return false;
    }
    (x[i] as u32) < (y[i] as u32)
}

/// Sorted by name.
pub open spec fn sorted_by_name(rs: Seq<InstalledExtension>) -> bool {
    forall|i: int, j: int| 0 <= i < j < rs.len() ==> text_le((#[trigger] rs[i]).name@, (#[trigger] rs[j]).name@)
}

/// The installed extensions.
pub struct ExtensionRegistry {
    entries: Vec<InstalledExtension>,
}

impl ExtensionRegistry {
    /// The records, in storage order.
    pub closed spec fn records(&self) -> Seq<InstalledExtension> {
        self.entries@
    }

    #[verifier::type_invariant]
    spec fn registry_ok(&self) -> bool {
        unique_ids(self.entries@)
    }

    /// An empty registry.
    pub fn new() -> (r: Self)
        ensures
            r.records().len() == 0,
    {
        ExtensionRegistry { entries: Vec::new() }
    }

    fn position(&self, id: &str) -> (r: Option<usize>)
        ensures
            match r {
                Some(i) => i < self.records().len() && self.records()[i as int].extension_id@ == id@,
                None => forall|k: int| 0 <= k < self.records().len() ==> (#[trigger] self.records()[k]).extension_id@ != id@,
            },
    {
        let mut i: usize = 0;
        while i < self.entries.len()
            invariant
                i <= self.entries.len(),
                forall|k: int| 0 <= k < i ==> (#[trigger] self.entries@[k]).extension_id@ != id@,
            decreases self.entries.len() - i,
        {
            if str_eq(self.entries[i].extension_id.as_str(), id) {
                return Some(i);
            }
            i = i + 1;
        }
        None
    }

    /// The record of extension `id`, if installed.
    pub fn get(&self, id: &str) -> (r: Option<InstalledExtension>)
        ensures
            r == lookup(self.records(), id@),
    {
        proof {
            use_type_invariant(self);
        }
        match self.position(id) {
            Some(i) => {
                proof {
                    lemma_lookup_at(self.entries@, i as int);
                }
                Some(self.entries[i].clone_record())
            },
            None => {
                proof {
                    lemma_lookup_absent(self.entries@, id@);
                }
                None
            },
        }
    }

    /// Installs `ext`: added when new, merged into the known record
    /// otherwise.
    pub fn upsert(&mut self, ext: &InstalledExtension)
        ensures
            lookup(final(self).records(), ext.extension_id@) == Some(merged(
                lookup(old(self).records(), ext.extension_id@),
                *ext,
            )),
            forall|id: Seq<char>| id != ext.extension_id@ ==> #[trigger] lookup(final(self).records(), id)
                == lookup(old(self).records(), id),
            lookup(old(self).records(), ext.extension_id@) is None ==> final(self).records().len()
                == old(self).records().len() + 1,
            lookup(old(self).records(), ext.extension_id@) is Some ==> final(self).records().len()
                == old(self).records().len(),
    {
        proof {
            use_type_invariant(&*self);
        }
        let ghost before = self.entries@;
        match self.position(ext.extension_id.as_str()) {
            Some(i) => {
                proof {
                    lemma_lookup_at(before, i as int);
                }
                let m = merge_installation(Some(&self.entries[i]), ext);
                let mut entries: Vec<InstalledExtension> = Vec::new();
                std::mem::swap(&mut entries, &mut self.entries);
                entries.set(i, m);
                proof {
                    assert forall|a: int, b: int| 0 <= a < b < entries@.len() implies (#[trigger] entries@[a]).extension_id@
                        != (#[trigger] entries@[b]).extension_id@ by {
                        assert(before[a].extension_id@ != before[b].extension_id@);
                    }
                    lemma_lookup_at(entries@, i as int);
                    assert forall|id: Seq<char>| id != ext.extension_id@ implies #[trigger] lookup(entries@, id) == lookup(before, id) by {
                        lemma_lookup_spec(entries@, id);
                        lemma_lookup_spec(before, id);
                        if exists|k: int| 0 <= k < before.len() && before[k].extension_id@ == id {
                            let k = choose|k: int| 0 <= k < before.len() && before[k].extension_id@ == id;
                            assert(entries@[k] == before[k]);
                            lemma_lookup_at(entries@, k);
                            lemma_lookup_at(before, k);
                        } else {
                            assert forall|k: int| 0 <= k < entries@.len() implies (#[trigger] entries@[k]).extension_id@ != id by {
                                if k != i {
                                    assert(entries@[k] == before[k]);
                                }
                            }
                            lemma_lookup_absent(entries@, id);
                        }
                    }
                }
                self.entries = entries;
            },
            None => {
                proof {
                    lemma_lookup_absent(before, ext.extension_id@);
                }
                let m = merge_installation(None, ext);
                let mut entries: Vec<InstalledExtension> = Vec::new();
                std::mem::swap(&mut entries, &mut self.entries);
                entries.push(m);
                proof {
                    assert forall|a: int, b: int| 0 <= a < b < entries@.len() implies (#[trigger] entries@[a]).extension_id@
                        != (#[trigger] entries@[b]).extension_id@ by {
                        if b < before.len() {
                            assert(before[a].extension_id@ != before[b].extension_id@);
                        } else {
                            assert(entries@[a] == before[a]);
                        }
                    }
                    lemma_lookup_at(entries@, before.len() as int);
                    assert forall|id: Seq<char>| id != ext.extension_id@ implies #[trigger] lookup(entries@, id) == lookup(before, id) by {
                        lemma_lookup_spec(entries@, id);
                        lemma_lookup_spec(before, id);
                        if exists|k: int| 0 <= k < before.len() && before[k].extension_id@ == id {
                            let k = choose|k: int| 0 <= k < before.len() && before[k].extension_id@ == id;
                            assert(entries@[k] == before[k]);
                            lemma_lookup_at(entries@, k);
                            lemma_lookup_at(before, k);
                        } else {
                            assert forall|k: int| 0 <= k < entries@.len() implies (#[trigger] entries@[k]).extension_id@ != id by {
                                if k < before.len() {
                                    assert(entries@[k] == before[k]);
                                }
                            }
                            lemma_lookup_absent(entries@, id);
                        }
                    }
                }
                self.entries = entries;
            },
        }
    }

    /// Removes extension `id`; whether it was installed.
    pub fn remove(&mut self, id: &str) -> (removed: bool)
        ensures
            removed == (lookup(old(self).records(), id@) is Some),
            lookup(final(self).records(), id@) is None,
            removed ==> final(self).records().len() == old(self).records().len() - 1,
            !removed ==> final(self).records() == old(self).records(),
            forall|other: Seq<char>| other != id@ ==> #[trigger] lookup(final(self).records(), other)
                == lookup(old(self).records(), other),
    {
        proof {
            use_type_invariant(&*self);
        }
        let ghost before = self.entries@;
        match self.position(id) {
            Some(i) => {
                proof {
                    lemma_lookup_at(before, i as int);
                }
                let mut entries: Vec<InstalledExtension> = Vec::new();
                std::mem::swap(&mut entries, &mut self.entries);
                entries.remove(i);
                proof {
                    let after = entries@;
                    assert forall|k: int| 0 <= k < after.len() implies after[k] == (if k < i { before[k] } else { before[k + 1] }) by {}
                    assert forall|a: int, b: int| 0 <= a < b < after.len() implies (#[trigger] after[a]).extension_id@
                        != (#[trigger] after[b]).extension_id@ by {
                        let a2 = if a < i { a } else { a + 1 };
                        let b2 = if b < i { b } else { b + 1 };
                        assert(before[a2].extension_id@ != before[b2].extension_id@);
                    }
                    assert forall|k: int| 0 <= k < after.len() implies (#[trigger] after[k]).extension_id@ != id@ by {
                        let k2 = if k < i { k } else { k + 1 };
                        assert(before[k2].extension_id@ != before[i as int].extension_id@);
                    }
                    lemma_lookup_absent(after, id@);
                    assert forall|other: Seq<char>| other != id@ implies #[trigger] lookup(after, other) == lookup(before, other) by {
                        lemma_lookup_spec(after, other);
                        lemma_lookup_spec(before, other);
                        if exists|k: int| 0 <= k < before.len() && before[k].extension_id@ == other {
                            let k = choose|k: int| 0 <= k < before.len() && before[k].extension_id@ == other;
                            assert(k != i);
                            let k2 = if k < i { k } else { k - 1 };
                            assert(after[k2] == before[k]);
                            lemma_lookup_at(after, k2);
                            lemma_lookup_at(before, k);
                        } else {
                            assert forall|k: int| 0 <= k < after.len() implies (#[trigger] after[k]).extension_id@ != other by {
                                let k2 = if k < i { k } else { k + 1 };
                                assert(after[k] == before[k2]);
                            }
                            lemma_lookup_absent(after, other);
                        }
                    }
                }
                self.entries = entries;
                true
            },
            None => {
                proof {
                    lemma_lookup_absent(before, id@);
                }
                false
            },
        }
    }

    /// Turns automatic updates of extension `id` on or off (no effect when
    /// it is not installed).
    pub fn set_auto_update(&mut self, id: &str, enabled: bool)
        ensures
            match lookup(old(self).records(), id@) {
                Some(e) => lookup(final(self).records(), id@) == Some(InstalledExtension { auto_update: enabled, ..e }),
                None => lookup(final(self).records(), id@) is None,
            },
            forall|other: Seq<char>| other != id@ ==> #[trigger] lookup(final(self).records(), other)
                == lookup(old(self).records(), other),
            final(self).records().len() == old(self).records().len(),
    {
        proof {
            use_type_invariant(&*self);
        }
        let ghost before = self.entries@;
        match self.position(id) {
            Some(i) => {
                proof {
                    lemma_lookup_at(before, i as int);
                }
                let mut e = self.entries[i].clone_record();
                e.auto_update = enabled;
                let mut entries: Vec<InstalledExtension> = Vec::new();
                std::mem::swap(&mut entries, &mut self.entries);
                entries.set(i, e);
                proof {
                    assert forall|a: int, b: int| 0 <= a < b < entries@.len() implies (#[trigger] entries@[a]).extension_id@
                        != (#[trigger] entries@[b]).extension_id@ by {
                        assert(before[a].extension_id@ != before[b].extension_id@);
                    }
                    lemma_lookup_at(entries@, i as int);
                    assert forall|other: Seq<char>| other != id@ implies #[trigger] lookup(entries@, other) == lookup(before, other) by {
                        lemma_lookup_spec(entries@, other);
                        lemma_lookup_spec(before, other);
                        if exists|k: int| 0 <= k < before.len() && before[k].extension_id@ == other {
                            let k = choose|k: int| 0 <= k < before.len() && before[k].extension_id@ == other;
                            assert(entries@[k] == before[k]);
                            lemma_lookup_at(entries@, k);
                            lemma_lookup_at(before, k);
                        } else {
                            assert forall|k: int| 0 <= k < entries@.len() implies (#[trigger] entries@[k]).extension_id@ != other by {
                                if k != i {
                                    assert(entries@[k] == before[k]);
                                }
                            }
                            lemma_lookup_absent(entries@, other);
                        }
                    }
                }
                self.entries = entries;
            },
            None => {
                proof {
                    lemma_lookup_absent(before, id@);
                }
            },
        }
    }

    /// Installs an extension from the catalog now (see
    /// [`catalog_installation`]).
    pub fn register_catalog(&mut self, extension_id: &str, name: &str, version_id: u32, lang: &str, repo: &str, branch: &str, path: &str)
        ensures
            lookup(final(self).records(), extension_id@) matches Some(e) && e.extension_id@ == extension_id@
                && e.name@ == name@ && e.version_id == version_id && e.lang@ == lang@ && (e.source_repo matches Some(s)
                && s@ == repo@) && (e.source_branch matches Some(s) && s@ == branch@) && (e.source_path matches Some(
                s,
            ) && s@ == path@) && (lookup(old(self).records(), extension_id@) is None ==> e.auto_update)
                && (lookup(old(self).records(), extension_id@) matches Some(o) ==> e.auto_update == o.auto_update
                && e.installed_at == o.installed_at),
            forall|id: Seq<char>| id != extension_id@ ==> #[trigger] lookup(final(self).records(), id)
                == lookup(old(self).records(), id),
            lookup(old(self).records(), extension_id@) is None ==> final(self).records().len()
                == old(self).records().len() + 1,
            lookup(old(self).records(), extension_id@) is Some ==> final(self).records().len()
                == old(self).records().len(),
    {
        let ext = crate::config::register_catalog(extension_id, name, version_id, lang, repo, branch, path);
        self.upsert(&ext);
    }

    /// Every installed extension, ordered by name.
    pub fn list_all(&self) -> (r: Vec<InstalledExtension>)
        ensures
            r@.len() == self.records().len(),
            sorted_by_name(r@),
            forall|i: int| 0 <= i < r@.len() ==> #[trigger] self.records().contains(r@[i]),
            forall|j: int| 0 <= j < self.records().len() ==> #[trigger] r@.contains(self.records()[j]),
    {
        let mut r: Vec<InstalledExtension> = Vec::new();
        let mut n: usize = 0;
        while n < self.entries.len()
            invariant
                n <= self.entries.len(),
                r@.len() == n,
                sorted_by_name(r@),
                forall|i: int| 0 <= i < r@.len() ==> #[trigger] self.entries@.subrange(0, n as int).contains(r@[i]),
                forall|j: int| 0 <= j < n ==> #[trigger] r@.contains(self.entries@[j]),
            decreases self.entries.len() - n,
        {
            let x = self.entries[n].clone_record();
            let mut k: usize = 0;
            while k < r.len() && name_le(r[k].name.as_str(), x.name.as_str())
                invariant
                    k <= r.len(),
                    forall|i: int| 0 <= i < k ==> text_le((#[trigger] r@[i]).name@, x.name@),
                decreases r.len() - k,
            {
                k = k + 1;
            }
            let ghost old_r = r@;
            proof {
                if k < old_r.len() {
                    lemma_text_le_total(old_r[k as int].name@, x.name@);
                }
            }
            r.insert(k, x);
            proof {
                let new_r = r@;
                assert(new_r == old_r.insert(k as int, x));
                assert forall|i: int, j: int| 0 <= i < j < new_r.len() implies text_le((#[trigger] new_r[i]).name@, (#[trigger] new_r[j]).name@) by {
                    if j < k {
                        assert(new_r[i] == old_r[i] && new_r[j] == old_r[j]);
                    } else if j == k {
                        assert(new_r[i] == old_r[i]);
                    } else if i == k {
                        assert(new_r[j] == old_r[j - 1]);
                        assert(text_le(x.name@, old_r[k as int].name@));
                        if j - 1 > k {
                            assert(text_le(old_r[k as int].name@, old_r[j - 1].name@));
                            lemma_text_le_trans(x.name@, old_r[k as int].name@, old_r[j - 1].name@);
                        }
                    } else if i < k {
                        assert(new_r[i] == old_r[i] && new_r[j] == old_r[j - 1]);
                    } else {
                        assert(new_r[i] == old_r[i - 1] && new_r[j] == old_r[j - 1]);
                    }
                }
                assert forall|i: int| 0 <= i < new_r.len() implies #[trigger] self.entries@.subrange(0, n + 1).contains(new_r[i]) by {
                    if i == k {
                        assert(self.entries@.subrange(0, n + 1)[n as int] == x);
                    } else {
                        let i2 = if i < k { i } else { i - 1 };
                        assert(new_r[i] == old_r[i2]);
                        assert(self.entries@.subrange(0, n as int).contains(old_r[i2]));
                        let w = choose|w: int| 0 <= w < n && self.entries@.subrange(0, n as int)[w] == old_r[i2];
                        assert(self.entries@.subrange(0, n + 1)[w] == old_r[i2]);
                    }
                }
                assert forall|j: int| 0 <= j < n + 1 implies #[trigger] new_r.contains(self.entries@[j]) by {
                    if j == n {
                        assert(new_r[k as int] == x);
                    } else {
                        assert(old_r.contains(self.entries@[j]));
                        let w = choose|w: int| 0 <= w < old_r.len() && old_r[w] == self.entries@[j];
                        let w2 = if w < k { w } else { w + 1 };
                        assert(new_r[w2] == old_r[w]);
                    }
                }
            }
            n = n + 1;
        }
        assert(self.entries@.subrange(0, n as int) =~= self.entries@);
        r
    }
}

} // verus!
