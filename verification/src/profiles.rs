//! Mod profiles: what exporting writes and what importing decides for each entry.

use vstd::prelude::*;

use crate::mod_manager::{FileConflictInfo, ModInfoView, ModProfileEntryView, has_ids, mod_key};
use crate::external::is_hyphenated_uuid;
use crate::text::has_suffix;

verus! {

/// The profile entry that exports a mod with both NexusMods IDs.
pub open spec fn entry_of(m: ModInfoView) -> ModProfileEntryView {
    ModProfileEntryView {
        name: m.name,
        version: m.version,
        author: m.author,
        mod_id: m.mod_id.unwrap(),
        file_id: m.file_id.unwrap(),
        description: m.description,
        files: m.files,
    }
}

/// The entries that exporting `mods` writes: one per mod that has both NexusMods IDs, in order.
pub open spec fn exported(mods: Seq<ModInfoView>) -> Seq<ModProfileEntryView>
    decreases mods.len(),
{
    if mods.len() == 0 {
        seq![]
    } else {
        let p = exported(mods.drop_last());
        if mod_key(mods.last()) is Some {
            p.push(entry_of(mods.last()))
        } else {
            p
        }
    }
}

/// The profile format version that this library writes.
pub open spec fn profile_format_version() -> Seq<char> {
    "1.0"@
}

/// The version of the mod manager that profiles record.
pub open spec fn manager_version() -> Seq<char> {
    "0.1.0"@
}

/// The files of `files` that are on disk, in order.
pub open spec fn present_files(files: Seq<Seq<char>>, on_disk: Seq<Seq<char>>) -> Seq<Seq<char>>
    decreases files.len(),
{
    if files.len() == 0 {
        seq![]
    } else {
        let p = present_files(files.drop_last(), on_disk);
        if on_disk.contains(files.last()) {
            p.push(files.last())
        } else {
            p
        }
    }
}

/// The files of `files` that are not on disk, in order.
pub open spec fn missing_files(files: Seq<Seq<char>>, on_disk: Seq<Seq<char>>) -> Seq<Seq<char>>
    decreases files.len(),
{
    if files.len() == 0 {
        seq![]
    } else {
        let p = missing_files(files.drop_last(), on_disk);
        if on_disk.contains(files.last()) {
            p
        } else {
            p.push(files.last())
        }
    }
}

/// What importing a profile does with one of its entries.
pub enum ImportDecision {
    /// The mod is installed already (or registered by an earlier entry): nothing to do.
    AlreadyInstalled,
    /// All its files are on disk: the mod is registered without downloading.
    Register,
    /// It must be downloaded.
    Download,
}

/// Some mod of `mods` has exactly these NexusMods IDs.
pub open spec fn installed_with_ids(mods: Seq<ModInfoView>, mod_id: Seq<char>, file_id: Seq<char>) -> bool {
    exists|i: int| 0 <= i < mods.len() && #[trigger] has_ids(mods[i], mod_id, file_id)
}

/// Some entry before position `n` that was registered has the same IDs as `e`.
pub open spec fn registered_before(
    entries: Seq<ModProfileEntryView>,
    ds: Seq<ImportDecision>,
    n: int,
    e: ModProfileEntryView,
) -> bool {
    exists|j: int|
        0 <= j < n && ds[j] is Register && #[trigger] entries[j].mod_id == e.mod_id && entries[j].file_id == e.file_id
}

/// Every file of the entry is on disk, and it has at least one.
pub open spec fn files_all_present(e: ModProfileEntryView, on_disk: Seq<Seq<char>>) -> bool {
    e.files.len() > 0 && forall|k: int| 0 <= k < e.files.len() ==> on_disk.contains(#[trigger] e.files[k])
}

/// The decision for each entry of a profile imported over `mods`, in order.
pub open spec fn import_decisions(
    mods: Seq<ModInfoView>,
    entries: Seq<ModProfileEntryView>,
    on_disk: Seq<Seq<char>>,
) -> Seq<ImportDecision>
    decreases entries.len(),
{
    if entries.len() == 0 {
        seq![]
    } else {
        let n: int = entries.len() - 1;
        let prev = import_decisions(mods, entries.drop_last(), on_disk);
        let e = entries.last();
        let d = if installed_with_ids(mods, e.mod_id, e.file_id) || registered_before(entries, prev, n, e) {
            ImportDecision::AlreadyInstalled
        } else if files_all_present(e, on_disk) {
            ImportDecision::Register
        } else {
            ImportDecision::Download
        };
        prev.push(d)
    }
}

/// The entries whose decision is `Download` (when `download`) or not `Download` (otherwise).
pub open spec fn picked(entries: Seq<ModProfileEntryView>, ds: Seq<ImportDecision>, download: bool) -> Seq<ModProfileEntryView>
    decreases entries.len(),
{
    if entries.len() == 0 || ds.len() == 0 {
        seq![]
    } else {
        let p = picked(entries.drop_last(), ds.drop_last(), download);
        if (ds.last() is Download) == download {
            p.push(entries.last())
        } else {
            p
        }
    }
}

/// The entries that import registers as new mods, in order.
pub open spec fn newly_registered(entries: Seq<ModProfileEntryView>, ds: Seq<ImportDecision>) -> Seq<ModProfileEntryView>
    decreases entries.len(),
{
    if entries.len() == 0 || ds.len() == 0 {
        seq![]
    } else {
        let p = newly_registered(entries.drop_last(), ds.drop_last());
        if ds.last() is Register {
            p.push(entries.last())
        } else {
            p
        }
    }
}

/// `m` is the mod that import registers for entry `e` of game `game_id`, whatever fresh
/// identifier and time stamp it received.
pub open spec fn registered_as(m: ModInfoView, e: ModProfileEntryView, game_id: Seq<char>) -> bool {
    &&& m.name == e.name
    &&& m.version == e.version
    &&& m.author == e.author
    &&& m.description == e.description
    &&& m.mod_id == Some(e.mod_id)
    &&& m.file_id == Some(e.file_id)
    &&& m.enabled
    &&& m.files == e.files
    &&& m.game_id == game_id
    &&& m.file_conflicts == Map::<String, FileConflictInfo>::empty()
    &&& is_hyphenated_uuid(m.id)
    &&& m.installed_at matches Some(t) && has_suffix(t, "+00:00"@)
}

/// Import decides once for every entry.
pub(crate) proof fn lemma_decisions_len(mods: Seq<ModInfoView>, entries: Seq<ModProfileEntryView>, on_disk: Seq<Seq<char>>)
    ensures
        import_decisions(mods, entries, on_disk).len() == entries.len(),
    decreases entries.len(),
{
    if entries.len() > 0 {
        lemma_decisions_len(mods, entries.drop_last(), on_disk);
    }
}

/// An entry with the same IDs as `e` was registered before position `ds.len()` exactly when
/// the newly registered entries hold one.
pub(crate) proof fn lemma_newly_registered_ids(entries: Seq<ModProfileEntryView>, ds: Seq<ImportDecision>, e: ModProfileEntryView)
    requires
        ds.len() == entries.len(),
    ensures
        (exists|k: int| 0 <= k < newly_registered(entries, ds).len()
            && #[trigger] newly_registered(entries, ds)[k].mod_id == e.mod_id
            && newly_registered(entries, ds)[k].file_id == e.file_id)
        <==> registered_before(entries, ds, entries.len() as int, e),
    decreases entries.len(),
{
    if entries.len() > 0 {
        let n: int = entries.len() - 1;
        let pe = entries.drop_last();
        let pd = ds.drop_last();
        lemma_newly_registered_ids(pe, pd, e);
        let p = newly_registered(pe, pd);
        let t = newly_registered(entries, ds);
        if exists|k: int| 0 <= k < t.len() && #[trigger] t[k].mod_id == e.mod_id && t[k].file_id == e.file_id {
            let k: int = choose|k: int| 0 <= k < t.len() && #[trigger] t[k].mod_id == e.mod_id && t[k].file_id == e.file_id;
            if k < p.len() {
                assert(t[k] == p[k]);
                assert(registered_before(pe, pd, n as int, e));
                let j: int = choose|j: int| 0 <= j < n && pd[j] is Register && #[trigger] pe[j].mod_id == e.mod_id && pe[j].file_id == e.file_id;
                assert(ds[j] == pd[j] && entries[j] == pe[j]);
            } else {
                assert(ds[n as int] is Register && t[k] == entries[n as int]);
            }
            assert(registered_before(entries, ds, entries.len() as int, e));
        }
        if registered_before(entries, ds, entries.len() as int, e) {
            let j: int = choose|j: int| 0 <= j < entries.len() && ds[j] is Register && #[trigger] entries[j].mod_id == e.mod_id && entries[j].file_id == e.file_id;
            if j < n {
                assert(pd[j] == ds[j] && pe[j] == entries[j]);
                assert(registered_before(pe, pd, n as int, e));
                let k: int = choose|k: int| 0 <= k < p.len() && #[trigger] p[k].mod_id == e.mod_id && p[k].file_id == e.file_id;
                if ds.last() is Register {
                    assert(t[k] == p[k]);
                } else {
                    assert(t[k] == p[k]);
                }
            } else {
                assert(t[p.len() as int] == entries[n as int]);
            }
        }
    }
}

/// No file is missing exactly when every file is on disk; then the files on disk are all of
/// them.
pub(crate) proof fn lemma_all_present(fs: Seq<Seq<char>>, on_disk: Seq<Seq<char>>)
    ensures
        (missing_files(fs, on_disk).len() == 0) <==> (forall|k: int| 0 <= k < fs.len() ==> on_disk.contains(#[trigger] fs[k])),
        missing_files(fs, on_disk).len() == 0 ==> present_files(fs, on_disk) == fs,
    decreases fs.len(),
{
    if fs.len() > 0 {
        let p = fs.drop_last();
        lemma_all_present(p, on_disk);
        if forall|k: int| 0 <= k < fs.len() ==> on_disk.contains(#[trigger] fs[k]) {
            assert forall|k: int| 0 <= k < p.len() implies on_disk.contains(#[trigger] p[k]) by {
                assert(p[k] == fs[k]);
            }
            assert(on_disk.contains(fs[fs.len() - 1]));
            assert(fs =~= p.push(fs.last()));
        }
        if missing_files(fs, on_disk).len() == 0 {
            assert forall|k: int| 0 <= k < fs.len() implies on_disk.contains(#[trigger] fs[k]) by {
                if k < p.len() {
                    assert(p[k] == fs[k]);
                }
            }
        }
    }
}

/// Every exported entry belongs to an installed mod with its IDs.
proof fn lemma_exported_installed(mods: Seq<ModInfoView>)
    ensures
        forall|k: int| 0 <= k < exported(mods).len() ==> installed_with_ids(
            mods, #[trigger] exported(mods)[k].mod_id, exported(mods)[k].file_id),
    decreases mods.len(),
{
    if mods.len() > 0 {
        let p = mods.drop_last();
        lemma_exported_installed(p);
        let t = exported(mods);
        assert forall|k: int| 0 <= k < t.len() implies installed_with_ids(mods, #[trigger] t[k].mod_id, t[k].file_id) by {
            if k < exported(p).len() {
                assert(t[k] == exported(p)[k]);
                let j: int = choose|j: int| 0 <= j < p.len() && #[trigger] has_ids(p[j], t[k].mod_id, t[k].file_id);
                assert(mods[j] == p[j]);
            } else {
                assert(has_ids(mods[mods.len() - 1], t[k].mod_id, t[k].file_id));
            }
        }
    }
}

/// Importing entries whose mods are all installed decides `AlreadyInstalled` for each.
proof fn lemma_import_of_installed(mods: Seq<ModInfoView>, entries: Seq<ModProfileEntryView>, on_disk: Seq<Seq<char>>)
    requires
        forall|k: int| 0 <= k < entries.len() ==> installed_with_ids(mods, #[trigger] entries[k].mod_id, entries[k].file_id),
    ensures
        import_decisions(mods, entries, on_disk).len() == entries.len(),
        forall|k: int| 0 <= k < entries.len() ==> #[trigger] import_decisions(mods, entries, on_disk)[k] is AlreadyInstalled,
        picked(entries, import_decisions(mods, entries, on_disk), false) == entries,
        picked(entries, import_decisions(mods, entries, on_disk), true) == Seq::<ModProfileEntryView>::empty(),
        newly_registered(entries, import_decisions(mods, entries, on_disk)) == Seq::<ModProfileEntryView>::empty(),
    decreases entries.len(),
{
    if entries.len() > 0 {
        let p = entries.drop_last();
        assert forall|k: int| 0 <= k < p.len() implies installed_with_ids(mods, #[trigger] p[k].mod_id, p[k].file_id) by {
            assert(p[k] == entries[k]);
        }
        lemma_import_of_installed(mods, p, on_disk);
        let ds = import_decisions(mods, entries, on_disk);
        let n: int = entries.len() - 1;
        assert(installed_with_ids(mods, entries[n].mod_id, entries[n].file_id));
        assert(ds.drop_last() =~= import_decisions(mods, p, on_disk));
        assert(entries =~= p.push(entries.last()));
    }
}

/// Law: importing the profile that exporting the same mods wrote registers every entry as
/// installed already, adds no mod and leaves nothing to download.
pub proof fn lemma_reimport_exported_profile(mods: Seq<ModInfoView>, on_disk: Seq<Seq<char>>)
    ensures
        ({
            let ds = import_decisions(mods, exported(mods), on_disk);
            &&& picked(exported(mods), ds, false) == exported(mods)
            &&& picked(exported(mods), ds, true) == Seq::<ModProfileEntryView>::empty()
            &&& newly_registered(exported(mods), ds) == Seq::<ModProfileEntryView>::empty()
        }),
{
    lemma_exported_installed(mods);
    lemma_import_of_installed(mods, exported(mods), on_disk);
}

/// The decisions for a prefix of the entries are the prefix of the decisions.
proof fn lemma_decisions_prefix(mods: Seq<ModInfoView>, entries: Seq<ModProfileEntryView>, on_disk: Seq<Seq<char>>, n: int)
    requires
        0 <= n <= entries.len(),
    ensures
        import_decisions(mods, entries.take(n), on_disk) == import_decisions(mods, entries, on_disk).take(n),
    decreases entries.len(),
{
    lemma_decisions_len(mods, entries, on_disk);
    if n == entries.len() {
        assert(entries.take(n) =~= entries);
        assert(import_decisions(mods, entries, on_disk).take(n) =~= import_decisions(mods, entries, on_disk));
    } else {
        let p = entries.drop_last();
        lemma_decisions_prefix(mods, p, on_disk, n);
        assert(p.take(n) =~= entries.take(n));
        lemma_decisions_len(mods, p, on_disk);
        assert(import_decisions(mods, entries, on_disk).take(n) =~= import_decisions(mods, p, on_disk).take(n));
    }
}

/// Every entry decided `Register` is among the newly registered entries.
proof fn lemma_registered_in_added(entries: Seq<ModProfileEntryView>, ds: Seq<ImportDecision>, j: int)
    requires
        ds.len() == entries.len(),
        0 <= j < entries.len(),
        ds[j] is Register,
    ensures
        newly_registered(entries, ds).contains(entries[j]),
    decreases entries.len(),
{
    let n: int = entries.len() - 1;
    let p = newly_registered(entries.drop_last(), ds.drop_last());
    if j == n {
        assert(newly_registered(entries, ds) == p.push(entries[j]));
        assert(newly_registered(entries, ds)[p.len() as int] == entries[j]);
    } else {
        lemma_registered_in_added(entries.drop_last(), ds.drop_last(), j);
        let k: int = choose|k: int| 0 <= k < p.len() && p[k] == entries.drop_last()[j];
        assert(newly_registered(entries, ds)[k] == p[k]);
    }
}

/// Law: after an import, the mod of every entry that was not returned for download is
/// installed (it was installed before, or import registered it).
pub proof fn lemma_import_installs_kept_entries(
    old_mods: Seq<ModInfoView>,
    entries: Seq<ModProfileEntryView>,
    on_disk: Seq<Seq<char>>,
    game_id: Seq<char>,
    new_mods: Seq<ModInfoView>,
)
    requires
        ({
            let ds = import_decisions(old_mods, entries, on_disk);
            let added = newly_registered(entries, ds);
            &&& new_mods.len() == old_mods.len() + added.len()
            &&& new_mods.take(old_mods.len() as int) == old_mods
            &&& forall|k: int| 0 <= k < added.len() ==> registered_as(#[trigger] new_mods[old_mods.len() + k], added[k], game_id)
        }),
    ensures
        forall|j: int| 0 <= j < entries.len() && !(#[trigger] import_decisions(old_mods, entries, on_disk)[j] is Download)
            ==> installed_with_ids(new_mods, entries[j].mod_id, entries[j].file_id),
{
    let ds = import_decisions(old_mods, entries, on_disk);
    let added = newly_registered(entries, ds);
    lemma_decisions_len(old_mods, entries, on_disk);
    assert forall|j: int| 0 <= j < entries.len() && !(#[trigger] ds[j] is Download)
        implies installed_with_ids(new_mods, entries[j].mod_id, entries[j].file_id) by {
        let e = entries[j];
        // A registered entry `j2` has its mod at `old_mods.len() + k`.
        assert forall|j2: int| 0 <= j2 < entries.len() && #[trigger] ds[j2] is Register && entries[j2].mod_id == e.mod_id
            && entries[j2].file_id == e.file_id implies installed_with_ids(new_mods, e.mod_id, e.file_id) by {
            lemma_registered_in_added(entries, ds, j2);
            let k: int = choose|k: int| 0 <= k < added.len() && added[k] == entries[j2];
            assert(registered_as(new_mods[old_mods.len() + k], added[k], game_id));
            assert(has_ids(new_mods[old_mods.len() + k], e.mod_id, e.file_id));
        }
        if ds[j] is Register {
            assert(entries[j].mod_id == e.mod_id && entries[j].file_id == e.file_id);
        } else {
            let pre = entries.take(j + 1);
            lemma_decisions_prefix(old_mods, entries, on_disk, j + 1);
            lemma_decisions_prefix(old_mods, entries, on_disk, j);
            assert(pre.drop_last() =~= entries.take(j));
            assert(pre.last() == e);
            let pds = import_decisions(old_mods, entries.take(j), on_disk);
            assert(import_decisions(old_mods, pre, on_disk)[j] == ds[j]);
            if installed_with_ids(old_mods, e.mod_id, e.file_id) {
                let i: int = choose|i: int| 0 <= i < old_mods.len() && #[trigger] has_ids(old_mods[i], e.mod_id, e.file_id);
                assert(new_mods.take(old_mods.len() as int)[i] == new_mods[i]);
                assert(has_ids(new_mods[i], e.mod_id, e.file_id));
            } else {
                assert(registered_before(pre, pds, j, e));
                let j2: int = choose|j2: int| 0 <= j2 < j && pds[j2] is Register && #[trigger] pre[j2].mod_id == e.mod_id
                    && pre[j2].file_id == e.file_id;
                assert(pds[j2] == ds[j2]);
                assert(pre[j2] == entries[j2]);
            }
        }
    }
}

/// Law: import puts every entry of the profile in exactly one of its two lists.
pub proof fn lemma_import_partitions_entries(mods: Seq<ModInfoView>, entries: Seq<ModProfileEntryView>, on_disk: Seq<Seq<char>>)
    ensures
        picked(entries, import_decisions(mods, entries, on_disk), false).len()
            + picked(entries, import_decisions(mods, entries, on_disk), true).len() == entries.len(),
    decreases entries.len(),
{
    lemma_decisions_len(mods, entries, on_disk);
    if entries.len() > 0 {
        let p = entries.drop_last();
        lemma_import_partitions_entries(mods, p, on_disk);
        assert(import_decisions(mods, entries, on_disk).drop_last() =~= import_decisions(mods, p, on_disk));
    }
}

/// Law: a mod added with both NexusMods IDs is found by them afterwards.
pub proof fn lemma_added_mod_is_found(mods: Seq<ModInfoView>, m: ModInfoView)
    requires
        mod_key(m) is Some,
    ensures
        installed_with_ids(mods.push(m), m.mod_id.unwrap(), m.file_id.unwrap()),
{
    assert(has_ids(mods.push(m)[mods.len() as int], m.mod_id.unwrap(), m.file_id.unwrap()));
}

/// Law: the files that verification finds on disk and those it finds missing together
/// account for every file.
pub proof fn lemma_presence_partition(files: Seq<Seq<char>>, on_disk: Seq<Seq<char>>)
    ensures
        present_files(files, on_disk).len() + missing_files(files, on_disk).len() == files.len(),
    decreases files.len(),
{
    if files.len() > 0 {
        lemma_presence_partition(files.drop_last(), on_disk);
    }
}

/// No two mods that have both NexusMods IDs share them.
pub open spec fn ids_distinct(mods: Seq<ModInfoView>) -> bool {
    forall|a: int, b: int| 0 <= a < b < mods.len() && mod_key(mods[a]) is Some
        ==> mod_key(#[trigger] mods[a]) != mod_key(#[trigger] mods[b])
}

/// No two profile entries have the same mod ID and file ID.
pub open spec fn entry_ids_distinct(entries: Seq<ModProfileEntryView>) -> bool {
    forall|a: int, b: int| 0 <= a < b < entries.len()
        ==> !(#[trigger] entries[a].mod_id == #[trigger] entries[b].mod_id && entries[a].file_id == entries[b].file_id)
}

/// Exporting mods whose IDs are distinct writes entries whose IDs are distinct.
proof fn lemma_exported_ids_distinct(mods: Seq<ModInfoView>)
    requires
        ids_distinct(mods),
    ensures
        entry_ids_distinct(exported(mods)),
    decreases mods.len(),
{
    if mods.len() > 0 {
        let p = mods.drop_last();
        assert(ids_distinct(p)) by {
            assert forall|a: int, b: int| 0 <= a < b < p.len() && mod_key(p[a]) is Some
                implies mod_key(#[trigger] p[a]) != mod_key(#[trigger] p[b]) by {
                assert(p[a] == mods[a] && p[b] == mods[b]);
            }
        }
        lemma_exported_ids_distinct(p);
        lemma_exported_installed(p);
        let t = exported(mods);
        let q = exported(p);
        let n: int = mods.len() - 1;
        if mod_key(mods[n]) is Some {
            assert forall|a: int, b: int| 0 <= a < b < t.len()
                implies !(#[trigger] t[a].mod_id == #[trigger] t[b].mod_id && t[a].file_id == t[b].file_id) by {
                assert(t[a] == q[a]);
                if b < q.len() {
                    assert(t[b] == q[b]);
                } else {
                    assert(t[b] == entry_of(mods[n]));
                    if t[a].mod_id == t[b].mod_id && t[a].file_id == t[b].file_id {
                        let i: int = choose|i: int| 0 <= i < p.len() && #[trigger] has_ids(p[i], q[a].mod_id, q[a].file_id);
                        assert(mods[i] == p[i]);
                        assert(mod_key(mods[i]) == mod_key(mods[n]));
                    }
                }
            }
        }
    }
}

/// Importing entries with distinct IDs into an empty list, with all their files on disk,
/// registers every entry.
proof fn lemma_import_into_empty(entries: Seq<ModProfileEntryView>, on_disk: Seq<Seq<char>>)
    requires
        entry_ids_distinct(entries),
        forall|k: int| 0 <= k < entries.len() ==> files_all_present(#[trigger] entries[k], on_disk),
    ensures
        import_decisions(Seq::empty(), entries, on_disk).len() == entries.len(),
        forall|k: int| 0 <= k < entries.len() ==> #[trigger] import_decisions(Seq::empty(), entries, on_disk)[k] is Register,
        newly_registered(entries, import_decisions(Seq::empty(), entries, on_disk)) == entries,
        picked(entries, import_decisions(Seq::empty(), entries, on_disk), true) == Seq::<ModProfileEntryView>::empty(),
    decreases entries.len(),
{
    if entries.len() > 0 {
        let p = entries.drop_last();
        let n: int = entries.len() - 1;
        assert(entry_ids_distinct(p)) by {
            assert forall|a: int, b: int| 0 <= a < b < p.len()
                implies !(#[trigger] p[a].mod_id == #[trigger] p[b].mod_id && p[a].file_id == p[b].file_id) by {
                assert(p[a] == entries[a] && p[b] == entries[b]);
            }
        }
        assert forall|k: int| 0 <= k < p.len() implies files_all_present(#[trigger] p[k], on_disk) by {
            assert(p[k] == entries[k]);
        }
        lemma_import_into_empty(p, on_disk);
        let prev = import_decisions(Seq::empty(), p, on_disk);
        let e = entries[n];
        assert(!installed_with_ids(Seq::empty(), e.mod_id, e.file_id));
        if registered_before(entries, prev, n, e) {
            let j: int = choose|j: int| 0 <= j < n && prev[j] is Register && #[trigger] entries[j].mod_id == e.mod_id
                && entries[j].file_id == e.file_id;
            assert(false);
        }
        assert(files_all_present(e, on_disk));
        let ds = import_decisions(Seq::empty(), entries, on_disk);
        assert(ds.drop_last() =~= prev);
        assert(entries =~= p.push(entries.last()));
    }
}

/// Law: on a fresh install, importing the profile of a mod list without duplicate IDs (as
/// deduplication leaves it) registers every exported mod without downloading, when all
/// their files were copied over (and each has some).
pub proof fn lemma_profile_restores_fresh_install(mods: Seq<ModInfoView>, on_disk: Seq<Seq<char>>)
    requires
        ids_distinct(mods),
        forall|k: int| 0 <= k < exported(mods).len() ==> files_all_present(#[trigger] exported(mods)[k], on_disk),
    ensures
        ({
            let ds = import_decisions(Seq::empty(), exported(mods), on_disk);
            &&& newly_registered(exported(mods), ds) == exported(mods)
            &&& picked(exported(mods), ds, true) == Seq::<ModProfileEntryView>::empty()
        }),
{
    lemma_exported_ids_distinct(mods);
    lemma_import_into_empty(exported(mods), on_disk);
}

/// The entries that import registers carry IDs that no installed mod has, and no two of
/// them share their IDs.
proof fn lemma_added_ids_fresh(mods: Seq<ModInfoView>, entries: Seq<ModProfileEntryView>, on_disk: Seq<Seq<char>>)
    ensures
        ({
            let added = newly_registered(entries, import_decisions(mods, entries, on_disk));
            &&& forall|k: int| 0 <= k < added.len()
                ==> !installed_with_ids(mods, #[trigger] added[k].mod_id, added[k].file_id)
            &&& entry_ids_distinct(added)
        }),
    decreases entries.len(),
{
    if entries.len() > 0 {
        let n: int = entries.len() - 1;
        let p = entries.drop_last();
        let e = entries.last();
        lemma_added_ids_fresh(mods, p, on_disk);
        lemma_decisions_len(mods, p, on_disk);
        let prev = import_decisions(mods, p, on_disk);
        let ds = import_decisions(mods, entries, on_disk);
        assert(ds.drop_last() =~= prev);
        let q = newly_registered(p, prev);
        let added = newly_registered(entries, ds);
        if ds.last() is Register {
            assert(added == q.push(e));
            assert(!installed_with_ids(mods, e.mod_id, e.file_id));
            assert(!registered_before(entries, prev, n, e));
            assert(!registered_before(p, prev, n, e)) by {
                if registered_before(p, prev, n, e) {
                    let j: int = choose|j: int| 0 <= j < n && prev[j] is Register && #[trigger] p[j].mod_id == e.mod_id
                        && p[j].file_id == e.file_id;
                    assert(entries[j] == p[j]);
                }
            }
            lemma_newly_registered_ids(p, prev, e);
            assert forall|k: int| 0 <= k < added.len()
                implies !installed_with_ids(mods, #[trigger] added[k].mod_id, added[k].file_id) by {
                if k < q.len() {
                    assert(added[k] == q[k]);
                }
            }
            assert forall|a: int, b: int| 0 <= a < b < added.len()
                implies !(#[trigger] added[a].mod_id == #[trigger] added[b].mod_id && added[a].file_id == added[b].file_id) by {
                assert(added[a] == q[a]);
                if b < q.len() {
                    assert(added[b] == q[b]);
                } else {
                    assert(added[b] == e);
                }
            }
        } else {
            assert(added == q);
        }
    }
}

/// Law: importing a profile over mods whose NexusMods IDs are distinct keeps them distinct,
/// whatever the profile holds (an entry may even repeat): every mod that import registers
/// has IDs that no mod had before, and no two registered mods share their IDs.
pub proof fn lemma_import_keeps_ids_distinct(
    old_mods: Seq<ModInfoView>,
    entries: Seq<ModProfileEntryView>,
    on_disk: Seq<Seq<char>>,
    game_id: Seq<char>,
    new_mods: Seq<ModInfoView>,
)
    requires
        ids_distinct(old_mods),
        ({
            let ds = import_decisions(old_mods, entries, on_disk);
            let added = newly_registered(entries, ds);
            &&& new_mods.len() == old_mods.len() + added.len()
            &&& new_mods.take(old_mods.len() as int) == old_mods
            &&& forall|k: int| 0 <= k < added.len() ==> registered_as(#[trigger] new_mods[old_mods.len() + k], added[k], game_id)
        }),
    ensures
        ids_distinct(new_mods),
        forall|k: int| old_mods.len() <= k < new_mods.len()
            ==> !installed_with_ids(old_mods, (#[trigger] new_mods[k]).mod_id.unwrap(), new_mods[k].file_id.unwrap()),
{
    let ds = import_decisions(old_mods, entries, on_disk);
    let added = newly_registered(entries, ds);
    let o: int = old_mods.len() as int;
    lemma_added_ids_fresh(old_mods, entries, on_disk);
    assert forall|k: int| o <= k < new_mods.len()
        implies !installed_with_ids(old_mods, (#[trigger] new_mods[k]).mod_id.unwrap(), new_mods[k].file_id.unwrap()) by {
        assert(registered_as(new_mods[o + (k - o)], added[k - o], game_id));
    }
    assert forall|a: int, b: int| 0 <= a < b < new_mods.len() && mod_key(new_mods[a]) is Some
        implies mod_key(#[trigger] new_mods[a]) != mod_key(#[trigger] new_mods[b]) by {
        if b < o {
            assert(new_mods.take(o)[a] == new_mods[a] && new_mods.take(o)[b] == new_mods[b]);
            assert(mod_key(old_mods[a]) != mod_key(old_mods[b]));
        } else if a < o {
            assert(new_mods.take(o)[a] == new_mods[a]);
            assert(registered_as(new_mods[o + (b - o)], added[b - o], game_id));
            if mod_key(new_mods[a]) == mod_key(new_mods[b]) {
                assert(has_ids(old_mods[a], added[b - o].mod_id, added[b - o].file_id));
            }
        } else {
            assert(registered_as(new_mods[o + (a - o)], added[a - o], game_id));
            assert(registered_as(new_mods[o + (b - o)], added[b - o], game_id));
        }
    }
}

/// Entry `e` carries mod `m`: its NexusMods IDs, name, version, author, description and
/// files.
pub open spec fn carries(e: ModProfileEntryView, m: ModInfoView) -> bool {
    &&& m.mod_id == Some(e.mod_id)
    &&& m.file_id == Some(e.file_id)
    &&& e.name == m.name
    &&& e.version == m.version
    &&& e.author == m.author
    &&& e.description == m.description
    &&& e.files == m.files
}

/// Some mod of `mods` is carried by entry `e`.
pub open spec fn carries_some(e: ModProfileEntryView, mods: Seq<ModInfoView>) -> bool {
    exists|i: int| 0 <= i < mods.len() && #[trigger] carries(e, mods[i])
}

/// Some entry of `entries` carries mod `m`.
pub open spec fn carried_by_some(m: ModInfoView, entries: Seq<ModProfileEntryView>) -> bool {
    exists|k: int| 0 <= k < entries.len() && #[trigger] carries(entries[k], m)
}

/// Each exported entry carries one of the mods.
proof fn lemma_exported_carry_mods(mods: Seq<ModInfoView>)
    ensures
        exported(mods).len() <= mods.len(),
        forall|k: int| 0 <= k < exported(mods).len() ==> carries_some(#[trigger] exported(mods)[k], mods),
    decreases mods.len(),
{
    if mods.len() > 0 {
        let p = mods.drop_last();
        lemma_exported_carry_mods(p);
        let n: int = mods.len() - 1;
        assert forall|k: int| 0 <= k < exported(mods).len() implies carries_some(#[trigger] exported(mods)[k], mods) by {
            if k < exported(p).len() {
                assert(exported(mods)[k] == exported(p)[k]);
                assert(carries_some(exported(p)[k], p));
                let i: int = choose|i: int| 0 <= i < p.len() && #[trigger] carries(exported(p)[k], p[i]);
                assert(mods[i] == p[i]);
                assert(carries(exported(mods)[k], mods[i]));
            } else {
                assert(mod_key(mods[n]) is Some && exported(mods)[k] == entry_of(mods[n]));
                assert(carries(exported(mods)[k], mods[n]));
            }
        }
    }
}

/// Each mod with both NexusMods IDs is carried by an exported entry.
proof fn lemma_mods_carried(mods: Seq<ModInfoView>)
    ensures
        forall|i: int| 0 <= i < mods.len() && (#[trigger] mods[i]).mod_id is Some && mods[i].file_id is Some
            ==> carried_by_some(mods[i], exported(mods)),
    decreases mods.len(),
{
    if mods.len() > 0 {
        let p = mods.drop_last();
        lemma_mods_carried(p);
        let t = exported(mods);
        let q = exported(p);
        let n: int = mods.len() - 1;
        assert forall|i: int| 0 <= i < mods.len() && (#[trigger] mods[i]).mod_id is Some && mods[i].file_id is Some
            implies carried_by_some(mods[i], t) by {
            if i < n {
                assert(mods[i] == p[i]);
                assert(carried_by_some(p[i], q));
                let k: int = choose|k: int| 0 <= k < q.len() && #[trigger] carries(q[k], p[i]);
                assert(t[k] == q[k]);
                assert(carries(t[k], mods[i]));
            } else {
                assert(mod_key(mods[n]) is Some && t == q.push(entry_of(mods[n])));
                assert(carries(t[t.len() - 1], mods[i]));
            }
        }
    }
}

/// Entries `a` and `b` of `t` carry mods of `mods` in that order.
pub open spec fn carried_in_order(t: Seq<ModProfileEntryView>, mods: Seq<ModInfoView>, a: int, b: int) -> bool {
    exists|i: int, j: int| 0 <= i < j < mods.len() && #[trigger] carries(t[a], mods[i]) && #[trigger] carries(t[b], mods[j])
}

/// Later exported entries carry later mods.
proof fn lemma_exported_in_order(mods: Seq<ModInfoView>)
    ensures
        forall|a: int, b: int| 0 <= a < b < exported(mods).len()
            ==> #[trigger] carried_in_order(exported(mods), mods, a, b),
    decreases mods.len(),
{
    if mods.len() > 0 {
        let p = mods.drop_last();
        lemma_exported_in_order(p);
        lemma_exported_carry_mods(p);
        let t = exported(mods);
        let q = exported(p);
        let n: int = mods.len() - 1;
        assert forall|a: int, b: int| 0 <= a < b < t.len() implies #[trigger] carried_in_order(t, mods, a, b) by {
            assert(t[a] == q[a]);
            if b < q.len() {
                assert(t[b] == q[b]);
                assert(carried_in_order(q, p, a, b));
                let (i, j): (int, int) = choose|i: int, j: int|
                    0 <= i < j < p.len() && #[trigger] carries(q[a], p[i]) && #[trigger] carries(q[b], p[j]);
                assert(mods[i] == p[i] && mods[j] == p[j]);
                assert(carries(t[a], mods[i]) && carries(t[b], mods[j]));
            } else {
                assert(carries_some(q[a], p));
                let i: int = choose|i: int| 0 <= i < p.len() && #[trigger] carries(q[a], p[i]);
                assert(mods[i] == p[i]);
                assert(mod_key(mods[n]) is Some && t[b] == entry_of(mods[n]));
                assert(carries(t[a], mods[i]) && carries(t[b], mods[n]));
            }
        }
    }
}

/// Law: exporting writes an entry for each installed mod that has both NexusMods IDs, and
/// every entry it writes carries the fields of one of the mods: its IDs, name, version,
/// author, description and files; later entries carry later mods.
pub proof fn lemma_export_copies_mods(mods: Seq<ModInfoView>)
    ensures
        exported(mods).len() <= mods.len(),
        forall|k: int| 0 <= k < exported(mods).len() ==> carries_some(#[trigger] exported(mods)[k], mods),
        forall|i: int| 0 <= i < mods.len() && (#[trigger] mods[i]).mod_id is Some && mods[i].file_id is Some
            ==> carried_by_some(mods[i], exported(mods)),
        forall|a: int, b: int| 0 <= a < b < exported(mods).len()
            ==> #[trigger] carried_in_order(exported(mods), mods, a, b),
{
    lemma_exported_carry_mods(mods);
    lemma_mods_carried(mods);
    lemma_exported_in_order(mods);
}

/// Every one of `files` is on disk.
pub open spec fn every_file_on_disk(files: Seq<Seq<char>>, on_disk: Seq<Seq<char>>) -> bool {
    forall|k: int| 0 <= k < files.len() ==> on_disk.contains(#[trigger] files[k])
}

/// Some mod of `mods` has exactly this mod ID and file ID.
pub open spec fn some_mod_with(mods: Seq<ModInfoView>, mod_id: Seq<char>, file_id: Seq<char>) -> bool {
    exists|i: int| 0 <= i < mods.len() && (#[trigger] mods[i]).mod_id == Some(mod_id) && mods[i].file_id == Some(file_id)
}

/// An entry before position `j` with the IDs of entry `j` was decided `Register`.
pub open spec fn registered_earlier(entries: Seq<ModProfileEntryView>, ds: Seq<ImportDecision>, j: int) -> bool {
    exists|j2: int| 0 <= j2 < j && (#[trigger] ds[j2]) is Register && entries[j2].mod_id == entries[j].mod_id
        && entries[j2].file_id == entries[j].file_id
}

/// The decision for entry `j` meets the import rules.
proof fn lemma_decision_rule(mods: Seq<ModInfoView>, entries: Seq<ModProfileEntryView>, on_disk: Seq<Seq<char>>, j: int)
    requires
        0 <= j < entries.len(),
    ensures
        ({
            let ds = import_decisions(mods, entries, on_disk);
            let e = entries[j];
            let known = some_mod_with(mods, e.mod_id, e.file_id) || registered_earlier(entries, ds, j);
            &&& ds[j] is AlreadyInstalled <==> known
            &&& ds[j] is Register <==> !known && e.files.len() > 0 && every_file_on_disk(e.files, on_disk)
            &&& ds[j] is Download <==> !known && (e.files.len() == 0 || !every_file_on_disk(e.files, on_disk))
        }),
{
    let ds = import_decisions(mods, entries, on_disk);
    let e = entries[j];
    let pre = entries.take(j + 1);
    lemma_decisions_len(mods, entries, on_disk);
    lemma_decisions_prefix(mods, entries, on_disk, j + 1);
    lemma_decisions_prefix(mods, entries, on_disk, j);
    assert(pre.drop_last() =~= entries.take(j));
    assert(pre.last() == e);
    let prev = import_decisions(mods, entries.take(j), on_disk);
    assert(import_decisions(mods, pre, on_disk)[j] == ds[j]);
    assert(installed_with_ids(mods, e.mod_id, e.file_id) == some_mod_with(mods, e.mod_id, e.file_id)) by {
        if installed_with_ids(mods, e.mod_id, e.file_id) {
            let i: int = choose|i: int| 0 <= i < mods.len() && #[trigger] has_ids(mods[i], e.mod_id, e.file_id);
            assert(mods[i].mod_id == Some(e.mod_id));
        }
        if some_mod_with(mods, e.mod_id, e.file_id) {
            let i: int = choose|i: int| 0 <= i < mods.len() && (#[trigger] mods[i]).mod_id == Some(e.mod_id)
                && mods[i].file_id == Some(e.file_id);
            assert(has_ids(mods[i], e.mod_id, e.file_id));
        }
    }
    assert(registered_before(pre, prev, j, e) == registered_earlier(entries, ds, j)) by {
        if registered_before(pre, prev, j, e) {
            let j2: int = choose|j2: int| 0 <= j2 < j && prev[j2] is Register && #[trigger] pre[j2].mod_id == e.mod_id
                && pre[j2].file_id == e.file_id;
            assert(prev[j2] == ds[j2] && pre[j2] == entries[j2]);
        }
        if registered_earlier(entries, ds, j) {
            let j2: int = choose|j2: int| 0 <= j2 < j && (#[trigger] ds[j2]) is Register
                && entries[j2].mod_id == entries[j].mod_id && entries[j2].file_id == entries[j].file_id;
            assert(prev[j2] == ds[j2] && pre[j2] == entries[j2]);
        }
    }
    assert(files_all_present(e, on_disk) == (e.files.len() > 0 && every_file_on_disk(e.files, on_disk)));
}

/// Law: importing decides for each entry of the profile, in terms of the mods installed
/// before and the files on disk: an entry whose IDs an installed mod has, or an earlier entry
/// registered, is already installed; any other entry is registered exactly when it has at
/// least one file and every one of its files is on disk, and is returned for download
/// otherwise (no files, or some file missing).
pub proof fn lemma_import_decision_rules(mods: Seq<ModInfoView>, entries: Seq<ModProfileEntryView>, on_disk: Seq<Seq<char>>)
    ensures
        import_decisions(mods, entries, on_disk).len() == entries.len(),
        forall|j: int| #![trigger import_decisions(mods, entries, on_disk)[j]] 0 <= j < entries.len() ==> ({
            let ds = import_decisions(mods, entries, on_disk);
            let e = entries[j];
            let known = some_mod_with(mods, e.mod_id, e.file_id) || registered_earlier(entries, ds, j);
            &&& ds[j] is AlreadyInstalled <==> known
            &&& ds[j] is Register <==> !known && e.files.len() > 0 && every_file_on_disk(e.files, on_disk)
            &&& ds[j] is Download <==> !known && (e.files.len() == 0 || !every_file_on_disk(e.files, on_disk))
        }),
{
    lemma_decisions_len(mods, entries, on_disk);
    assert forall|j: int| #![trigger import_decisions(mods, entries, on_disk)[j]] 0 <= j < entries.len() implies ({
        let ds = import_decisions(mods, entries, on_disk);
        let e = entries[j];
        let known = some_mod_with(mods, e.mod_id, e.file_id) || registered_earlier(entries, ds, j);
        &&& ds[j] is AlreadyInstalled <==> known
        &&& ds[j] is Register <==> !known && e.files.len() > 0 && every_file_on_disk(e.files, on_disk)
        &&& ds[j] is Download <==> !known && (e.files.len() == 0 || !every_file_on_disk(e.files, on_disk))
    }) by {
        lemma_decision_rule(mods, entries, on_disk, j);
    }
}

} // verus!
