//! File conflicts: which installed mods already hold the files about to be installed.

use vstd::prelude::*;

use crate::mod_manager::{ConflictDetailsView, ModInfoView};
use crate::text::{has_suffix};

verus! {

/// The report that installed mod `m` holds `file`.
pub open spec fn details_of(m: ModInfoView, file: Seq<char>) -> ConflictDetailsView {
    ConflictDetailsView {
        mod_id: m.id,
        mod_name: m.name,
        mod_version: m.version,
        is_archive: has_suffix(file, ".archive"@),
    }
}

/// The reports for `file`: one for each mod of `mods` whose files include it, in order.
pub open spec fn conflicts_for(mods: Seq<ModInfoView>, file: Seq<char>) -> Seq<ConflictDetailsView>
    decreases mods.len(),
{
    if mods.len() == 0 {
        seq![]
    } else {
        let p = conflicts_for(mods.drop_last(), file);
        if mods.last().files.contains(file) {
            p.push(details_of(mods.last(), file))
        } else {
            p
        }
    }
}

/// The table with the reports `d` for `file` added: appended to the file's entry if it has
/// one, as a new last entry otherwise; left alone when there is nothing to report.
pub open spec fn add_conflicts(
    table: Seq<(Seq<char>, Seq<ConflictDetailsView>)>,
    file: Seq<char>,
    d: Seq<ConflictDetailsView>,
) -> Seq<(Seq<char>, Seq<ConflictDetailsView>)> {
    if d.len() == 0 {
        table
    } else if exists|k: int| 0 <= k < table.len() && #[trigger] table[k].0 == file {
        let k: int = choose|k: int| 0 <= k < table.len() && #[trigger] table[k].0 == file;
        table.update(k, (file, table[k].1 + d))
    } else {
        table.push((file, d))
    }
}

/// The conflict table for installing `files` over `mods`: each file that some installed mod
/// already holds, in the order of first mention, with a report for each such mod and each
/// mention of the file.
pub open spec fn conflict_table(mods: Seq<ModInfoView>, files: Seq<Seq<char>>) -> Seq<(Seq<char>, Seq<ConflictDetailsView>)>
    decreases files.len(),
{
    if files.len() == 0 {
        seq![]
    } else {
        add_conflicts(conflict_table(mods, files.drop_last()), files.last(), conflicts_for(mods, files.last()))
    }
}

/// No two entries of a table name the same file.
pub open spec fn keys_distinct(table: Seq<(Seq<char>, Seq<ConflictDetailsView>)>) -> bool {
    forall|a: int, b: int| 0 <= a < b < table.len() ==> #[trigger] table[a].0 != #[trigger] table[b].0
}

/// Adding reports keeps the files of a table distinct.
pub(crate) proof fn lemma_add_conflicts_distinct(
    table: Seq<(Seq<char>, Seq<ConflictDetailsView>)>,
    file: Seq<char>,
    d: Seq<ConflictDetailsView>,
)
    requires
        keys_distinct(table),
    ensures
        keys_distinct(add_conflicts(table, file, d)),
{
    let t = add_conflicts(table, file, d);
    if d.len() > 0 {
        if exists|k: int| 0 <= k < table.len() && #[trigger] table[k].0 == file {
            let k: int = choose|k: int| 0 <= k < table.len() && #[trigger] table[k].0 == file;
            assert forall|a: int, b: int| 0 <= a < b < t.len() implies #[trigger] t[a].0 != #[trigger] t[b].0 by {
                assert(t[a].0 == table[a].0 && t[b].0 == table[b].0);
            }
        } else {
            assert forall|a: int, b: int| 0 <= a < b < t.len() implies #[trigger] t[a].0 != #[trigger] t[b].0 by {
                if b == table.len() {
                    assert(t[a].0 == table[a].0);
                } else {
                    assert(t[a].0 == table[a].0 && t[b].0 == table[b].0);
                }
            }
        }
    }
}

/// Law: the conflict table never names a file twice.
pub proof fn lemma_conflict_table_keys_distinct(mods: Seq<ModInfoView>, files: Seq<Seq<char>>)
    ensures
        keys_distinct(conflict_table(mods, files)),
    decreases files.len(),
{
    if files.len() > 0 {
        lemma_conflict_table_keys_distinct(mods, files.drop_last());
        lemma_add_conflicts_distinct(conflict_table(mods, files.drop_last()), files.last(), conflicts_for(mods, files.last()));
    }
}

/// Some mod of `mods` holds `file`.
pub open spec fn held_by_some(mods: Seq<ModInfoView>, file: Seq<char>) -> bool {
    exists|i: int| 0 <= i < mods.len() && #[trigger] mods[i].files.contains(file)
}

/// There is a report for `file` exactly when some mod holds it.
proof fn lemma_conflicts_for_nonempty(mods: Seq<ModInfoView>, file: Seq<char>)
    ensures
        conflicts_for(mods, file).len() > 0 <==> held_by_some(mods, file),
    decreases mods.len(),
{
    if mods.len() > 0 {
        let p = mods.drop_last();
        lemma_conflicts_for_nonempty(p, file);
        if held_by_some(p, file) {
            let i: int = choose|i: int| 0 <= i < p.len() && #[trigger] p[i].files.contains(file);
            assert(mods[i] == p[i]);
        }
        if held_by_some(mods, file) && !mods.last().files.contains(file) {
            let i: int = choose|i: int| 0 <= i < mods.len() && #[trigger] mods[i].files.contains(file);
            assert(i < p.len());
            assert(p[i] == mods[i]);
        }
    }
}

/// Law: the conflict table names a file exactly when the file is among those to install and
/// some installed mod already holds it.
pub proof fn lemma_conflict_table_names_held_files(mods: Seq<ModInfoView>, files: Seq<Seq<char>>, file: Seq<char>)
    ensures
        (exists|k: int| 0 <= k < conflict_table(mods, files).len() && #[trigger] conflict_table(mods, files)[k].0 == file)
            <==> (files.contains(file) && held_by_some(mods, file)),
    decreases files.len(),
{
    if files.len() > 0 {
        let p = files.drop_last();
        let f = files.last();
        lemma_conflict_table_names_held_files(mods, p, file);
        lemma_conflicts_for_nonempty(mods, f);
        lemma_conflicts_for_nonempty(mods, file);
        let t = conflict_table(mods, p);
        let d = conflicts_for(mods, f);
        let u = conflict_table(mods, files);
        assert(u == add_conflicts(t, f, d));
        if exists|k: int| 0 <= k < t.len() && #[trigger] t[k].0 == file {
            let k: int = choose|k: int| 0 <= k < t.len() && #[trigger] t[k].0 == file;
            let j: int = choose|j: int| 0 <= j < p.len() && p[j] == file;
            assert(files[j] == p[j]);
            assert(u[k].0 == file);
        }
        if exists|k: int| 0 <= k < u.len() && #[trigger] u[k].0 == file {
            let k: int = choose|k: int| 0 <= k < u.len() && #[trigger] u[k].0 == file;
            if k < t.len() && t[k].0 == file {
            } else {
                assert(file == f && d.len() > 0);
                assert(files[files.len() - 1] == f);
            }
        }
        if files.contains(file) && held_by_some(mods, file) {
            let j: int = choose|j: int| 0 <= j < files.len() && files[j] == file;
            if j < p.len() {
                assert(p[j] == files[j]);
            } else {
                assert(file == f);
                if exists|k: int| 0 <= k < t.len() && #[trigger] t[k].0 == f {
                    let k: int = choose|k: int| 0 <= k < t.len() && #[trigger] t[k].0 == f;
                    assert(u[k].0 == f);
                } else {
                    assert(u[t.len() as int].0 == f);
                }
            }
        }
    }
}

/// Report `r` is one that `file` deserves: it names a mod of `mods` that holds the file, with
/// that mod's identifier, name and version, and marks the file as an archive exactly when its
/// path ends with `.archive`.
pub open spec fn report_fits(mods: Seq<ModInfoView>, file: Seq<char>, r: ConflictDetailsView) -> bool {
    &&& r.is_archive == has_suffix(file, ".archive"@)
    &&& exists|i: int| 0 <= i < mods.len() && (#[trigger] mods[i]).files.contains(file) && r.mod_id == mods[i].id
        && r.mod_name == mods[i].name && r.mod_version == mods[i].version
}

/// Every report of `rs` fits `file`.
pub open spec fn reports_fit(mods: Seq<ModInfoView>, file: Seq<char>, rs: Seq<ConflictDetailsView>) -> bool {
    forall|i: int| 0 <= i < rs.len() ==> report_fits(mods, file, #[trigger] rs[i])
}

/// The reports for one file fit it.
proof fn lemma_conflicts_for_fit(mods: Seq<ModInfoView>, file: Seq<char>)
    ensures
        reports_fit(mods, file, conflicts_for(mods, file)),
    decreases mods.len(),
{
    if mods.len() > 0 {
        let p = mods.drop_last();
        let n: int = mods.len() - 1;
        lemma_conflicts_for_fit(p, file);
        let q = conflicts_for(p, file);
        let t = conflicts_for(mods, file);
        assert forall|i: int| 0 <= i < t.len() implies report_fits(mods, file, #[trigger] t[i]) by {
            if i < q.len() {
                assert(t[i] == q[i]);
                assert(report_fits(p, file, q[i]));
                let w: int = choose|w: int| 0 <= w < p.len() && (#[trigger] p[w]).files.contains(file)
                    && q[i].mod_id == p[w].id && q[i].mod_name == p[w].name && q[i].mod_version == p[w].version;
                assert(mods[w] == p[w]);
            } else {
                assert(t[i] == details_of(mods[n], file));
                assert(mods[n].files.contains(file));
            }
        }
    }
}

/// Each entry of a table after adding reports `d` for `file` is the entry it was, or the
/// file's entry with `d` appended, or (as a new last entry) `file` with `d`.
proof fn lemma_add_conflicts_entries(
    table: Seq<(Seq<char>, Seq<ConflictDetailsView>)>,
    file: Seq<char>,
    d: Seq<ConflictDetailsView>,
)
    ensures
        ({
            let t = add_conflicts(table, file, d);
            &&& table.len() <= t.len() <= table.len() + 1
            &&& forall|k: int| #![trigger t[k]] 0 <= k < t.len() ==> {
                ||| k < table.len() && t[k] == table[k]
                ||| k < table.len() && table[k].0 == file && t[k] == (file, table[k].1 + d)
                ||| k == table.len() && t[k] == (file, d)
            }
        }),
{
}

/// Law: every report in the conflict table for installing `files` over `mods` names a mod
/// that holds the table entry's file (with that mod's identifier, name and version), and
/// marks the file as an archive exactly when its path ends with `.archive`.
pub proof fn lemma_conflict_reports_fit(mods: Seq<ModInfoView>, files: Seq<Seq<char>>)
    ensures
        forall|k: int| 0 <= k < conflict_table(mods, files).len()
            ==> reports_fit(mods, (#[trigger] conflict_table(mods, files)[k]).0, conflict_table(mods, files)[k].1),
    decreases files.len(),
{
    if files.len() > 0 {
        let p = files.drop_last();
        let f = files.last();
        lemma_conflict_reports_fit(mods, p);
        lemma_conflicts_for_fit(mods, f);
        let table = conflict_table(mods, p);
        let d = conflicts_for(mods, f);
        let t = conflict_table(mods, files);
        assert(t == add_conflicts(table, f, d));
        lemma_add_conflicts_entries(table, f, d);
        assert forall|k: int| 0 <= k < t.len() implies reports_fit(mods, (#[trigger] t[k]).0, t[k].1) by {
            if k < table.len() && table[k].0 == f && t[k] == (f, table[k].1 + d) {
                let rs = table[k].1 + d;
                assert forall|i: int| 0 <= i < rs.len() implies report_fits(mods, f, #[trigger] rs[i]) by {
                    if i < table[k].1.len() {
                        assert(rs[i] == table[k].1[i]);
                    } else {
                        assert(rs[i] == d[i - table[k].1.len()]);
                    }
                }
            }
        }
    }
}

} // verus!
