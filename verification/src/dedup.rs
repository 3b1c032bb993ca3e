//! Deduplication of the mod list: which mods a later installation with the same
//! NexusMods identity replaces, and what deduplication keeps.

use vstd::prelude::*;

use crate::mod_manager::{ModInfoView, mod_key};

verus! {

/// A mod with a NexusMods identity that a later mod of `s` shares: deduplication drops it.
pub open spec fn superseded(s: Seq<ModInfoView>, i: int) -> bool {
    &&& mod_key(s[i]) is Some
    &&& exists|j: int| i < j < s.len() && #[trigger] mod_key(s[j]) == mod_key(s[i])
}

/// The mods among the first `n` of `s` that deduplication keeps, in their order.
pub open spec fn dedup_prefix(s: Seq<ModInfoView>, n: nat) -> Seq<ModInfoView>
    decreases n,
{
    if n == 0 {
        seq![]
    } else {
        let p = dedup_prefix(s, (n - 1) as nat);
        if superseded(s, n - 1) {
            p
        } else {
            p.push(s[n - 1])
        }
    }
}

/// `s` with every mod removed that a later mod with the same mod ID and file ID replaces.
pub open spec fn deduplicated(s: Seq<ModInfoView>) -> Seq<ModInfoView> {
    dedup_prefix(s, s.len())
}

/// Deduplication never lengthens the list.
pub(crate) proof fn lemma_dedup_prefix_len(s: Seq<ModInfoView>, n: nat)
    ensures
        dedup_prefix(s, n).len() <= n,
    decreases n,
{
    if n > 0 {
        lemma_dedup_prefix_len(s, (n - 1) as nat);
    }
}

/// Every mod that deduplication keeps comes from the original list and is not replaced there;
/// among the kept mods no two with both IDs share them.
proof fn lemma_dedup_prefix_shape(s: Seq<ModInfoView>, n: nat)
    requires
        n <= s.len(),
    ensures
        forall|k: int| 0 <= k < dedup_prefix(s, n).len() ==> exists|i: int|
            0 <= i < n && !superseded(s, i) && #[trigger] dedup_prefix(s, n)[k] == s[i],
        forall|a: int, b: int| 0 <= a < b < dedup_prefix(s, n).len() && mod_key(dedup_prefix(s, n)[a]) is Some
            ==> mod_key(#[trigger] dedup_prefix(s, n)[a]) != mod_key(#[trigger] dedup_prefix(s, n)[b]),
    decreases n,
{
    if n > 0 {
        let m: nat = (n - 1) as nat;
        lemma_dedup_prefix_shape(s, m);
        let p = dedup_prefix(s, m);
        let t = dedup_prefix(s, n);
        if !superseded(s, m as int) {
            assert(t == p.push(s[m as int]));
            assert forall|k: int| 0 <= k < t.len() implies exists|i: int|
                0 <= i < n && !superseded(s, i) && #[trigger] t[k] == s[i] by {
                if k < p.len() {
                    assert(t[k] == p[k]);
                } else {
                    assert(t[k] == s[m as int]);
                }
            }
            assert forall|a: int, b: int| 0 <= a < b < t.len() && mod_key(t[a]) is Some
                implies mod_key(#[trigger] t[a]) != mod_key(#[trigger] t[b]) by {
                if b < p.len() {
                    assert(t[a] == p[a] && t[b] == p[b]);
                } else {
                    assert(t[a] == p[a]);
                    let i: int = choose|i: int| 0 <= i < m && !superseded(s, i) && p[a] == s[i];
                    if mod_key(t[a]) == mod_key(t[b]) {
                        assert(mod_key(s[m as int]) == mod_key(s[i]));
                        assert(superseded(s, i));
                    }
                }
            }
        }
    }
}

/// A list in which no two mods with both IDs share them is left as it is.
proof fn lemma_dedup_prefix_unique(u: Seq<ModInfoView>, n: nat)
    requires
        n <= u.len(),
        forall|a: int, b: int| 0 <= a < b < u.len() && mod_key(u[a]) is Some
            ==> mod_key(#[trigger] u[a]) != mod_key(#[trigger] u[b]),
    ensures
        dedup_prefix(u, n) == u.take(n as int),
    decreases n,
{
    if n > 0 {
        let m: nat = (n - 1) as nat;
        lemma_dedup_prefix_unique(u, m);
        if superseded(u, m as int) {
            let j: int = choose|j: int| m < j < u.len() && #[trigger] mod_key(u[j]) == mod_key(u[m as int]);
            assert(mod_key(u[m as int]) != mod_key(u[j]));
        }
        assert(u.take(n as int) =~= u.take(m as int).push(u[m as int]));
    }
}

/// A mod that no later mod replaces survives deduplication.
proof fn lemma_dedup_prefix_keeps(s: Seq<ModInfoView>, n: nat, i: int)
    requires
        n <= s.len(),
        0 <= i < n,
        !superseded(s, i),
    ensures
        dedup_prefix(s, n).contains(s[i]),
    decreases n,
{
    let m: nat = (n - 1) as nat;
    if i == m {
        assert(dedup_prefix(s, n) == dedup_prefix(s, m).push(s[i]));
        assert(dedup_prefix(s, n)[dedup_prefix(s, m).len() as int] == s[i]);
    } else {
        lemma_dedup_prefix_keeps(s, m, i);
        let k: int = choose|k: int| 0 <= k < dedup_prefix(s, m).len() && dedup_prefix(s, m)[k] == s[i];
        if !superseded(s, m as int) {
            assert(dedup_prefix(s, n)[k] == s[i]);
        }
    }
}

/// For the mod at position `i`, the latest mod at or after it with the same identity, which
/// no later mod replaces.
proof fn lemma_latest_of(s: Seq<ModInfoView>, i: int) -> (j: int)
    requires
        0 <= i < s.len(),
    ensures
        i <= j < s.len(),
        j == i || (mod_key(s[i]) is Some && mod_key(s[j]) == mod_key(s[i])),
        !superseded(s, j),
    decreases s.len() - i,
{
    if superseded(s, i) {
        let k: int = choose|k: int| i < k < s.len() && #[trigger] mod_key(s[k]) == mod_key(s[i]);
        let j: int = lemma_latest_of(s, k);
        j
    } else {
        i
    }
}

/// Law: after deduplication no two mods that have both a mod ID and a file ID share them.
pub proof fn lemma_deduplicated_ids_unique(s: Seq<ModInfoView>)
    ensures
        forall|a: int, b: int|
            0 <= a < b < deduplicated(s).len() && mod_key(deduplicated(s)[a]) is Some
                ==> mod_key(#[trigger] deduplicated(s)[a]) != mod_key(#[trigger] deduplicated(s)[b]),
{
    lemma_dedup_prefix_shape(s, s.len());
}

/// Law: deduplicating a second time changes nothing.
pub proof fn lemma_deduplicate_idempotent(s: Seq<ModInfoView>)
    ensures
        deduplicated(deduplicated(s)) == deduplicated(s),
{
    let t = deduplicated(s);
    lemma_deduplicated_ids_unique(s);
    lemma_dedup_prefix_unique(t, t.len());
    assert(t.take(t.len() as int) =~= t);
}

/// Law: deduplication only removes mods, and for every mod of the list it keeps that mod or
/// the most recent installation with the same mod ID and file ID.
pub proof fn lemma_deduplicate_keeps_latest(s: Seq<ModInfoView>, i: int)
    requires
        0 <= i < s.len(),
    ensures
        forall|k: int| 0 <= k < deduplicated(s).len() ==> s.contains(#[trigger] deduplicated(s)[k]),
        exists|j: int|
            i <= j < s.len() && (j == i || (mod_key(s[i]) is Some && mod_key(s[j]) == mod_key(s[i])))
            && !superseded(s, j) && #[trigger] deduplicated(s).contains(s[j]),
{
    lemma_dedup_prefix_shape(s, s.len());
    assert forall|k: int| 0 <= k < deduplicated(s).len() implies s.contains(#[trigger] deduplicated(s)[k]) by {
        let i0: int = choose|i0: int| 0 <= i0 < s.len() && !superseded(s, i0) && deduplicated(s)[k] == s[i0];
        assert(s[i0] == deduplicated(s)[k]);
    }
    let j: int = lemma_latest_of(s, i);
    lemma_dedup_prefix_keeps(s, s.len(), j);
    assert(deduplicated(s).contains(s[j]));
}

} // verus!
