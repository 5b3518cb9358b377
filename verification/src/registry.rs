//! Ghost model of the subscriber registry.
//!
//! Each live subscription is denoted by the serial number it was issued at
//! creation. A broadcast pass walks the registry once and makes one boolean
//! keep-or-drop decision per entry; [`kept_entries`] says which serial
//! numbers survive such a pass and in what order.

use vstd::prelude::*;

verus! {

/// No serial number appears twice in `s`.
pub open spec fn all_distinct(s: Seq<nat>) -> bool {
    forall|i: int, j: int| 0 <= i < j < s.len() ==> s[i] != s[j]
}

/// Every serial number in `s` lies below `bound`.
pub open spec fn all_below(s: Seq<nat>, bound: nat) -> bool {
    forall|i: int| 0 <= i < s.len() ==> s[i] < bound
}

/// The entries of `s` that survive a broadcast pass whose per-entry keep
/// decisions are `m`: entry `i` stays exactly when `m[i]` is true, and the
/// survivors keep their relative order. No entry is ever added.
pub open spec fn kept_entries(s: Seq<nat>, m: Seq<bool>) -> Seq<nat>
    recommends
        s.len() == m.len(),
    decreases s.len(),
{
    if s.len() == 0 {
        Seq::<nat>::empty()
    } else {
        let rest = kept_entries(s.drop_last(), m.drop_last());
        if m.last() {
            rest.push(s.last())
        } else {
            rest
        }
    }
}

/// A broadcast pass never grows the registry.
pub proof fn lemma_kept_entries_len(s: Seq<nat>, m: Seq<bool>)
    ensures
        kept_entries(s, m).len() <= s.len(),
    decreases s.len(),
{
    if s.len() != 0 {
        lemma_kept_entries_len(s.drop_last(), m.drop_last());
    }
}

/// A broadcast pass never invents an entry: every surviving serial number
/// was registered before the pass.
pub proof fn lemma_kept_entries_membership(s: Seq<nat>, m: Seq<bool>, x: nat)
    requires
        kept_entries(s, m).contains(x),
    ensures
        s.contains(x),
    decreases s.len(),
{
    if s.len() == 0 {
    } else {
        let rest = kept_entries(s.drop_last(), m.drop_last());
        let kept = kept_entries(s, m);
        if m.last() {
            let i = choose|i: int| 0 <= i < kept.len() && kept[i] == x;
            if i < rest.len() {
                assert(rest.contains(x));
                lemma_kept_entries_membership(s.drop_last(), m.drop_last(), x);
                let j = choose|j: int| 0 <= j < s.drop_last().len() && s.drop_last()[j] == x;
                assert(s[j] == x);
            } else {
                assert(x == s.last());
                assert(s[s.len() - 1] == x);
            }
        } else {
            lemma_kept_entries_membership(s.drop_last(), m.drop_last(), x);
            let j = choose|j: int| 0 <= j < s.drop_last().len() && s.drop_last()[j] == x;
            assert(s[j] == x);
        }
    }
}

/// A broadcast pass keeps every surviving serial number below any bound
/// that held before the pass.
pub proof fn lemma_kept_entries_below(s: Seq<nat>, m: Seq<bool>, bound: nat)
    requires
        all_below(s, bound),
    ensures
        all_below(kept_entries(s, m), bound),
{
    let kept = kept_entries(s, m);
    assert forall|i: int| 0 <= i < kept.len() implies kept[i] < bound by {
        assert(kept.contains(kept[i]));
        lemma_kept_entries_membership(s, m, kept[i]);
        let j = choose|j: int| 0 <= j < s.len() && s[j] == kept[i];
        assert(s[j] < bound);
    }
}

/// A broadcast pass preserves distinctness: if no subscription was
/// registered twice before the pass, none is registered twice after it.
pub proof fn lemma_kept_entries_distinct(s: Seq<nat>, m: Seq<bool>)
    requires
        all_distinct(s),
    ensures
        all_distinct(kept_entries(s, m)),
    decreases s.len(),
{
    if s.len() != 0 {
        assert(all_distinct(s.drop_last()));
        lemma_kept_entries_distinct(s.drop_last(), m.drop_last());
        let rest = kept_entries(s.drop_last(), m.drop_last());
        let kept = kept_entries(s, m);
        if m.last() {
            if rest.contains(s.last()) {
                lemma_kept_entries_membership(s.drop_last(), m.drop_last(), s.last());
                let j = choose|j: int|
                    0 <= j < s.drop_last().len() && s.drop_last()[j] == s.last();
                assert(s[j] == s[s.len() - 1]);
                assert(false);
            }
            assert forall|i: int, j: int| 0 <= i < j < kept.len() implies kept[i] != kept[j] by {
                if j < rest.len() {
                    assert(rest[i] != rest[j]);
                } else {
                    assert(kept[j] == s.last());
                    assert(rest.contains(rest[i]));
                }
            }
        }
    }
}

} // verus!
