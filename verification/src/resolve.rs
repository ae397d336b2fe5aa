//! The mathematical model of one batch: what names a member sequence
//! resolves to, what the store holds afterwards, and how many generation
//! calls the batch makes, given the names the provider produces.
//!
//! The laws of the resolver are stated and proved here: a member with a
//! record is resolved from the store and costs no generation call; after a
//! batch every member has exactly one record, and it is the name the batch
//! resolved; a second run over the store the first run left behind resolves
//! the same names and makes no generation call.

use vstd::prelude::*;

verus! {

/// What a batch has produced after some prefix of the members: the store's
/// mapping, the resolved name of each processed member in order, and how
/// many generation calls were spent (one per member that had no record).
pub struct Resolution {
    pub store: Map<u64, Seq<char>>,
    pub names: Seq<Seq<char>>,
    pub misses: nat,
}

/// Resolves the members `ids` in order against the initial mapping `store0`.
/// A member with a record is given the stored name; a member without one is
/// given the next unused name of `gens` — the successful generation results
/// in order — and the new record is added before the next member is handled.
pub open spec fn resolve(store0: Map<u64, Seq<char>>, ids: Seq<u64>, gens: Seq<Seq<char>>) -> Resolution
    decreases ids.len(),
{
    if ids.len() == 0 {
        Resolution { store: store0, names: Seq::empty(), misses: 0 }
    } else {
        let prev = resolve(store0, ids.drop_last(), gens);
        let id = ids.last();
        if prev.store.contains_key(id) {
            Resolution {
                store: prev.store,
                names: prev.names.push(prev.store[id]),
                misses: prev.misses,
            }
        } else {
            Resolution {
                store: prev.store.insert(id, gens[prev.misses as int]),
                names: prev.names.push(gens[prev.misses as int]),
                misses: prev.misses + 1,
            }
        }
    }
}

/// One name is resolved per member, and at most one generation call is spent
/// per member.
pub proof fn lemma_resolve_counts(store0: Map<u64, Seq<char>>, ids: Seq<u64>, gens: Seq<Seq<char>>)
    ensures
        resolve(store0, ids, gens).names.len() == ids.len(),
        resolve(store0, ids, gens).misses <= ids.len(),
    decreases ids.len(),
{
    if ids.len() > 0 {
        lemma_resolve_counts(store0, ids.drop_last(), gens);
    }
}

/// A batch only adds records: every record of the initial mapping survives
/// unchanged, and every record afterwards belongs to the initial mapping or
/// to a processed member.
pub proof fn lemma_resolve_extends_store(
    store0: Map<u64, Seq<char>>,
    ids: Seq<u64>,
    gens: Seq<Seq<char>>,
)
    ensures
        forall|k: u64|
            store0.contains_key(k) ==> #[trigger] resolve(store0, ids, gens).store.contains_key(k)
                && resolve(store0, ids, gens).store[k] == store0[k],
        forall|k: u64|
            #[trigger] resolve(store0, ids, gens).store.contains_key(k) ==> store0.contains_key(k)
                || ids.contains(k),
    decreases ids.len(),
{
    if ids.len() > 0 {
        lemma_resolve_extends_store(store0, ids.drop_last(), gens);
        assert forall|k: u64|
            store0.contains_key(k) implies #[trigger] resolve(store0, ids, gens).store.contains_key(
            k,
        ) && resolve(store0, ids, gens).store[k] == store0[k] by {
            let prev = resolve(store0, ids.drop_last(), gens);
            assert(prev.store.contains_key(k) && prev.store[k] == store0[k]);
            if !prev.store.contains_key(ids.last()) {
                assert(k != ids.last());
            }
        }
        assert forall|k: u64|
            #[trigger] resolve(store0, ids, gens).store.contains_key(k) implies store0.contains_key(
            k,
        ) || ids.contains(k) by {
            if resolve(store0, ids.drop_last(), gens).store.contains_key(k) {
                if !store0.contains_key(k) {
                    assert(ids.drop_last().contains(k));
                    let j = choose|j: int|
                        0 <= j < ids.drop_last().len() && ids.drop_last()[j] == k;
                    assert(ids[j] == k);
                }
            } else {
                assert(k == ids.last());
                assert(ids[ids.len() - 1] == k);
            }
        }
    }
}

/// Members already present in the mapping are resolved to exactly the stored
/// value, and a batch of only such members makes no generation call and
/// leaves the mapping as it was.
pub proof fn lemma_present_members_reuse_store(
    store0: Map<u64, Seq<char>>,
    ids: Seq<u64>,
    gens: Seq<Seq<char>>,
)
    ensures
        forall|i: int|
            0 <= i < ids.len() && store0.contains_key(ids[i]) ==> #[trigger] resolve(
                store0,
                ids,
                gens,
            ).names[i] == store0[ids[i]],
        (forall|i: int| 0 <= i < ids.len() ==> store0.contains_key(#[trigger] ids[i])) ==> resolve(
            store0,
            ids,
            gens,
        ).misses == 0 && resolve(store0, ids, gens).store == store0,
    decreases ids.len(),
{
    if ids.len() > 0 {
        lemma_present_members_reuse_store(store0, ids.drop_last(), gens);
        lemma_resolve_counts(store0, ids.drop_last(), gens);
        lemma_resolve_extends_store(store0, ids.drop_last(), gens);
        assert forall|i: int|
            0 <= i < ids.len() && store0.contains_key(ids[i]) implies #[trigger] resolve(
            store0,
            ids,
            gens,
        ).names[i] == store0[ids[i]] by {
            if i < ids.len() - 1 {
                assert(ids.drop_last()[i] == ids[i]);
                assert(resolve(store0, ids.drop_last(), gens).names[i] == store0[ids[i]]);
            } else {
                assert(ids.last() == ids[i]);
            }
        }
        if forall|i: int| 0 <= i < ids.len() ==> store0.contains_key(#[trigger] ids[i]) {
            assert forall|i: int|
                0 <= i < ids.drop_last().len() implies store0.contains_key(
                #[trigger] ids.drop_last()[i],
            ) by {
                assert(ids.drop_last()[i] == ids[i]);
            }
            assert(ids[ids.len() - 1] == ids.last());
            assert(store0.contains_key(ids.last()));
        }
    }
}

/// After a batch, every processed member has a record, and the record is the
/// name the batch resolved for that member.
pub proof fn lemma_store_after_batch(
    store0: Map<u64, Seq<char>>,
    ids: Seq<u64>,
    gens: Seq<Seq<char>>,
)
    ensures
        forall|i: int|
            0 <= i < ids.len() ==> resolve(store0, ids, gens).store.contains_key(#[trigger] ids[i]),
        forall|i: int|
            0 <= i < ids.len() ==> resolve(store0, ids, gens).store[#[trigger] ids[i]] == resolve(
                store0,
                ids,
                gens,
            ).names[i],
    decreases ids.len(),
{
    if ids.len() > 0 {
        lemma_store_after_batch(store0, ids.drop_last(), gens);
        lemma_resolve_counts(store0, ids.drop_last(), gens);
        let prev = resolve(store0, ids.drop_last(), gens);
        let id = ids.last();
        assert(ids[ids.len() - 1] == id);
        assert forall|i: int|
            0 <= i < ids.len() implies resolve(store0, ids, gens).store.contains_key(
            #[trigger] ids[i],
        ) && resolve(store0, ids, gens).store[ids[i]] == resolve(store0, ids, gens).names[i] by {
            if i < ids.len() - 1 {
                assert(ids.drop_last()[i] == ids[i]);
                assert(prev.store.contains_key(ids[i]));
                if !prev.store.contains_key(id) {
                    assert(ids[i] != id);
                }
            }
        }
    }
}

/// A member absent from the initial mapping, at its first occurrence, is
/// resolved to the generation result produced at its turn: the one after all
/// the generation calls the earlier members spent.
pub proof fn lemma_fresh_member_gets_generated(
    store0: Map<u64, Seq<char>>,
    ids: Seq<u64>,
    gens: Seq<Seq<char>>,
    i: int,
)
    requires
        0 <= i < ids.len(),
        !store0.contains_key(ids[i]),
        forall|j: int| 0 <= j < i ==> ids[j] != ids[i],
    ensures
        resolve(store0, ids, gens).names[i] == gens[resolve(
            store0,
            ids.take(i),
            gens,
        ).misses as int],
    decreases ids.len(),
{
    lemma_resolve_counts(store0, ids.drop_last(), gens);
    if i == ids.len() - 1 {
        let prev = resolve(store0, ids.drop_last(), gens);
        lemma_resolve_extends_store(store0, ids.drop_last(), gens);
        assert(!ids.drop_last().contains(ids[i])) by {
            if ids.drop_last().contains(ids[i]) {
                let j = choose|j: int|
                    0 <= j < ids.drop_last().len() && ids.drop_last()[j] == ids[i];
                assert(ids[j] == ids[i]);
            }
        }
        assert(!prev.store.contains_key(ids.last()));
        assert(ids.take(i) =~= ids.drop_last());
    } else {
        assert forall|j: int| 0 <= j < i implies ids.drop_last()[j] != ids.drop_last()[i] by {
            assert(ids.drop_last()[j] == ids[j]);
            assert(ids.drop_last()[i] == ids[i]);
        }
        assert(ids.drop_last()[i] == ids[i]);
        lemma_fresh_member_gets_generated(store0, ids.drop_last(), gens, i);
        assert(ids.drop_last().take(i) =~= ids.take(i));
        lemma_resolve_counts(store0, ids, gens);
    }
}

/// Running the batch again over the mapping the first run left behind
/// resolves the same names, leaves the mapping unchanged, and makes no
/// generation call — so no generation results are needed at all.
pub proof fn lemma_second_run_unchanged(
    store0: Map<u64, Seq<char>>,
    ids: Seq<u64>,
    gens: Seq<Seq<char>>,
)
    ensures
        ({
            let first = resolve(store0, ids, gens);
            let second = resolve(first.store, ids, Seq::<Seq<char>>::empty());
            &&& second.misses == 0
            &&& second.names == first.names
            &&& second.store == first.store
        }),
{
    let first = resolve(store0, ids, gens);
    let second = resolve(first.store, ids, Seq::<Seq<char>>::empty());
    lemma_store_after_batch(store0, ids, gens);
    lemma_present_members_reuse_store(first.store, ids, Seq::<Seq<char>>::empty());
    lemma_resolve_counts(store0, ids, gens);
    lemma_resolve_counts(first.store, ids, Seq::<Seq<char>>::empty());
    assert forall|i: int| 0 <= i < ids.len() implies second.names[i] == first.names[i] by {
        assert(first.store.contains_key(ids[i]));
        assert(second.names[i] == first.store[ids[i]]);
    }
    assert(second.names =~= first.names);
}

/// The batch reads only the generation results it spends: any sequence that
/// agrees on those resolves to the same outcome.
pub proof fn lemma_resolve_ignores_unused_gens(
    store0: Map<u64, Seq<char>>,
    ids: Seq<u64>,
    gens1: Seq<Seq<char>>,
    gens2: Seq<Seq<char>>,
)
    requires
        forall|i: int|
            0 <= i < resolve(store0, ids, gens1).misses ==> i < gens1.len() && i < gens2.len()
                && gens1[i] == gens2[i],
    ensures
        resolve(store0, ids, gens2) == resolve(store0, ids, gens1),
    decreases ids.len(),
{
    if ids.len() > 0 {
        let cur = resolve(store0, ids, gens1);
        let prev = resolve(store0, ids.drop_last(), gens1);
        assert(prev.misses <= cur.misses);
        lemma_resolve_ignores_unused_gens(store0, ids.drop_last(), gens1, gens2);
    }
}

} // verus!
