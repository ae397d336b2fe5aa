//! One batch of renames, as a state machine the unverified edge drives: each
//! call returns the next external action (call the provider, upsert a record,
//! apply a nickname), and each outcome is fed back in. Every decision — reuse
//! a stored name, retry a failed generation, persist before returning, skip
//! an unchanged name, halt on a persistence failure — is made and verified
//! here; the edge only performs the actions.

use crate::cache::NameCache;
use crate::gen::GenError;
use crate::gen::GenOutcome;
use crate::gen::build_prompt;
use crate::gen::classify;
use crate::gen::classify_outcome;
use crate::gen::prompt_text;
use crate::resolve::resolve;
use vstd::prelude::*;

verus! {

/// The one account allowed to trigger a batch; it is itself never renamed.
pub const OWNER_ID: u64 = 387230392278712320;

/// Whether an account may trigger a batch.
pub fn is_authorized(user_id: u64) -> (r: bool)
    ensures
        r == (user_id == OWNER_ID),
{
    user_id == OWNER_ID
}

/// One server member: the stable id, the account name the prompt is built
/// from, and the currently applied nickname, if any.
#[derive(Debug)]
pub struct Member {
    pub id: u64,
    pub name: String,
    pub nick: Option<String>,
}

/// The ids of a member sequence, in order.
pub open spec fn ids_of(members: Seq<Member>) -> Seq<u64> {
    members.map_values(|m: Member| m.id)
}

/// The views of a name sequence, in order.
pub open spec fn names_of(names: Seq<String>) -> Seq<Seq<char>> {
    names.map_values(|s: String| s@)
}

/// The members a batch processes: all but the owner, in the given order.
pub open spec fn eligible(members: Seq<Member>) -> Seq<Member>
    decreases members.len(),
{
    if members.len() == 0 {
        Seq::empty()
    } else if members.last().id == OWNER_ID {
        eligible(members.drop_last())
    } else {
        eligible(members.drop_last()).push(members.last())
    }
}

/// Drops the owner from the member list, keeping the order.
pub fn eligible_members(all: Vec<Member>) -> (r: Vec<Member>)
    ensures
        r@ == eligible(all@),
{
    let mut rest = all;
    let mut kept: Vec<Member> = Vec::new();
    let ghost whole = rest@;
    let ghost mut k: int = 0;
    while rest.len() > 0
        invariant
            0 <= k <= whole.len(),
            rest@ == whole.skip(k),
            kept@ == eligible(whole.take(k)),
        decreases rest@.len(),
    {
        let m = rest.remove(0);
        proof {
            assert(whole.skip(k)[0] == whole[k]);
            assert(whole.skip(k).remove(0) =~= whole.skip(k + 1));
            assert(whole.take(k + 1).drop_last() =~= whole.take(k));
            assert(whole.take(k + 1).last() == whole[k]);
        }
        if m.id != OWNER_ID {
            kept.push(m);
        }
        proof {
            k = k + 1;
        }
    }
    proof {
        assert(whole.take(k) =~= whole);
    }
    kept
}

/// What the edge must do next.
#[derive(Debug)]
pub enum Action {
    /// Ask the provider for a completion with this user instruction.
    Generate { prompt: String },
    /// The attempt failed for the given reason; log it and ask again with the
    /// same instruction.
    Retry { error: GenError, prompt: String },
    /// Upsert this record in the store.
    Persist { id: u64, name: String },
    /// Apply this name to the member's profile.
    Apply { id: u64, name: String },
    /// The member's applied name is already the resolved one; nothing to do.
    Skip { id: u64 },
    /// Every member is processed.
    Done,
    /// A persistence failure: the batch stops, later members unprocessed.
    Aborted,
}

enum Phase {
    Deciding,
    Generating,
    Persisting { name: String },
    Applying,
    Finished,
    Halted,
}

/// One batch over a member list: the loaded snapshot of the store, the
/// members still to process, and the names resolved so far.
pub struct Batch {
    members: Vec<Member>,
    cache: NameCache,
    results: Vec<String>,
    idx: usize,
    phase: Phase,
    init: Ghost<Map<u64, Seq<char>>>,
    gens: Ghost<Seq<Seq<char>>>,
}

impl Batch {
    /// The members of the batch, in processing order.
    pub closed spec fn members(self) -> Seq<Member> {
        self.members@
    }

    /// How many members are fully processed.
    pub closed spec fn idx(self) -> int {
        self.idx as int
    }

    /// The snapshot of the store's mapping, upserts included.
    pub closed spec fn store(self) -> Map<u64, Seq<char>> {
        self.cache@
    }

    /// The resolved name of each processed member, in order.
    pub closed spec fn names(self) -> Seq<Seq<char>> {
        names_of(self.results@)
    }

    /// The mapping the batch started from.
    pub closed spec fn init(self) -> Map<u64, Seq<char>> {
        self.init@
    }

    /// The successful generation results so far, in order.
    pub closed spec fn gens(self) -> Seq<Seq<char>> {
        self.gens@
    }

    /// The next member is to be decided on (or the batch is past the last).
    pub closed spec fn is_deciding(self) -> bool {
        self.phase is Deciding
    }

    /// A generation call for the current member is outstanding.
    pub closed spec fn is_generating(self) -> bool {
        self.phase is Generating
    }

    /// An upsert of the current member's generated name is outstanding.
    pub closed spec fn is_persisting(self) -> bool {
        self.phase is Persisting
    }

    /// The name whose upsert is outstanding.
    pub closed spec fn pending(self) -> Seq<char> {
        match self.phase {
            Phase::Persisting { name } => name@,
            _ => Seq::empty(),
        }
    }

    /// A nickname update for the just-resolved member is outstanding.
    pub closed spec fn is_applying(self) -> bool {
        self.phase is Applying
    }

    /// Every member is processed.
    pub closed spec fn is_finished(self) -> bool {
        self.phase is Finished
    }

    /// A persistence failure stopped the batch.
    pub closed spec fn is_halted(self) -> bool {
        self.phase is Halted
    }

    /// The batch is exactly the resolver model run over the processed prefix:
    /// the resolved names, the store's mapping and the generation calls spent
    /// are those of [`resolve`] on the first `idx()` members.
    pub open spec fn inv(self) -> bool {
        let r = resolve(self.init(), ids_of(self.members()).take(self.idx()), self.gens());
        &&& self.idx() <= self.members().len()
        &&& self.names() == r.names
        &&& self.store() == r.store
        &&& self.gens().len() == r.misses
        &&& (self.is_generating() || self.is_persisting()) ==> self.idx() < self.members().len()
            && !r.store.contains_key(self.members()[self.idx()].id)
        &&& self.is_finished() ==> self.idx() == self.members().len()
    }

    /// Starts a batch: the owner is dropped from the member list, and the
    /// store's rows, bulk-loaded once by the edge, become the snapshot.
    pub fn new(all_members: Vec<Member>, cache: NameCache) -> (r: Batch)
        ensures
            r.inv(),
            r.is_deciding(),
            r.idx() == 0,
            r.members() == eligible(all_members@),
            r.store() == cache@,
            r.init() == cache@,
            r.names() == Seq::<Seq<char>>::empty(),
            r.gens() == Seq::<Seq<char>>::empty(),
    {
        let members = eligible_members(all_members);
        let ghost init = cache@;
        let r = Batch {
            members,
            cache,
            results: Vec::new(),
            idx: 0,
            phase: Phase::Deciding,
            init: Ghost(init),
            gens: Ghost(Seq::empty()),
        };
        proof {
            assert(ids_of(r.members@).take(0) =~= Seq::<u64>::empty());
            assert(names_of(r.results@) =~= Seq::<Seq<char>>::empty());
        }
        r
    }

    /// Decides the next member: done past the last; a stored name is reused
    /// (no generation call, no write) and applied unless it is already the
    /// member's nickname; a member without a record needs a generation call.
    pub fn advance(&mut self) -> (action: Action)
        requires
            old(self).inv(),
            old(self).is_deciding(),
        ensures
            final(self).inv(),
            final(self).members() == old(self).members(),
            final(self).init() == old(self).init(),
            ({
                let k = old(self).idx();
                if k == old(self).members().len() {
                    &&& action is Done
                    &&& final(self).is_finished()
                    &&& final(self).idx() == k
                    &&& final(self).names() == old(self).names()
                    &&& final(self).store() == old(self).store()
                    &&& final(self).gens() == old(self).gens()
                } else {
                    let m = old(self).members()[k];
                    if old(self).store().contains_key(m.id) {
                        &&& final(self).idx() == k + 1
                        &&& final(self).names() == old(self).names().push(old(self).store()[m.id])
                        &&& final(self).store() == old(self).store()
                        &&& final(self).gens() == old(self).gens()
                        &&& if m.nick is Some && m.nick->0@ == old(self).store()[m.id] {
                            action == (Action::Skip { id: m.id }) && final(self).is_deciding()
                        } else {
                            (action matches Action::Apply { id, name } && id == m.id && name@ == old(
                                self,
                            ).store()[m.id]) && final(self).is_applying()
                        }
                    } else {
                        &&& (action matches Action::Generate { prompt } && prompt@ == prompt_text(
                            m.name@,
                        ))
                        &&& final(self).is_generating()
                        &&& final(self).idx() == k
                        &&& final(self).names() == old(self).names()
                        &&& final(self).store() == old(self).store()
                        &&& final(self).gens() == old(self).gens()
                    }
                }
            }),
    {
        if self.idx == self.members.len() {
            self.phase = Phase::Finished;
            return Action::Done;
        }
        let id = self.members[self.idx].id;
        let stored: Option<String> = match self.cache.get(id) {
            Some(name) => Some(name.clone()),
            None => None,
        };
        match stored {
            Some(name) => {
                proof {
                    self.lemma_step_hit();
                }
                self.results.push(name.clone());
                self.idx = self.idx + 1;
                proof {
                    assert(names_of(self.results@) =~= names_of(old(self).results@).push(name@));
                }
                let unchanged = match &self.members[self.idx - 1].nick {
                    Some(nick) => *nick == name,
                    None => false,
                };
                if unchanged {
                    self.phase = Phase::Deciding;
                    Action::Skip { id }
                } else {
                    self.phase = Phase::Applying;
                    Action::Apply { id, name }
                }
            },
            None => {
                self.phase = Phase::Generating;
                let prompt = build_prompt(self.members[self.idx].name.as_str());
                Action::Generate { prompt }
            },
        }
    }

    /// Unfolds the resolver model by one member for the cache-hit step.
    proof fn lemma_step_hit(&self)
        requires
            self.inv(),
            self.idx() < self.members().len(),
            self.store().contains_key(self.members()[self.idx()].id),
        ensures
            resolve(self.init(), ids_of(self.members()).take(self.idx() + 1), self.gens())
                == (crate::resolve::Resolution {
                store: self.store(),
                names: self.names().push(self.store()[self.members()[self.idx()].id]),
                misses: self.gens().len() as nat,
            }),
    {
        let k = self.idx();
        let ids = ids_of(self.members());
        assert(ids.take(k + 1).drop_last() =~= ids.take(k));
        assert(ids.take(k + 1).last() == ids[k]);
        assert(ids[k] == self.members()[k].id);
    }

    /// Classifies what the provider handed back for the current member: a
    /// failure of any kind is retried with the same instruction; a success
    /// must be persisted before the member is resolved.
    pub fn on_generation(&mut self, outcome: GenOutcome) -> (action: Action)
        requires
            old(self).inv(),
            old(self).is_generating(),
        ensures
            final(self).inv(),
            final(self).members() == old(self).members(),
            final(self).init() == old(self).init(),
            final(self).idx() == old(self).idx(),
            final(self).names() == old(self).names(),
            final(self).store() == old(self).store(),
            final(self).gens() == old(self).gens(),
            ({
                let m = old(self).members()[old(self).idx()];
                match classify(outcome) {
                    Ok(name) => (action matches Action::Persist { id, name: n } && id == m.id
                        && n@ == name) && final(self).is_persisting() && final(self).pending()
                        == name,
                    Err(e) => (action matches Action::Retry { error, prompt } && error == e
                        && prompt@ == prompt_text(m.name@)) && final(self).is_generating(),
                }
            }),
    {
        let id = self.members[self.idx].id;
        match classify_outcome(outcome) {
            Ok(name) => {
                self.phase = Phase::Persisting { name: name.clone() };
                Action::Persist { id, name }
            },
            Err(error) => {
                let prompt = build_prompt(self.members[self.idx].name.as_str());
                Action::Retry { error, prompt }
            },
        }
    }

    /// Takes the store's answer to the upsert of the generated name. On
    /// success the record is mirrored in the snapshot and the member is
    /// resolved — applied unless the name is already the member's nickname.
    /// On failure the batch halts; the name is not recorded anywhere.
    pub fn on_persist(&mut self, ok: bool) -> (action: Action)
        requires
            old(self).inv(),
            old(self).is_persisting(),
        ensures
            final(self).inv(),
            final(self).members() == old(self).members(),
            final(self).init() == old(self).init(),
            ({
                let k = old(self).idx();
                let m = old(self).members()[k];
                let name = old(self).pending();
                if ok {
                    &&& final(self).idx() == k + 1
                    &&& final(self).store() == old(self).store().insert(m.id, name)
                    &&& final(self).names() == old(self).names().push(name)
                    &&& final(self).gens() == old(self).gens().push(name)
                    &&& if m.nick is Some && m.nick->0@ == name {
                        action == (Action::Skip { id: m.id }) && final(self).is_deciding()
                    } else {
                        (action matches Action::Apply { id, name: n } && id == m.id && n@ == name)
                            && final(self).is_applying()
                    }
                } else {
                    &&& action is Aborted
                    &&& final(self).is_halted()
                    &&& final(self).idx() == k
                    &&& final(self).names() == old(self).names()
                    &&& final(self).store() == old(self).store()
                    &&& final(self).gens() == old(self).gens()
                }
            }),
    {
        if !ok {
            self.phase = Phase::Halted;
            return Action::Aborted;
        }
        let name = match &self.phase {
            Phase::Persisting { name } => name.clone(),
            _ => String::new(),
        };
        let id = self.members[self.idx].id;
        proof {
            self.lemma_step_miss(name@);
        }
        self.cache.insert(id, name.clone());
        self.results.push(name.clone());
        self.gens = Ghost(self.gens@.push(name@));
        let member_count = self.members.len();
        proof {
            assert(self.idx < member_count);
        }
        self.idx = self.idx + 1;
        proof {
            assert(names_of(self.results@) =~= names_of(old(self).results@).push(name@));
        }
        let unchanged = match &self.members[self.idx - 1].nick {
            Some(nick) => *nick == name,
            None => false,
        };
        if unchanged {
            self.phase = Phase::Deciding;
            Action::Skip { id }
        } else {
            self.phase = Phase::Applying;
            Action::Apply { id, name }
        }
    }

    /// Unfolds the resolver model by one member for the cache-miss step.
    proof fn lemma_step_miss(&self, name: Seq<char>)
        requires
            self.inv(),
            self.idx() < self.members().len(),
            !self.store().contains_key(self.members()[self.idx()].id),
        ensures
            resolve(self.init(), ids_of(self.members()).take(self.idx() + 1), self.gens().push(name))
                == (crate::resolve::Resolution {
                store: self.store().insert(self.members()[self.idx()].id, name),
                names: self.names().push(name),
                misses: (self.gens().len() + 1) as nat,
            }),
    {
        let k = self.idx();
        let ids = ids_of(self.members());
        crate::resolve::lemma_resolve_ignores_unused_gens(
            self.init(),
            ids.take(k),
            self.gens(),
            self.gens().push(name),
        );
        assert(ids.take(k + 1).drop_last() =~= ids.take(k));
        assert(ids.take(k + 1).last() == ids[k]);
        assert(ids[k] == self.members()[k].id);
    }

    /// Takes the outcome of the nickname update. Success or failure, the
    /// batch moves on: an update failure only costs that member's update.
    pub fn applied(&mut self)
        requires
            old(self).inv(),
            old(self).is_applying(),
        ensures
            final(self).inv(),
            final(self).is_deciding(),
            final(self).members() == old(self).members(),
            final(self).init() == old(self).init(),
            final(self).idx() == old(self).idx(),
            final(self).names() == old(self).names(),
            final(self).store() == old(self).store(),
            final(self).gens() == old(self).gens(),
    {
        self.phase = Phase::Deciding;
    }

    /// The resolved name of each processed member, in order.
    pub fn results(&self) -> (r: &Vec<String>)
        ensures
            names_of(r@) == self.names(),
    {
        &self.results
    }

    /// The stored name for a member in the snapshot, upserts included.
    pub fn stored_name(&self, id: u64) -> (r: Option<&String>)
        ensures
            match r {
                Some(name) => self.store().contains_key(id) && name@ == self.store()[id],
                None => !self.store().contains_key(id),
            },
    {
        self.cache.get(id)
    }

    /// How many members have a record in the snapshot.
    pub fn record_count(&self) -> (r: usize)
        ensures
            r == self.store().len(),
    {
        self.cache.len()
    }

    /// Whether every member is processed.
    pub fn finished(&self) -> (r: bool)
        ensures
            r == self.is_finished(),
    {
        match self.phase {
            Phase::Finished => true,
            _ => false,
        }
    }

    /// Whether a persistence failure stopped the batch.
    pub fn halted(&self) -> (r: bool)
        ensures
            r == self.is_halted(),
    {
        match self.phase {
            Phase::Halted => true,
            _ => false,
        }
    }
}

} // verus!
