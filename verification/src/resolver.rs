//! Remote-object resolution.
//!
//! Turning a remote id into a locally stored entity: a lookup when the
//! entity is already mirrored, otherwise an outbound fetch, bounded by a
//! per-activity budget and de-duplicated through the in-flight registry.
//! A fetched object may carry one mandatory nested reference (for example a
//! comment's post); that reference is resolved with the same budget before
//! the object is inserted, so nothing half-resolved is ever committed.
//!
//! The fetch itself is an outside effect, so a [`Resolver`] is a step
//! machine: [`Resolver::step`] decides and either finishes or names the id
//! to fetch; the caller performs the fetch however it likes and hands the
//! outcome to [`Resolver::on_fetch`].  [`resolve_with`] drives the machine
//! over a table of responses and is what tests and single-process callers
//! use.

use vstd::prelude::*;
use crate::ids::{RemoteId, RidM, rid_eq};
use crate::store::{Store, StoreM, EntM, EntityKind};
use crate::registry::{Registry, reg_contains, finish_m};
use crate::errors::ResolutionError;

verus! {

/// A remote entity as its origin server describes it.
pub struct RemoteObject {
    pub id: RemoteId,
    pub kind: EntityKind,
    pub content: String,
    /// The one mandatory nested reference, if the kind has one.
    pub parent: Option<RemoteId>,
    pub published: u64,
}

/// The mathematical value of a [`RemoteObject`].
#[verifier::ext_equal]
pub struct RobM {
    pub id: RidM,
    pub kind: EntityKind,
    pub content: Seq<char>,
    pub parent: Option<RidM>,
    pub published: u64,
}

impl View for RemoteObject {
    type V = RobM;

    open spec fn view(&self) -> RobM {
        RobM {
            id: self.id@,
            kind: self.kind,
            content: self.content@,
            parent: match self.parent {
                Some(p) => Some(p@),
                None => None,
            },
            published: self.published,
        }
    }
}

impl Clone for RemoteObject {
    fn clone(&self) -> (r: Self)
        ensures
            r == *self,
    {
        RemoteObject {
            id: self.id.clone(),
            kind: self.kind,
            content: self.content.clone(),
            parent: match &self.parent {
                Some(p) => Some(p.clone()),
                None => None,
            },
            published: self.published,
        }
    }
}

/// What one outbound fetch came back with.
pub enum FetchOutcome {
    /// The origin server served the object.
    Fetched(RemoteObject),
    /// The origin server answered that the object does not exist.
    NotFound,
    /// The request failed or timed out.
    NetworkError,
    /// The response could not be read as an entity.
    Malformed,
}

/// The mathematical value of a [`FetchOutcome`].
pub enum OutM {
    Fetched(RobM),
    NotFound,
    NetworkError,
    Malformed,
}

impl View for FetchOutcome {
    type V = OutM;

    open spec fn view(&self) -> OutM {
        match self {
            FetchOutcome::Fetched(o) => OutM::Fetched(o@),
            FetchOutcome::NotFound => OutM::NotFound,
            FetchOutcome::NetworkError => OutM::NetworkError,
            FetchOutcome::Malformed => OutM::Malformed,
        }
    }
}

impl Clone for FetchOutcome {
    fn clone(&self) -> (r: Self)
        ensures
            r@ == self@,
    {
        match self {
            FetchOutcome::Fetched(o) => FetchOutcome::Fetched(o.clone()),
            FetchOutcome::NotFound => FetchOutcome::NotFound,
            FetchOutcome::NetworkError => FetchOutcome::NetworkError,
            FetchOutcome::Malformed => FetchOutcome::Malformed,
        }
    }
}

/// One origin server response in a response table.
pub struct NetEntry {
    pub id: RemoteId,
    pub outcome: FetchOutcome,
}

/// A table of what fetching each remote id comes back with; an id without
/// an entry counts as not found.  Tests and single-process callers hand
/// this to [`resolve_with`] in place of a live transport.
pub struct RemoteNet {
    pub entries: Vec<NetEntry>,
}

/// First response recorded for `rid` at or after `i`, or `NotFound`.
pub open spec fn lookup_from(entries: Seq<NetEntry>, rid: RidM, i: int) -> OutM
    decreases entries.len() - i,
{
    if i < 0 || i >= entries.len() {
        OutM::NotFound
    } else if entries[i].id@ == rid {
        entries[i].outcome@
    } else {
        lookup_from(entries, rid, i + 1)
    }
}

impl RemoteNet {
    /// The response recorded for `rid`.
    pub open spec fn lookup(self, rid: RidM) -> OutM {
        lookup_from(self.entries@, rid, 0)
    }

    /// An empty table: every fetch comes back `NotFound`.
    pub fn new() -> (r: RemoteNet)
        ensures
            r.entries@.len() == 0,
    {
        RemoteNet { entries: Vec::new() }
    }

    /// Records that fetching `id` comes back with `outcome`.
    pub fn push(&mut self, id: RemoteId, outcome: FetchOutcome)
        ensures
            final(self).entries@ == old(self).entries@.push(NetEntry { id, outcome }),
    {
        self.entries.push(NetEntry { id, outcome });
    }

    /// Performs one fetch against the table.
    pub fn fetch(&self, rid: &RemoteId) -> (r: FetchOutcome)
        ensures
            r@ == self.lookup(rid@),
    {
        let n = self.entries.len();
        let mut i: usize = 0;
        while i < n
            invariant
                n == self.entries.len(),
                i <= n,
                lookup_from(self.entries@, rid@, 0) == lookup_from(self.entries@, rid@, i as int),
            decreases n - i,
        {
            if rid_eq(&self.entries[i].id, rid) {
                return self.entries[i].outcome.clone();
            }
            i += 1;
        }
        FetchOutcome::NotFound
    }
}

/// What inserting one fetched object does: nothing if its remote id is
/// already stored (the store is the arbiter of the insert race), else a new
/// row under the next local id.
pub open spec fn upsert_one(s: StoreM, o: RobM) -> StoreM {
    if s.contains_rid(o.id) {
        s
    } else {
        StoreM {
            ents: s.ents.push(
                EntM {
                    remote_id: o.id,
                    kind: o.kind,
                    content: o.content,
                    deleted: false,
                    updated: o.published,
                },
            ),
            ..s
        }
    }
}

/// Inserting a batch of fetched objects, last fetched first, so that an
/// object's mandatory reference is stored before the object itself.
pub open spec fn upsert_all(s: StoreM, pend: Seq<RobM>) -> StoreM
    decreases pend.len(),
{
    if pend.len() == 0 {
        s
    } else {
        upsert_all(upsert_one(s, pend.last()), pend.drop_last())
    }
}

/// The new store only appends entities; every existing row, vote and
/// follow record is untouched.
pub open spec fn store_extends(new: StoreM, old: StoreM) -> bool {
    &&& old.ents.len() <= new.ents.len()
    &&& forall|i: int| 0 <= i < old.ents.len() ==> new.ents[i] == old.ents[i]
    &&& new.votes == old.votes
    &&& new.follows == old.follows
}

/// Extension is transitive.
pub proof fn lemma_extends_trans(a: StoreM, b: StoreM, c: StoreM)
    requires
        store_extends(b, a),
        store_extends(c, b),
    ensures
        store_extends(c, a),
{
}

/// Containment is the existence of a row with the remote id.
pub proof fn lemma_contains_exists(s: StoreM, rid: RidM)
    ensures
        s.contains_rid(rid) <==> exists|k: int|
            0 <= k < s.ents.len() && (#[trigger] s.ents[k]).remote_id == rid,
{
    crate::store::lemma_find_ent_from(s.ents, rid, 0);
    if s.contains_rid(rid) {
        let r = crate::store::find_ent_from(s.ents, rid, 0);
        assert(s.ents[r].remote_id == rid);
    }
}

/// Inserting one object extends the store, keeps everything already
/// stored, and stores the object's id.
pub proof fn lemma_upsert_one(s: StoreM, o: RobM)
    ensures
        store_extends(upsert_one(s, o), s),
        upsert_one(s, o).contains_rid(o.id),
        forall|rid: RidM| s.contains_rid(rid) ==> #[trigger] upsert_one(s, o).contains_rid(rid),
{
    let s2 = upsert_one(s, o);
    lemma_contains_exists(s, o.id);
    lemma_contains_exists(s2, o.id);
    if !s.contains_rid(o.id) {
        assert(s2.ents[s.ents.len() as int].remote_id == o.id);
    }
    assert forall|rid: RidM| s.contains_rid(rid) implies #[trigger] s2.contains_rid(rid) by {
        lemma_contains_exists(s, rid);
        lemma_contains_exists(s2, rid);
        let k = choose|k: int| 0 <= k < s.ents.len() && (#[trigger] s.ents[k]).remote_id == rid;
        assert(s2.ents[k].remote_id == rid);
    }
}

/// Every object this table serves names itself and demands a further
/// reference that is absent from the store and itself served: such a
/// reference graph — remote entities that cite one another in a cycle are
/// the typical case — never grounds out, so no resolution against it can
/// complete, whatever the budget.
pub open spec fn never_grounds(net: RemoteNet, s: StoreM) -> bool {
    forall|rid: RidM|
        (#[trigger] net.lookup(rid)) matches OutM::Fetched(o) ==> ({
            &&& o.id == rid
            &&& o.parent matches Some(p) && !s.contains_rid(p) && net.lookup(p) is Fetched
        })
}

/// What one call of the step machine decided.
pub enum Step {
    /// The target is stored under this local id.
    Done(usize),
    /// The caller must fetch this id and report through `on_fetch`.
    NeedFetch(RemoteId),
    /// Another unit is already fetching this id; await its completion and
    /// step again, rather than fetching a second time.
    AwaitOther(RemoteId),
    /// Resolution failed; the target's state change must not be applied.
    Fail(ResolutionError),
}

/// One resolution in progress: the target id, the kind the caller expects
/// of it, the remaining fetch budget, the ids still to be resolved and the
/// fetched objects awaiting insertion.
pub struct Resolver {
    pub target: RemoteId,
    pub expected: EntityKind,
    pub budget: u32,
    pub todo: Vec<RemoteId>,
    pub pending: Vec<RemoteObject>,
    pub current: Option<RemoteId>,
}

impl Resolver {
    /// The ids still to be resolved.
    pub open spec fn todo_m(self) -> Seq<RidM> {
        self.todo@.map_values(|r: RemoteId| r@)
    }

    /// The fetched objects awaiting insertion, in fetch order.
    pub open spec fn pending_m(self) -> Seq<RobM> {
        self.pending@.map_values(|o: RemoteObject| o@)
    }

    /// A freshly started resolution of the target.
    pub open spec fn fresh(self) -> bool {
        &&& self.todo_m() =~= seq![self.target@]
        &&& self.pending_m().len() == 0
        &&& self.current is None
    }

    /// The target is still reachable: it is stored, or still owed as a todo
    /// entry, a fetched object awaiting insertion, or the fetch in flight.
    pub open spec fn guards(self, s: StoreM) -> bool {
        ||| s.contains_rid(self.target@)
        ||| exists|i: int| 0 <= i < self.todo_m().len() && #[trigger] self.todo_m()[i] == self.target@
        ||| exists|i: int|
            0 <= i < self.pending_m().len() && (#[trigger] self.pending_m()[i]).id == self.target@
        ||| (self.current matches Some(c) && c@ == self.target@)
    }

    /// Starts resolving `target`, expecting an entity of kind `expected`,
    /// with `budget` outbound fetches allowed.
    pub fn new(target: &RemoteId, expected: EntityKind, budget: u32) -> (r: Resolver)
        ensures
            r.fresh(),
            r.target@ == target@,
            r.expected == expected,
            r.budget == budget,
    {
        let mut todo: Vec<RemoteId> = Vec::new();
        todo.push(target.clone());
        let r = Resolver {
            target: target.clone(),
            expected,
            budget,
            todo,
            pending: Vec::new(),
            current: None,
        };
        proof {
            assert(r.todo_m() =~= seq![target@]);
        }
        r
    }

    /// Decides the next move.  Ids already stored are crossed off without
    /// touching the budget; the first id that is neither stored nor in
    /// flight costs one budget unit and is handed back to be fetched; an id
    /// someone else is fetching is awaited — the awaiting unit's own state
    /// is preserved untouched, so a fresh resolution that awaited steps
    /// again unchanged and, once the leader's row is stored, finishes on
    /// that very row without ever fetching.  When nothing is left to
    /// resolve the fetched objects are inserted, last fetched first, and
    /// the target is looked up.  The store changes only when the step
    /// returns `Done` or fails with `TypeMismatch`; every other outcome
    /// leaves it exactly as it was, so an aborted resolution commits
    /// nothing.
    pub fn step(&mut self, store: &mut Store, reg: &mut Registry) -> (r: Step)
        requires
            old(self).current is None,
            old(self).guards(old(store)@),
            old(store)@.wf(),
            old(reg).wf(),
        ensures
            final(store)@.wf(),
            final(reg).wf(),
            store_extends(final(store)@, old(store)@),
            final(self).target == old(self).target,
            final(self).expected == old(self).expected,
            final(self).budget <= old(self).budget,
            match r {
                Step::Done(i) => {
                    &&& final(self).current is None
                    &&& forall|j: int|
                        0 <= j < old(self).todo@.len() ==> old(store)@.contains_rid(
                            old(self).todo_m()[j],
                        )
                    &&& final(store)@ == upsert_all(old(store)@, old(self).pending_m())
                    &&& i < final(store)@.ents.len()
                    &&& final(store)@.ents[i as int].remote_id == old(self).target@
                    &&& final(store)@.ents[i as int].kind == old(self).expected
                    &&& final(store)@.idx_of(old(self).target@) == i
                    &&& final(reg)@ == old(reg)@
                    &&& final(self).budget == old(self).budget
                },
                Step::NeedFetch(rid) => {
                    &&& old(self).todo@.len() > 0
                    &&& final(self).todo@.len() < old(self).todo@.len()
                    &&& final(self).todo_m() =~= old(self).todo_m().take(
                        final(self).todo@.len() as int,
                    )
                    &&& rid@ == old(self).todo_m()[final(self).todo@.len() as int]
                    &&& forall|j: int|
                        final(self).todo@.len() < j < old(self).todo@.len() ==> old(
                            store,
                        )@.contains_rid(old(self).todo_m()[j])
                    &&& final(self).current matches Some(c) && c@ == rid@
                    &&& !old(store)@.contains_rid(rid@)
                    &&& !reg_contains(old(reg)@, rid@)
                    &&& final(reg)@ == old(reg)@.push(rid@)
                    &&& reg_contains(final(reg)@, rid@)
                    &&& old(self).budget > 0
                    &&& final(self).budget == old(self).budget - 1
                    &&& final(store)@ == old(store)@
                    &&& final(self).pending_m() == old(self).pending_m()
                    &&& final(self).guards(final(store)@)
                },
                Step::AwaitOther(rid) => {
                    &&& old(self).todo@.len() > 0
                    &&& final(self).current is None
                    &&& reg_contains(old(reg)@, rid@)
                    &&& !old(store)@.contains_rid(rid@)
                    &&& final(reg)@ == old(reg)@
                    &&& final(self).budget == old(self).budget
                    &&& final(store)@ == old(store)@
                    &&& final(self).pending_m() == old(self).pending_m()
                    &&& final(self).todo@.len() > 0
                    &&& final(self).todo_m() =~= old(self).todo_m().take(
                        final(self).todo@.len() as int,
                    )
                    &&& rid@ == final(self).todo_m()[final(self).todo@.len() - 1]
                    &&& forall|j: int|
                        final(self).todo@.len() <= j < old(self).todo@.len() ==> old(
                            store,
                        )@.contains_rid(old(self).todo_m()[j])
                    &&& (old(self).fresh() ==> final(self).fresh())
                    &&& final(self).guards(final(store)@)
                },
                Step::Fail(e) => {
                    &&& (e == ResolutionError::RecursionLimitExceeded || e
                        == ResolutionError::TypeMismatch)
                    &&& final(self).budget == old(self).budget
                    &&& (e == ResolutionError::RecursionLimitExceeded ==> old(self).budget == 0
                        && old(self).todo@.len() > 0 && final(store)@ == old(store)@
                        && final(reg)@ == old(reg)@)
                    &&& (e == ResolutionError::TypeMismatch ==> final(store)@ == upsert_all(
                        old(store)@,
                        old(self).pending_m(),
                    ) && final(reg)@ == old(reg)@ && final(store)@.contains_rid(
                        old(self).target@,
                    ) && final(store)@.ents[final(store)@.idx_of(old(self).target@)].kind
                        != old(self).expected && (forall|j: int|
                        0 <= j < old(self).todo@.len() ==> old(store)@.contains_rid(
                            old(self).todo_m()[j],
                        )))
                },
            },
            (old(self).fresh() && old(store)@.contains_rid(old(self).target@)
                && old(store)@.ents[old(store)@.idx_of(old(self).target@)].kind
                == old(self).expected) ==> (r matches Step::Done(i)
                && i as int == old(store)@.idx_of(old(self).target@)
                && final(store)@ == old(store)@),
            (old(self).fresh() && old(store)@.contains_rid(old(self).target@)
                && old(store)@.ents[old(store)@.idx_of(old(self).target@)].kind
                != old(self).expected) ==> r == Step::Fail(ResolutionError::TypeMismatch),
            (old(self).fresh() && !old(store)@.contains_rid(old(self).target@)
                && !reg_contains(old(reg)@, old(self).target@) && old(self).budget > 0) ==> (
                r matches Step::NeedFetch(rid) && rid@ == old(self).target@
                && final(self).todo@.len() == 0 && final(self).pending@.len() == 0),
            (old(self).fresh() && !old(store)@.contains_rid(old(self).target@)
                && !reg_contains(old(reg)@, old(self).target@) && old(self).budget == 0)
                ==> r == Step::Fail(ResolutionError::RecursionLimitExceeded),
    {
        let ghost todo0 = old(self).todo_m();
        while self.todo.len() > 0
            invariant
                self.current is None,
                store@ == old(store)@,
                reg@ == old(reg)@,
                old(reg).wf(),
                old(store)@.wf(),
                self.guards(store@),
                self.target == old(self).target,
                self.expected == old(self).expected,
                self.budget == old(self).budget,
                self.pending_m() == old(self).pending_m(),
                todo0 == old(self).todo_m(),
                self.todo@.len() <= todo0.len(),
                self.todo_m() =~= todo0.take(self.todo@.len() as int),
                forall|j: int|
                    self.todo@.len() <= j < todo0.len() ==> old(store)@.contains_rid(todo0[j]),
            decreases self.todo.len(),
        {
            let n = self.todo.len();
            let ghost pre = *self;
            match store.find_by_remote(&self.todo[n - 1]) {
                Some(_) => {
                    proof {
                        crate::store::lemma_find_ent_from(store@.ents, self.todo_m()[n - 1], 0);
                        assert(pre.todo_m()[n - 1] == todo0.take(n as int)[n - 1]);
                        assert(store@.contains_rid(todo0[n - 1]));
                    }
                    let _ = self.todo.pop();
                    proof {
                        assert(self.todo_m() =~= pre.todo_m().drop_last());
                        assert(pre.todo_m() =~= todo0.take(pre.todo@.len() as int));
                        assert(self.todo_m() =~= todo0.take(self.todo@.len() as int));
                        if !store@.contains_rid(self.target@) {
                            if exists|i: int|
                                0 <= i < pre.todo_m().len() && #[trigger] pre.todo_m()[i]
                                    == pre.target@ {
                                let w = choose|i: int|
                                    0 <= i < pre.todo_m().len() && #[trigger] pre.todo_m()[i]
                                        == pre.target@;
                                if w == n - 1 {
                                    assert(store@.contains_rid(self.target@));
                                } else {
                                    assert(self.todo_m()[w] == self.target@);
                                }
                            }
                        }
                    }
                },
                None => {
                    if reg.contains(&self.todo[n - 1]) {
                        let rid = self.todo[n - 1].clone();
                        proof {
                            assert(self.todo_m()[n - 1] == todo0.take(n as int)[n - 1]);
                            assert(rid@ == self.todo_m()[n - 1]);
                            if old(self).fresh() {
                                assert(old(self).todo_m() =~= seq![old(self).target@]);
                                assert(todo0 == seq![old(self).target@]);
                                assert(seq![old(self).target@].len() == 1);
                                assert(todo0.len() == 1);
                                assert(n == 1);
                                assert(todo0[0] == old(self).target@);
                                assert(self.todo_m()[0] == todo0.take(1)[0]);
                                assert(rid@ == self.todo_m()[0]);
                                assert(rid@ == old(self).target@);
                            }
                        }
                        return Step::AwaitOther(rid);
                    }
                    if self.budget == 0 {
                        proof {
                            if old(self).fresh() {
                                assert(self.todo_m()[n - 1] == todo0.take(n as int)[n - 1]);
                                assert(self.todo_m()[n - 1] == old(self).target@);
                            }
                        }
                        return Step::Fail(ResolutionError::RecursionLimitExceeded);
                    }
                    self.budget = self.budget - 1;
                    let rid = match self.todo.pop() {
                        Some(rid) => rid,
                        None => vstd::pervasive::unreached(),
                    };
                    let _ = reg.begin(&rid);
                    self.current = Some(rid.clone());
                    proof {
                        assert(self.todo_m() =~= pre.todo_m().drop_last());
                        assert(pre.todo_m()[n - 1] == todo0.take(n as int)[n - 1]);
                        assert(rid@ == todo0[n - 1]);
                        assert(self.todo_m() =~= todo0.take(n - 1));
                        if old(self).fresh() {
                            assert(old(self).todo_m() =~= seq![old(self).target@]);
                            assert(todo0 == seq![old(self).target@]);
                            assert(seq![old(self).target@].len() == 1);
                            assert(todo0.len() == 1);
                            assert(n == 1);
                            assert(todo0[0] == old(self).target@);
                            assert(pre.todo_m()[0] == todo0.take(1)[0]);
                            assert(rid@ == pre.todo_m()[0]);
                            assert(rid@ == old(self).target@);
                        }
                        crate::registry::lemma_reg_contains_exists(reg@, rid@);
                        assert(reg@[reg@.len() - 1] == rid@);
                        if !store@.contains_rid(self.target@) {
                            if exists|i: int|
                                0 <= i < pre.todo_m().len() && #[trigger] pre.todo_m()[i]
                                    == pre.target@ {
                                let w = choose|i: int|
                                    0 <= i < pre.todo_m().len() && #[trigger] pre.todo_m()[i]
                                        == pre.target@;
                                if w == n - 1 {
                                    assert(self.current matches Some(c) && c@ == self.target@);
                                } else {
                                    assert(self.todo_m()[w] == self.target@);
                                }
                            }
                        }
                    }
                    return Step::NeedFetch(rid);
                },
            }
        }
        proof {
            if old(self).fresh() {
                assert(store@.contains_rid(self.target@));
            }
        }
        // Everything is resolved: insert the fetched objects, deepest
        // reference first, then look the target up.
        let ghost s0 = store@;
        let ghost pend0 = self.pending_m();
        while self.pending.len() > 0
            invariant
                self.current is None,
                self.todo@.len() == 0,
                store@.wf(),
                old(reg).wf(),
                reg@ == old(reg)@,
                store_extends(store@, old(store)@),
                upsert_all(old(store)@, old(self).pending_m()) == upsert_all(
                    store@,
                    self.pending_m(),
                ),
                store@.contains_rid(self.target@) || exists|i: int|
                    0 <= i < self.pending_m().len() && (#[trigger] self.pending_m()[i]).id
                        == self.target@,
                self.target == old(self).target,
                self.expected == old(self).expected,
                self.budget == old(self).budget,
            decreases self.pending.len(),
        {
            let ghost pre = *self;
            let ghost st_pre = store@;
            let obj = match self.pending.pop() {
                Some(obj) => obj,
                None => vstd::pervasive::unreached(),
            };
            let ghost om = obj@;
            store.upsert_entity(obj.id, obj.kind, obj.content, obj.published);
            proof {
                assert(self.pending_m() =~= pre.pending_m().drop_last());
                assert(pre.pending_m().last() == om);
                if st_pre.contains_rid(om.id) {
                    assert(store@ =~= upsert_one(st_pre, om));
                } else {
                    assert(store@ =~= upsert_one(st_pre, om));
                }
                lemma_upsert_one(st_pre, om);
                if !store@.contains_rid(self.target@) {
                    let w = choose|i: int|
                        0 <= i < pre.pending_m().len() && (#[trigger] pre.pending_m()[i]).id
                            == pre.target@;
                    if w == pre.pending_m().len() - 1 {
                        assert(store@.contains_rid(self.target@));
                    } else {
                        assert(self.pending_m()[w].id == self.target@);
                    }
                }
            }
        }
        proof {
            assert(upsert_all(old(store)@, old(self).pending_m()) == store@);
        }
        match store.find_by_remote(&self.target) {
            Some(i) => {
                proof {
                    crate::store::lemma_find_ent_from(store@.ents, self.target@, 0);
                }
                match store.read(i) {
                    Some(e) => {
                        if e.kind == self.expected {
                            Step::Done(i)
                        } else {
                            Step::Fail(ResolutionError::TypeMismatch)
                        }
                    },
                    None => vstd::pervasive::unreached(),
                }
            },
            None => vstd::pervasive::unreached(),
        }
    }

    /// Takes the outcome of the fetch that `step` asked for.  The id is
    /// taken out of the in-flight registry whether the fetch succeeded or
    /// failed.  A served object must describe the id that was asked for;
    /// then it joins the queue awaiting insertion and its mandatory nested
    /// reference, if any, becomes a new id to resolve.  Anything else ends
    /// the resolution with the matching error, and the store — which this
    /// call never touches — keeps no trace of the aborted work.
    pub fn on_fetch(
        &mut self,
        store: &Store,
        reg: &mut Registry,
        rid: &RemoteId,
        outcome: FetchOutcome,
    ) -> (r: Option<ResolutionError>)
        requires
            old(self).current matches Some(c) && c@ == rid@,
            old(reg).wf(),
            old(self).guards(store@),
        ensures
            final(reg).wf(),
            final(reg)@ == finish_m(old(reg)@, rid@),
            !reg_contains(final(reg)@, rid@),
            forall|x: RidM| x != rid@ ==> reg_contains(final(reg)@, x) == reg_contains(
                old(reg)@,
                x,
            ),
            final(self).current is None,
            final(self).budget == old(self).budget,
            final(self).target == old(self).target,
            final(self).expected == old(self).expected,
            match r {
                None => {
                    &&& outcome@ matches OutM::Fetched(o) && o.id == rid@
                        && final(self).pending_m() == old(self).pending_m().push(o)
                        && final(self).todo_m() == (match o.parent {
                            Some(p) => old(self).todo_m().push(p),
                            None => old(self).todo_m(),
                        })
                    &&& final(self).guards(store@)
                },
                Some(e) => {
                    &&& (e == ResolutionError::FetchFailed <==> (outcome@ is NotFound || outcome@
                        is NetworkError))
                    &&& (e == ResolutionError::InvalidRemoteObject <==> (outcome@ is Malformed || (
                    outcome@ matches OutM::Fetched(o) && o.id != rid@)))
                    &&& e != ResolutionError::RecursionLimitExceeded
                    &&& e != ResolutionError::TypeMismatch
                },
            },
    {
        let ghost pre = *self;
        reg.finish(rid);
        self.current = None;
        match outcome {
            FetchOutcome::Fetched(obj) => {
                if !rid_eq(&obj.id, rid) {
                    return Some(ResolutionError::InvalidRemoteObject);
                }
                match &obj.parent {
                    Some(p) => {
                        let pc = p.clone();
                        self.todo.push(pc);
                    },
                    None => {},
                }
                let ghost om = obj@;
                self.pending.push(obj);
                proof {
                    assert(self.pending_m() =~= pre.pending_m().push(om));
                    match om.parent {
                        Some(pm) => {
                            assert(self.todo_m() =~= pre.todo_m().push(pm));
                        },
                        None => {
                            assert(self.todo_m() =~= pre.todo_m());
                        },
                    }
                    if !store@.contains_rid(self.target@) {
                        if pre.current matches Some(c) && c@ == pre.target@ {
                            assert(self.pending_m()[self.pending_m().len() - 1].id
                                == self.target@);
                        } else if exists|i: int|
                            0 <= i < pre.todo_m().len() && #[trigger] pre.todo_m()[i]
                                == pre.target@ {
                            let w = choose|i: int|
                                0 <= i < pre.todo_m().len() && #[trigger] pre.todo_m()[i]
                                    == pre.target@;
                            assert(self.todo_m()[w] == self.target@);
                        } else {
                            let w = choose|i: int|
                                0 <= i < pre.pending_m().len() && (#[trigger] pre.pending_m()[i]).id
                                    == pre.target@;
                            assert(self.pending_m()[w].id == self.target@);
                        }
                    }
                }
                None
            },
            FetchOutcome::NotFound => Some(ResolutionError::FetchFailed),
            FetchOutcome::NetworkError => Some(ResolutionError::FetchFailed),
            FetchOutcome::Malformed => Some(ResolutionError::InvalidRemoteObject),
        }
    }
}

/// Resolves `target` against a table of responses, driving the step
/// machine to completion.  The registry must be idle (this is the only
/// resolution running), so an in-flight collision cannot arise.  Success is
/// owed whenever the target is already stored with the expected kind, at no
/// budget, and whenever the table serves the absent target under its own id
/// with no further reference; every failure other than a kind mismatch
/// leaves the store exactly as it was; and against a table that
/// [`never_grounds`] — remote entities referencing one another in a cycle —
/// a resolution with any finite budget ends in `RecursionLimitExceeded`,
/// with the budget spent and nothing committed.
pub fn resolve_with(
    store: &mut Store,
    reg: &mut Registry,
    net: &RemoteNet,
    target: &RemoteId,
    expected: EntityKind,
    budget: &mut u32,
) -> (r: Result<usize, ResolutionError>)
    requires
        old(store)@.wf(),
        old(reg).wf(),
        old(reg)@.len() == 0,
    ensures
        final(store)@.wf(),
        final(reg).wf(),
        final(reg)@.len() == 0,
        *final(budget) <= *old(budget),
        store_extends(final(store)@, old(store)@),
        match r {
            Ok(i) => {
                &&& i < final(store)@.ents.len()
                &&& final(store)@.ents[i as int].remote_id == target@
                &&& final(store)@.ents[i as int].kind == expected
                &&& final(store)@.idx_of(target@) == i
            },
            Err(e) => {
                &&& e != ResolutionError::TypeMismatch ==> final(store)@ == old(store)@
                &&& e == ResolutionError::TypeMismatch ==> final(store)@.contains_rid(target@)
                    && final(store)@.ents[final(store)@.idx_of(target@)].kind != expected
            },
        },
        old(store)@.contains_rid(target@) && old(store)@.ents[old(store)@.idx_of(target@)].kind
            == expected ==> (r matches Ok(i) && i as int == old(store)@.idx_of(target@)
            && final(store)@ == old(store)@ && *final(budget) == *old(budget)),
        old(store)@.contains_rid(target@) && old(store)@.ents[old(store)@.idx_of(target@)].kind
            != expected ==> (r matches Err(e) && e == ResolutionError::TypeMismatch
            && *final(budget) == *old(budget)),
        !old(store)@.contains_rid(target@) && *old(budget) == 0 ==> (r matches Err(e) && e
            == ResolutionError::RecursionLimitExceeded),
        !old(store)@.contains_rid(target@) && *old(budget) > 0 && (net.lookup(target@) is NotFound
            || net.lookup(target@) is NetworkError) ==> (r matches Err(e) && e
            == ResolutionError::FetchFailed),
        !old(store)@.contains_rid(target@) && *old(budget) > 0 && (net.lookup(target@) is Malformed
            || (net.lookup(target@) matches OutM::Fetched(o) && o.id != target@)) ==> (
            r matches Err(e) && e == ResolutionError::InvalidRemoteObject),
        net.lookup(target@) matches OutM::Fetched(o) ==> ((!old(store)@.contains_rid(target@)
            && *old(budget) > 0 && o.id == target@ && o.parent is None && o.kind == expected) ==> (
            r matches Ok(i) && i as int == old(store)@.ents.len()
            && final(store)@ == upsert_one(old(store)@, o))),
        (never_grounds(*net, old(store)@) && !old(store)@.contains_rid(target@) && net.lookup(
            target@,
        ) is Fetched) ==> (r matches Err(e) && e == ResolutionError::RecursionLimitExceeded
            && final(store)@ == old(store)@ && *final(budget) == 0),
{
    let mut res = Resolver::new(target, expected, *budget);
    proof {
        crate::registry::lemma_reg_contains_exists(reg@, target@);
        assert(res.todo_m()[0] == target@);
        assert(res.guards(store@));
    }
    // The first decision settles every case that needs no successful fetch.
    match res.step(store, reg) {
        Step::Done(i) => {
            *budget = res.budget;
            return Ok(i);
        },
        Step::Fail(e) => {
            *budget = res.budget;
            return Err(e);
        },
        Step::AwaitOther(rid) => {
            proof {
                crate::registry::lemma_reg_contains_exists(old(reg)@, rid@);
            }
            return vstd::pervasive::unreached();
        },
        Step::NeedFetch(rid) => {
            proof {
                assert(rid@ == target@);
            }
            let out = net.fetch(&rid);
            match res.on_fetch(store, reg, &rid, out) {
                Some(e) => {
                    *budget = res.budget;
                    return Err(e);
                },
                None => {
                    proof {
                        assert(old(reg)@.push(rid@) =~= seq![rid@]);
                        assert(finish_m(seq![rid@], rid@) =~= Seq::<RidM>::empty());
                        assert(reg@.len() == 0);
                        match net.lookup(target@) {
                            OutM::Fetched(o) => {
                                if o.id == target@ && o.parent is None && o.kind == expected {
                                    assert(res.pending_m() =~= Seq::<RobM>::empty().push(o));
                                    assert(res.pending_m() =~= seq![o]);
                                    assert(res.todo_m().len() == 0);
                                    assert(res.todo@.len() == 0);
                                }
                                if never_grounds(*net, old(store)@) {
                                    match o.parent {
                                        Some(pm) => {
                                            assert(res.todo_m()[0] == pm);
                                            assert(res.todo@.len() == 1);
                                        },
                                        None => {
                                            assert(false);
                                        },
                                    }
                                }
                            },
                            _ => {},
                        }
                    }
                },
            }
        },
    }
    loop
        invariant
            res.current is None,
            res.guards(store@),
            store@.wf(),
            reg.wf(),
            reg@.len() == 0,
            store@ == old(store)@,
            res.target@ == target@,
            res.expected == expected,
            !(old(store)@.contains_rid(target@)),
            !(net.lookup(target@) is NotFound),
            !(net.lookup(target@) is NetworkError),
            !(net.lookup(target@) is Malformed),
            !(net.lookup(target@) matches OutM::Fetched(o) && o.id != target@),
            net.lookup(target@) matches OutM::Fetched(o) ==> ((o.id == target@ && o.parent is None
                && o.kind == expected) ==> (res.todo@.len() == 0 && res.pending_m() =~= seq![o])),
            (never_grounds(*net, old(store)@) && net.lookup(target@) is Fetched) ==> (
                res.todo@.len() > 0 && forall|j: int|
                    0 <= j < res.todo@.len() ==> (!old(store)@.contains_rid(
                        #[trigger] res.todo_m()[j],
                    ) && net.lookup(res.todo_m()[j]) is Fetched)),
            *old(budget) > 0,
            res.budget <= *old(budget),
        decreases res.budget,
    {
        let ghost budget_pre = res.budget;
        let ghost pend_pre = res.pending_m();
        let ghost todo_pre = res.todo@.len();
        let ghost todom_pre = res.todo_m();
        let ghost store_pre = store@;
        let ghost ng = never_grounds(*net, old(store)@) && net.lookup(target@) is Fetched;
        match res.step(store, reg) {
            Step::Done(i) => {
                proof {
                    if ng {
                        assert(store_pre.contains_rid(todom_pre[0]));
                        assert(false);
                    }
                    match net.lookup(target@) {
                        OutM::Fetched(o) => {
                            if o.id == target@ && o.parent is None && o.kind == expected {
                                assert(pend_pre =~= seq![o]);
                                assert(pend_pre.last() == o);
                                assert(pend_pre.drop_last() =~= Seq::<RobM>::empty());
                                assert(store@ == upsert_all(store_pre, pend_pre));
                                assert(upsert_all(store_pre, pend_pre) == upsert_all(
                                    upsert_one(store_pre, o),
                                    pend_pre.drop_last(),
                                ));
                                assert(pend_pre.drop_last() == Seq::<RobM>::empty());
                                assert(upsert_all(
                                    upsert_one(store_pre, o),
                                    Seq::<RobM>::empty(),
                                ) == upsert_one(store_pre, o));
                                assert(store@ == upsert_one(store_pre, o));
                                lemma_contains_exists(store_pre, o.id);
                                assert(store@.ents[store_pre.ents.len() as int].remote_id
                                    == target@);
                                crate::store::lemma_idx_of_unique(
                                    store@,
                                    target@,
                                    store_pre.ents.len() as int,
                                );
                            }
                        },
                        _ => {},
                    }
                }
                *budget = res.budget;
                return Ok(i);
            },
            Step::Fail(e) => {
                proof {
                    if ng && e == ResolutionError::TypeMismatch {
                        assert(store_pre.contains_rid(todom_pre[0]));
                        assert(false);
                    }
                    match net.lookup(target@) {
                        OutM::Fetched(o) => {
                            if o.id == target@ && o.parent is None && o.kind == expected {
                                if e == ResolutionError::TypeMismatch {
                                    assert(pend_pre =~= seq![o]);
                                    assert(pend_pre.last() == o);
                                    assert(pend_pre.drop_last() =~= Seq::<RobM>::empty());
                                    assert(store@ == upsert_all(store_pre, pend_pre));
                                    assert(upsert_all(store_pre, pend_pre) == upsert_all(
                                        upsert_one(store_pre, o),
                                        pend_pre.drop_last(),
                                    ));
                                    assert(pend_pre.drop_last() == Seq::<RobM>::empty());
                                    assert(upsert_all(
                                        upsert_one(store_pre, o),
                                        Seq::<RobM>::empty(),
                                    ) == upsert_one(store_pre, o));
                                    assert(store@ == upsert_one(store_pre, o));
                                    lemma_contains_exists(store_pre, o.id);
                                    assert(store@.ents[store_pre.ents.len() as int].remote_id
                                        == target@);
                                    crate::store::lemma_idx_of_unique(
                                        store@,
                                        target@,
                                        store_pre.ents.len() as int,
                                    );
                                    assert(store@.ents[store@.idx_of(target@)].kind == expected);
                                    assert(false);
                                } else {
                                    assert(todo_pre > 0);
                                    assert(false);
                                }
                            }
                        },
                        _ => {},
                    }
                }
                *budget = res.budget;
                return Err(e);
            },
            Step::AwaitOther(rid) => {
                proof {
                    crate::registry::lemma_reg_contains_exists(reg@, rid@);
                }
                return vstd::pervasive::unreached();
            },
            Step::NeedFetch(rid) => {
                proof {
                    match net.lookup(target@) {
                        OutM::Fetched(o) => {
                            if o.id == target@ && o.parent is None && o.kind == expected {
                                assert(todo_pre > 0);
                                assert(false);
                            }
                        },
                        _ => {},
                    }
                }
                let ghost k = res.todo@.len() as int;
                proof {
                    if ng {
                        assert(rid@ == todom_pre[k]);
                        assert(!old(store)@.contains_rid(rid@));
                        assert(net.lookup(rid@) is Fetched);
                    }
                }
                let out = net.fetch(&rid);
                let ghost reg_mid = reg@;
                match res.on_fetch(store, reg, &rid, out) {
                    Some(e) => {
                        proof {
                            if ng {
                                assert(false);
                            }
                        }
                        *budget = res.budget;
                        return Err(e);
                    },
                    None => {
                        proof {
                            assert(reg_mid =~= seq![rid@]);
                            assert(finish_m(seq![rid@], rid@) =~= Seq::<RidM>::empty());
                            assert(reg@.len() == 0);
                            if ng {
                                match net.lookup(rid@) {
                                    OutM::Fetched(o2) => {
                                        match o2.parent {
                                            Some(p2) => {
                                                assert(res.todo@.len() == k + 1);
                                                assert forall|j: int|
                                                    0 <= j < res.todo@.len() implies (!old(
                                                    store,
                                                )@.contains_rid(#[trigger] res.todo_m()[j])
                                                    && net.lookup(res.todo_m()[j]) is Fetched) by {
                                                    if j < k {
                                                        assert(res.todo_m()[j] == todom_pre.take(
                                                            k,
                                                        )[j]);
                                                        assert(res.todo_m()[j] == todom_pre[j]);
                                                    } else {
                                                        assert(res.todo_m()[j] == p2);
                                                    }
                                                }
                                            },
                                            None => {
                                                assert(false);
                                            },
                                        }
                                    },
                                    _ => {
                                        assert(false);
                                    },
                                }
                            }
                        }
                    },
                }
            },
        }
        proof {
            assert(res.budget < budget_pre);
        }
    }
}

} // verus!
