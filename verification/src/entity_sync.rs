//! Per-kind entity synchronization.
//!
//! An `EntitySync` owns the map from external logical ids to native entity
//! handles for one entity kind, together with the queue of operations staged
//! by the scripting side. Once per frame the engine drains the queue in FIFO
//! order against an entity store, which is injected as a capability: a type
//! implementing `EntityStore` with `create`, `update` and `despawn`.
//!
//! The central invariant is that each external id owns at most one live
//! native handle, that distinct ids own distinct handles, and that every
//! owned handle is live in the store.

use vstd::prelude::*;

use crate::idmap::IdMap;

verus! {

/// One staged operation for one entity kind, applied during the frame in
/// which it is drained.
pub enum PendingOperation<D, T> {
    /// Create the entity for `id` if it has no handle yet, else update its
    /// payload and transform in place.
    Upsert { id: u64, data: D, transform: T },
    /// Despawn the entity for `id`; a no-op when `id` has no handle.
    Remove { id: u64 },
    /// Despawn every entity of this kind.
    Clear,
}

/// The capability an entity store must grant: spawn, mutate and despawn of
/// native entities, with the store abstracted as a map from native handle to
/// the payload it currently carries.
pub trait EntityStore<D, T> {
    /// The store's own well-formedness; `true` for a store that needs none.
    spec fn inv(&self) -> bool;

    /// The live entities of this kind: native handle to current payload.
    spec fn view(&self) -> Map<u64, (D, T)>;

    /// Creates a new entity and returns its handle, which is fresh among the
    /// live handles.
    fn create(&mut self, data: D, transform: T) -> (h: u64)
        requires
            old(self).inv(),
        ensures
            final(self).inv(),
            !old(self).view().dom().contains(h),
            final(self).view() == old(self).view().insert(h, (data, transform));

    /// Overwrites the payload of a live entity; its handle stays valid.
    fn update(&mut self, h: u64, data: D, transform: T)
        requires
            old(self).inv(),
            old(self).view().dom().contains(h),
        ensures
            final(self).inv(),
            final(self).view() == old(self).view().insert(h, (data, transform));

    /// Despawns a live entity; its handle stops being live.
    fn despawn(&mut self, h: u64)
        requires
            old(self).inv(),
            old(self).view().dom().contains(h),
        ensures
            final(self).inv(),
            final(self).view() == old(self).view().remove(h);
}

/// Distinct ids own distinct handles.
pub open spec fn injective(links: Map<u64, u64>) -> bool {
    forall|a: u64, b: u64|
        links.dom().contains(a) && links.dom().contains(b) && a != b ==> links[a] != links[b]
}

/// Every owned handle is live in the store.
pub open spec fn links_into<D, T>(links: Map<u64, u64>, sv: Map<u64, (D, T)>) -> bool {
    forall|id: u64| #[trigger] links.dom().contains(id) ==> sv.dom().contains(links[id])
}

/// Some id owns the handle `h`.
pub open spec fn owns_handle(links: Map<u64, u64>, h: u64) -> bool {
    exists|id: u64| #[trigger] links.dom().contains(id) && links[id] == h
}

/// What the scripting side observes: each synchronized external id together
/// with the payload its native entity currently carries.
pub open spec fn id_view<D, T>(links: Map<u64, u64>, sv: Map<u64, (D, T)>) -> Map<u64, (D, T)> {
    Map::new(
        |id: u64| links.dom().contains(id) && sv.dom().contains(links[id]),
        |id: u64| sv[links[id]],
    )
}

/// The effect of one operation on the observed id-to-payload map.
pub open spec fn step<D, T>(
    v: Map<u64, (D, T)>,
    op: PendingOperation<D, T>,
) -> Map<u64, (D, T)> {
    match op {
        PendingOperation::Upsert { id, data, transform } => v.insert(id, (data, transform)),
        PendingOperation::Remove { id } => v.remove(id),
        PendingOperation::Clear => Map::empty(),
    }
}

/// The effect of a whole queue, first operation first.
pub open spec fn apply_ops<D, T>(
    v: Map<u64, (D, T)>,
    ops: Seq<PendingOperation<D, T>>,
) -> Map<u64, (D, T)>
    decreases ops.len(),
{
    if ops.len() == 0 {
        v
    } else {
        apply_ops(step(v, ops[0]), ops.subrange(1, ops.len() as int))
    }
}

/// Whether `op` takes the handle of `id` away.
pub open spec fn is_stopper<D, T>(op: PendingOperation<D, T>, id: u64) -> bool {
    match op {
        PendingOperation::Upsert { .. } => false,
        PendingOperation::Remove { id: rid } => rid == id,
        PendingOperation::Clear => true,
    }
}

/// No operation in `ops` takes the handle of `id` away.
pub open spec fn keeps<D, T>(ops: Seq<PendingOperation<D, T>>, id: u64) -> bool {
    forall|j: int| 0 <= j < ops.len() ==> !is_stopper(#[trigger] ops[j], id)
}

/// The store holds exactly the entries that were there before the drain and
/// were never owned, plus the entities the links currently own: an entity
/// whose owner was removed or cleared is despawned, and nothing unowned is
/// spawned.
pub open spec fn store_footprint<D, T>(
    s0: Map<u64, (D, T)>,
    l0: Map<u64, u64>,
    links: Map<u64, u64>,
    sv: Map<u64, (D, T)>,
) -> bool {
    forall|h: u64|
        (#[trigger] sv.dom().contains(h)) <==> ((s0.dom().contains(h) && !owns_handle(l0, h))
            || owns_handle(links, h))
}

/// Before anything is drained, the footprint is the store itself.
pub proof fn lemma_footprint_init<D, T>(l0: Map<u64, u64>, s0: Map<u64, (D, T)>)
    requires
        links_into(l0, s0),
    ensures
        store_footprint(s0, l0, l0, s0),
{
    assert forall|h: u64|
        (s0.dom().contains(h) && !owns_handle(l0, h)) || owns_handle(
            l0,
            h,
        ) implies #[trigger] s0.dom().contains(h) by {
        if owns_handle(l0, h) {
            let id = choose|id: u64| #[trigger] l0.dom().contains(id) && l0[id] == h;
        }
    }
}

/// Updating an owned entity in place leaves the footprint alone.
pub proof fn lemma_footprint_update<D, T>(
    s0: Map<u64, (D, T)>,
    l0: Map<u64, u64>,
    links: Map<u64, u64>,
    sv: Map<u64, (D, T)>,
    id: u64,
    p: (D, T),
)
    requires
        links_into(links, sv),
        links.dom().contains(id),
        store_footprint(s0, l0, links, sv),
    ensures
        store_footprint(s0, l0, links, sv.insert(links[id], p)),
{
    assert(sv.insert(links[id], p).dom() =~= sv.dom());
}

/// Creating a fresh entity for a fresh id extends the footprint by exactly
/// that owned handle.
pub proof fn lemma_footprint_create<D, T>(
    s0: Map<u64, (D, T)>,
    l0: Map<u64, u64>,
    links: Map<u64, u64>,
    sv: Map<u64, (D, T)>,
    id: u64,
    h: u64,
    p: (D, T),
)
    requires
        !links.dom().contains(id),
        !sv.dom().contains(h),
        store_footprint(s0, l0, links, sv),
    ensures
        store_footprint(s0, l0, links.insert(id, h), sv.insert(h, p)),
{
    let links2 = links.insert(id, h);
    let sv2 = sv.insert(h, p);
    assert forall|x: u64| #[trigger]
        sv2.dom().contains(x) implies ((s0.dom().contains(x) && !owns_handle(l0, x))
        || owns_handle(links2, x)) by {
        if x == h {
            assert(links2.dom().contains(id) && links2[id] == h);
        } else {
            assert(sv.dom().contains(x));
            if owns_handle(links, x) {
                let w = choose|w: u64| #[trigger] links.dom().contains(w) && links[w] == x;
                assert(links2.dom().contains(w) && links2[w] == x);
            }
        }
    }
    assert forall|x: u64|
        ((s0.dom().contains(x) && !owns_handle(l0, x)) || owns_handle(
            links2,
            x,
        )) implies #[trigger] sv2.dom().contains(x) by {
        if owns_handle(links2, x) {
            let w = choose|w: u64| #[trigger] links2.dom().contains(w) && links2[w] == x;
            if w != id {
                assert(links.dom().contains(w) && links[w] == x);
            }
        }
    }
}

/// Despawning an owned entity and erasing its link shrinks the footprint by
/// exactly that handle.
pub proof fn lemma_footprint_remove<D, T>(
    s0: Map<u64, (D, T)>,
    l0: Map<u64, u64>,
    links: Map<u64, u64>,
    sv: Map<u64, (D, T)>,
    id: u64,
)
    requires
        injective(links),
        links.dom().contains(id),
        store_footprint(s0, l0, links, sv),
        forall|h: u64| #![trigger s0.dom().contains(h)]
            s0.dom().contains(h) && !owns_handle(l0, h) ==> !owns_handle(links, h),
    ensures
        store_footprint(s0, l0, links.remove(id), sv.remove(links[id])),
{
    let h = links[id];
    let links2 = links.remove(id);
    let sv2 = sv.remove(h);
    assert forall|x: u64| #[trigger]
        sv2.dom().contains(x) implies ((s0.dom().contains(x) && !owns_handle(l0, x))
        || owns_handle(links2, x)) by {
        assert(sv.dom().contains(x));
        if !(s0.dom().contains(x) && !owns_handle(l0, x)) {
            let w = choose|w: u64| #[trigger] links.dom().contains(w) && links[w] == x;
            assert(w != id);
            assert(links2.dom().contains(w) && links2[w] == x);
        }
    }
    assert forall|x: u64|
        ((s0.dom().contains(x) && !owns_handle(l0, x)) || owns_handle(
            links2,
            x,
        )) implies #[trigger] sv2.dom().contains(x) by {
        if s0.dom().contains(x) && !owns_handle(l0, x) {
            assert(!owns_handle(links, x));
            assert(links.dom().contains(id) && links[id] == h);
            assert(x != h);
        } else {
            let w = choose|w: u64| #[trigger] links2.dom().contains(w) && links2[w] == x;
            assert(links.dom().contains(w) && links[w] == x);
            assert(w != id);
            assert(links[w] != links[id]);
        }
    }
}

/// Under the synchronizer's invariants, the observed map has exactly the
/// linked ids as its domain.
pub proof fn lemma_id_view_dom<D, T>(links: Map<u64, u64>, sv: Map<u64, (D, T)>)
    requires
        links_into(links, sv),
    ensures
        id_view(links, sv).dom() =~= links.dom(),
{
}

/// Updating the store at the handle owned by `id` is observed as updating
/// the payload of `id` alone.
pub proof fn lemma_upsert_existing<D, T>(
    links: Map<u64, u64>,
    sv: Map<u64, (D, T)>,
    id: u64,
    p: (D, T),
)
    requires
        injective(links),
        links_into(links, sv),
        links.dom().contains(id),
    ensures
        id_view(links, sv.insert(links[id], p)) =~= id_view(links, sv).insert(id, p),
        links_into(links, sv.insert(links[id], p)),
{
}

/// Creating a fresh entity and linking a fresh id to it is observed as
/// inserting that id alone, and keeps the links well-formed.
pub proof fn lemma_upsert_new<D, T>(
    links: Map<u64, u64>,
    sv: Map<u64, (D, T)>,
    id: u64,
    h: u64,
    p: (D, T),
)
    requires
        injective(links),
        links_into(links, sv),
        !links.dom().contains(id),
        !sv.dom().contains(h),
    ensures
        id_view(links.insert(id, h), sv.insert(h, p)) =~= id_view(links, sv).insert(id, p),
        injective(links.insert(id, h)),
        links_into(links.insert(id, h), sv.insert(h, p)),
        !owns_handle(links, h),
{
    assert forall|a: u64, b: u64|
        links.insert(id, h).dom().contains(a) && links.insert(id, h).dom().contains(b) && a
            != b implies links.insert(id, h)[a] != links.insert(id, h)[b] by {
        if a == id {
            assert(sv.dom().contains(links[b]));
        } else if b == id {
            assert(sv.dom().contains(links[a]));
        }
    }
}

/// Despawning the handle owned by `id` and unlinking it is observed as
/// removing that id alone.
pub proof fn lemma_remove_linked<D, T>(links: Map<u64, u64>, sv: Map<u64, (D, T)>, id: u64)
    requires
        injective(links),
        links_into(links, sv),
        links.dom().contains(id),
    ensures
        id_view(links.remove(id), sv.remove(links[id])) =~= id_view(links, sv).remove(id),
        injective(links.remove(id)),
        links_into(links.remove(id), sv.remove(links[id])),
{
    assert forall|x: u64| #[trigger]
        links.remove(id).dom().contains(x) implies sv.remove(links[id]).dom().contains(
        links.remove(id)[x],
    ) by {
        assert(links.dom().contains(x));
    }
}

/// Law: applying operations first-in first-out decomposes. Draining a queue
/// made of two batches in one go leaves the same observed state as draining
/// the first batch and then the second — so a queue of N operations applied
/// in one drain equals the N operations applied one at a time, in order.
pub proof fn lemma_fifo_application<D, T>(
    v: Map<u64, (D, T)>,
    ops1: Seq<PendingOperation<D, T>>,
    ops2: Seq<PendingOperation<D, T>>,
)
    ensures
        apply_ops(v, ops1 + ops2) == apply_ops(apply_ops(v, ops1), ops2),
    decreases ops1.len(),
{
    if ops1.len() == 0 {
        assert(ops1 + ops2 =~= ops2);
    } else {
        let both = ops1 + ops2;
        assert(both[0] == ops1[0]);
        assert(both.subrange(1, both.len() as int) =~= ops1.subrange(
            1,
            ops1.len() as int,
        ) + ops2);
        lemma_fifo_application(step(v, ops1[0]), ops1.subrange(1, ops1.len() as int), ops2);
    }
}

/// Applying a single operation is one step.
pub proof fn lemma_apply_one<D, T>(v: Map<u64, (D, T)>, op: PendingOperation<D, T>)
    ensures
        apply_ops(v, seq![op]) == step(v, op),
{
    let s = seq![op];
    assert(s[0] == op);
    assert(s.subrange(1, 1) =~= Seq::<PendingOperation<D, T>>::empty());
    assert(apply_ops(v, s) == apply_ops(step(v, op), s.subrange(1, 1)));
    assert(apply_ops(step(v, op), Seq::<PendingOperation<D, T>>::empty()) == step(v, op));
}

/// Law: upserting an id is idempotent across frames. Draining an upsert of
/// `id` in one frame and another upsert of `id` in a later frame observes the
/// same state as a single upsert of the second payload: one entry for `id`,
/// carrying the second payload. (That the entry keeps the same native handle
/// — the second drain updates, never creates — is stated by
/// `EntitySync::apply_pending` itself.)
pub proof fn lemma_upsert_idempotent<D, T>(
    v: Map<u64, (D, T)>,
    id: u64,
    d1: D,
    t1: T,
    d2: D,
    t2: T,
)
    ensures
        apply_ops(
            apply_ops(v, seq![PendingOperation::Upsert { id, data: d1, transform: t1 }]),
            seq![PendingOperation::Upsert { id, data: d2, transform: t2 }],
        ) == apply_ops(v, seq![PendingOperation::Upsert { id, data: d2, transform: t2 }]),
        apply_ops(v, seq![PendingOperation::Upsert { id, data: d2, transform: t2 }]) == v.insert(
            id,
            (d2, t2),
        ),
{
    let up1 = PendingOperation::Upsert { id, data: d1, transform: t1 };
    let up2 = PendingOperation::Upsert { id, data: d2, transform: t2 };
    lemma_apply_one(v, up1);
    lemma_apply_one(v.insert(id, (d1, t1)), up2);
    lemma_apply_one(v, up2);
    assert(v.insert(id, (d1, t1)).insert(id, (d2, t2)) =~= v.insert(id, (d2, t2)));
}

/// Law: removal is idempotent on ids with no handle. Draining a `Remove` of
/// an id that is not observed, or a `Clear` when nothing is observed, leaves
/// the observed state exactly as it was.
pub proof fn lemma_removal_idempotent<D, T>(v: Map<u64, (D, T)>, id: u64)
    requires
        !v.dom().contains(id),
    ensures
        apply_ops(v, seq![PendingOperation::Remove { id }]) == v,
        v.dom() =~= Set::<u64>::empty() ==> apply_ops(
            v,
            seq![PendingOperation::<D, T>::Clear],
        ) == v,
{
    let rm = PendingOperation::<D, T>::Remove { id };
    lemma_apply_one(v, rm);
    lemma_apply_one(v, PendingOperation::<D, T>::Clear);
    assert(v.remove(id) =~= v);
    if v.dom() =~= Set::<u64>::empty() {
        assert(Map::<u64, (D, T)>::empty() =~= v);
    }
}

/// Synchronizes one entity kind between external logical ids and native
/// entity handles, with a FIFO queue of staged operations.
pub struct EntitySync<D, T> {
    links: IdMap<u64>,
    queue: Vec<PendingOperation<D, T>>,
}

impl<D, T> EntitySync<D, T> {
    /// The id-to-handle map.
    pub closed spec fn handles(&self) -> Map<u64, u64> {
        self.links@
    }

    /// The ids with a live handle, in the order they first gained one.
    pub closed spec fn id_order(&self) -> Seq<u64> {
        self.links.key_seq()
    }

    /// The staged operations, oldest first.
    pub closed spec fn pending(&self) -> Seq<PendingOperation<D, T>> {
        self.queue@
    }

    /// Well-formed: at most one handle per id, and distinct ids own distinct
    /// handles.
    pub closed spec fn wf(&self) -> bool {
        self.links.wf() && injective(self.links@)
    }

    pub fn new() -> (r: EntitySync<D, T>)
        ensures
            r.wf(),
            r.handles() == Map::<u64, u64>::empty(),
            r.pending() == Seq::<PendingOperation<D, T>>::empty(),
    {
        EntitySync { links: IdMap::new(), queue: Vec::new() }
    }

    /// Stages an upsert; the entity store is not touched.
    pub fn queue_upsert(&mut self, id: u64, data: D, transform: T)
        requires
            old(self).wf(),
        ensures
            final(self).wf(),
            final(self).handles() == old(self).handles(),
            final(self).id_order() == old(self).id_order(),
            final(self).pending() == old(self).pending().push(
                PendingOperation::Upsert { id, data, transform },
            ),
    {
        self.queue.push(PendingOperation::Upsert { id, data, transform });
    }

    /// Stages a removal; the entity store is not touched.
    pub fn queue_remove(&mut self, id: u64)
        requires
            old(self).wf(),
        ensures
            final(self).wf(),
            final(self).handles() == old(self).handles(),
            final(self).id_order() == old(self).id_order(),
            final(self).pending() == old(self).pending().push(
                PendingOperation::Remove { id },
            ),
    {
        self.queue.push(PendingOperation::Remove { id });
    }

    /// Stages a clear; the entity store is not touched.
    pub fn queue_clear(&mut self)
        requires
            old(self).wf(),
        ensures
            final(self).wf(),
            final(self).handles() == old(self).handles(),
            final(self).id_order() == old(self).id_order(),
            final(self).pending() == old(self).pending().push(PendingOperation::Clear),
    {
        self.queue.push(PendingOperation::Clear);
    }

    /// Moves a batch of staged operations to the back of the queue, keeping
    /// their order; the batch buffer is left empty.
    pub fn enqueue_batch(&mut self, ops: &mut Vec<PendingOperation<D, T>>)
        requires
            old(self).wf(),
        ensures
            final(self).wf(),
            final(self).handles() == old(self).handles(),
            final(self).id_order() == old(self).id_order(),
            final(self).pending() == old(self).pending() + old(ops)@,
            final(ops)@ == Seq::<PendingOperation<D, T>>::empty(),
    {
        self.queue.append(ops);
    }

    /// Drains the queue in FIFO order against the injected entity store.
    ///
    /// For each operation: an `Upsert` of an id with a handle updates that
    /// entity in place (same handle, no new entity); an `Upsert` of an
    /// unknown id creates one entity and records its handle; a `Remove` of an
    /// id with a handle despawns it and erases the link, and is a no-op
    /// otherwise; `Clear` despawns every linked entity. The observed
    /// id-to-payload map afterwards equals the queued operations folded, in
    /// order, over the observed map before — and store entries nobody linked
    /// are untouched.
    pub fn apply_pending<S: EntityStore<D, T>>(&mut self, store: &mut S)
        requires
            old(self).wf(),
            old(store).inv(),
            links_into(old(self).handles(), old(store).view()),
        ensures
            final(self).wf(),
            final(store).inv(),
            links_into(final(self).handles(), final(store).view()),
            final(self).pending() == Seq::<PendingOperation<D, T>>::empty(),
            id_view(final(self).handles(), final(store).view()) == apply_ops(
                id_view(old(self).handles(), old(store).view()),
                old(self).pending(),
            ),
            forall|id: u64|
                old(self).handles().dom().contains(id) && keeps(old(self).pending(), id)
                    ==> final(self).handles().dom().contains(id) && final(self).handles()[id]
                    == old(self).handles()[id],
            forall|h: u64|
                old(store).view().dom().contains(h) && !owns_handle(old(self).handles(), h)
                    ==> final(store).view().dom().contains(h) && final(store).view()[h] == old(
                    store,
                ).view()[h] && !owns_handle(final(self).handles(), h),
            store_footprint(
                old(store).view(),
                old(self).handles(),
                final(self).handles(),
                final(store).view(),
            ),
    {
        let ghost q0 = self.queue@;
        let ghost l0 = self.links@;
        let ghost s0 = store.view();
        let ghost idv0 = id_view(l0, s0);
        let ghost mut processed: Seq<PendingOperation<D, T>> = Seq::empty();
        proof {
            assert(q0 =~= processed + self.queue@);
            lemma_footprint_init(l0, s0);
        }
        while self.queue.len() > 0
            invariant
                self.wf(),
                store.inv(),
                links_into(self.links@, store.view()),
                q0 == processed + self.queue@,
                apply_ops(idv0, q0) == apply_ops(
                    id_view(self.links@, store.view()),
                    self.queue@,
                ),
                forall|id: u64| #![trigger l0.dom().contains(id)]
                    l0.dom().contains(id) && keeps(processed, id) ==> self.links@.dom().contains(
                        id,
                    ) && self.links@[id] == l0[id],
                forall|h: u64| #![trigger s0.dom().contains(h)]
                    s0.dom().contains(h) && !owns_handle(l0, h) ==> store.view().dom().contains(h)
                        && store.view()[h] == s0[h] && !owns_handle(self.links@, h),
                store_footprint(s0, l0, self.links@, store.view()),
            decreases self.queue.len(),
        {
            let ghost pre_links = self.links@;
            let ghost pre_sv = store.view();
            let ghost pre_queue = self.queue@;
            let ghost gop = self.queue@[0];
            let op = self.queue.remove(0);
            let ghost pre_processed = processed;
            proof {
                processed = processed.push(gop);
                assert(processed.drop_last() =~= pre_processed);
                assert(q0 =~= processed + self.queue@);
                assert(pre_queue.subrange(1, pre_queue.len() as int) =~= self.queue@);
                assert(apply_ops(id_view(pre_links, pre_sv), pre_queue) == apply_ops(
                    step(id_view(pre_links, pre_sv), gop),
                    self.queue@,
                ));
                assert forall|id: u64| #![trigger l0.dom().contains(id)]
                    l0.dom().contains(id) && keeps(processed, id) implies keeps(pre_processed, id)
                    && !is_stopper(gop, id) by {
                    assert(processed[processed.len() - 1] == gop);
                    assert(!is_stopper(processed[processed.len() - 1], id));
                    assert forall|j: int|
                        0 <= j < pre_processed.len() implies !is_stopper(
                        #[trigger] pre_processed[j],
                        id,
                    ) by {
                        assert(pre_processed[j] == processed[j]);
                        assert(!is_stopper(processed[j], id));
                    }
                }
            }
            match op {
                PendingOperation::Upsert { id, data, transform } => {
                    let ghost gp = (data, transform);
                    let existing: Option<u64> = match self.links.get(id) {
                        Some(h) => Some(*h),
                        None => None,
                    };
                    match existing {
                        Some(h) => {
                            store.update(h, data, transform);
                            proof {
                                lemma_upsert_existing(pre_links, pre_sv, id, gp);
                                lemma_footprint_update(s0, l0, pre_links, pre_sv, id, gp);
                                assert(id_view(self.links@, store.view()) =~= step(
                                    id_view(pre_links, pre_sv),
                                    gop,
                                ));
                            }
                        },
                        None => {
                            let h = store.create(data, transform);
                            self.links.insert(id, h);
                            proof {
                                lemma_upsert_new(pre_links, pre_sv, id, h, gp);
                                lemma_footprint_create(s0, l0, pre_links, pre_sv, id, h, gp);
                                assert(id_view(self.links@, store.view()) =~= step(
                                    id_view(pre_links, pre_sv),
                                    gop,
                                ));
                            }
                        },
                    }
                },
                PendingOperation::Remove { id } => {
                    match self.links.remove(id) {
                        Some(h) => {
                            store.despawn(h);
                            proof {
                                lemma_remove_linked(pre_links, pre_sv, id);
                                lemma_footprint_remove(s0, l0, pre_links, pre_sv, id);
                                assert(id_view(self.links@, store.view()) =~= step(
                                    id_view(pre_links, pre_sv),
                                    gop,
                                ));
                            }
                        },
                        None => {
                            proof {
                                lemma_id_view_dom(pre_links, pre_sv);
                                assert(self.links@ =~= pre_links);
                                assert(id_view(self.links@, store.view()) =~= step(
                                    id_view(pre_links, pre_sv),
                                    gop,
                                ));
                            }
                        },
                    }
                },
                PendingOperation::Clear => {
                    let ghost qrest = self.queue@;
                    proof {
                        self.links.lemma_dom_finite();
                    }
                    let mut live = self.links.len();
                    while live > 0
                        invariant
                            self.wf(),
                            store.inv(),
                            links_into(self.links@, store.view()),
                            self.links@.dom().finite(),
                            live == self.links@.dom().len(),
                            self.queue@ == qrest,
                            forall|h: u64| #![trigger s0.dom().contains(h)]
                                s0.dom().contains(h) && !owns_handle(l0, h)
                                    ==> store.view().dom().contains(h) && store.view()[h] == s0[h]
                                    && !owns_handle(self.links@, h),
                            store_footprint(s0, l0, self.links@, store.view()),
                        decreases live,
                    {
                        let ghost in_links = self.links@;
                        let ghost in_sv = store.view();
                        match self.links.pop() {
                            Some((id2, h)) => {
                                store.despawn(h);
                                proof {
                                    lemma_footprint_remove(s0, l0, in_links, in_sv, id2);
                                    self.links.lemma_dom_finite();
                                    assert forall|x: u64| #[trigger]
                                        self.links@.dom().contains(x) implies store
                                        .view().dom().contains(self.links@[x]) by {
                                        assert(in_links.dom().contains(x));
                                        assert(in_links[x] != h);
                                    }
                                }
                                live = self.links.len();
                            },
                            None => {
                                proof {
                                    assert(false);
                                }
                            },
                        }
                    }
                    proof {
                        assert(self.links@.dom() =~= Set::<u64>::empty());
                        assert(id_view(self.links@, store.view()) =~= step(
                            id_view(pre_links, pre_sv),
                            gop,
                        ));
                        assert forall|id: u64| #![trigger l0.dom().contains(id)]
                            l0.dom().contains(id) && keeps(processed, id) implies self
                            .links@.dom().contains(id) && self.links@[id] == l0[id] by {
                            assert(is_stopper(processed[processed.len() - 1], id));
                        }
                    }
                },
            }
        }
        proof {
            assert(processed =~= q0);
            assert(self.queue@ =~= Seq::<PendingOperation<D, T>>::empty());
        }
    }

    /// The number of ids with a live handle.
    pub fn len(&self) -> (n: usize)
        requires
            self.wf(),
        ensures
            n == self.handles().dom().len(),
    {
        self.links.len()
    }

    /// Whether no id has a live handle.
    pub fn is_empty(&self) -> (b: bool)
        requires
            self.wf(),
        ensures
            b == self.handles().dom().is_empty(),
    {
        self.links.is_empty()
    }

    /// The external ids that currently own a native handle, each exactly
    /// once, in the order they first gained their handle.
    pub fn synced_ids(&self) -> (r: Vec<u64>)
        requires
            self.wf(),
        ensures
            r@ == self.id_order(),
            forall|id: u64| self.handles().dom().contains(id) <==> r@.contains(id),
            forall|i: int, j: int| 0 <= i < j < r@.len() ==> r@[i] != r@[j],
    {
        self.links.keys()
    }
}

} // verus!
