use vstd::prelude::*;
use crate::valueref::JsValue;
use crate::valueref::TAG_OBJECT;
use crate::valueref::spec_tag_is_ref_counted;
use crate::valueref::tag_is_ref_counted;

verus! {

/// The ledger after the engine hands out one more reference to slot `id`.
pub open spec fn dup_counts(counts: Seq<u64>, id: int) -> Seq<u64> {
    counts.update(id, (counts[id] + 1) as u64)
}

/// The ledger after the engine takes one reference to slot `id` back.
pub open spec fn free_counts(counts: Seq<u64>, id: int) -> Seq<u64> {
    counts.update(id, (counts[id] - 1) as u64)
}

/// The ledger after the engine's collector ran: every fully released slot at
/// the end of the allocation area is reclaimed, live slots are untouched.
pub open spec fn gc_trim(counts: Seq<u64>) -> Seq<u64>
    decreases counts.len(),
{
    if counts.len() > 0 && counts[counts.len() - 1] == 0 {
        gc_trim(counts.drop_last())
    } else {
        counts
    }
}

/// The collector only reclaims: what it leaves is a prefix of what it found.
pub proof fn lemma_gc_trim_is_prefix(counts: Seq<u64>)
    ensures
        gc_trim(counts).len() <= counts.len(),
        gc_trim(counts) == counts.take(gc_trim(counts).len() as int),
    decreases counts.len(),
{
    if counts.len() > 0 && counts[counts.len() - 1] == 0 {
        lemma_gc_trim_is_prefix(counts.drop_last());
        assert(counts.drop_last().take(gc_trim(counts).len() as int) =~= counts.take(
            gc_trim(counts).len() as int,
        ));
    } else {
        assert(counts.take(counts.len() as int) =~= counts);
    }
}

/// The collector never touches a slot that still has a reference: the slot
/// keeps its place and its count.
pub proof fn lemma_gc_trim_keeps_live(counts: Seq<u64>, i: int)
    requires
        0 <= i < counts.len(),
        counts[i] >= 1,
    ensures
        i < gc_trim(counts).len(),
        gc_trim(counts)[i] == counts[i],
    decreases counts.len(),
{
    if counts.len() > 0 && counts[counts.len() - 1] == 0 {
        lemma_gc_trim_keeps_live(counts.drop_last(), i);
    }
}

/// Law: cloning a handle and then immediately releasing the clone leaves every
/// engine-side reference count exactly as it was before the clone — what
/// [`crate::valueref::JSValueRef::clone`] takes,
/// [`crate::valueref::JSValueRef::release`] gives back.
pub proof fn lemma_clone_then_release_restores_counts(counts: Seq<u64>, id: int)
    requires
        0 <= id < counts.len(),
        1 <= counts[id] < u64::MAX,
    ensures
        free_counts(dup_counts(counts, id), id) == counts,
{
    assert(free_counts(dup_counts(counts, id), id) =~= counts);
}

/// The ledger after the engine handed out `k` more references to slot `id`,
/// one by one.
pub open spec fn dup_n(counts: Seq<u64>, id: int, k: nat) -> Seq<u64>
    decreases k,
{
    if k == 0 {
        counts
    } else {
        dup_counts(dup_n(counts, id, (k - 1) as nat), id)
    }
}

/// The ledger after the engine took `k` references to slot `id` back, one by
/// one.
pub open spec fn free_n(counts: Seq<u64>, id: int, k: nat) -> Seq<u64>
    decreases k,
{
    if k == 0 {
        counts
    } else {
        free_counts(free_n(counts, id, (k - 1) as nat), id)
    }
}

/// Taking `k` references one by one adds exactly `k` to the slot's count.
pub proof fn lemma_dup_n_shape(counts: Seq<u64>, id: int, k: nat)
    requires
        0 <= id < counts.len(),
        counts[id] + k <= u64::MAX,
    ensures
        dup_n(counts, id, k) == counts.update(id, (counts[id] + k) as u64),
    decreases k,
{
    if k == 0 {
        assert(counts.update(id, (counts[id] + 0) as u64) =~= counts);
    } else {
        lemma_dup_n_shape(counts, id, (k - 1) as nat);
        assert(dup_counts(counts.update(id, (counts[id] + (k - 1)) as u64), id) =~= counts.update(
            id,
            (counts[id] + k) as u64,
        ));
    }
}

/// Giving `k` references back one by one subtracts exactly `k` from the
/// slot's count.
pub proof fn lemma_free_n_shape(counts: Seq<u64>, id: int, k: nat)
    requires
        0 <= id < counts.len(),
        k <= counts[id],
    ensures
        free_n(counts, id, k) == counts.update(id, (counts[id] - k) as u64),
    decreases k,
{
    if k == 0 {
        assert(counts.update(id, (counts[id] - 0) as u64) =~= counts);
    } else {
        lemma_free_n_shape(counts, id, (k - 1) as nat);
        assert(free_counts(counts.update(id, (counts[id] - (k - 1)) as u64), id) =~= counts.update(
            id,
            (counts[id] - k) as u64,
        ));
    }
}

/// Round-trip law: wrap a value whose slot holds some count (a freshly created
/// engine value holds exactly one reference, owned by the wrapping handle),
/// clone the handle `k` times, then release all `k + 1` handles — the slot
/// comes back to exactly one reference fewer than before the wrap. For a fresh
/// value that is zero: fully released, reclaimable by the collector.
pub proof fn lemma_wrap_clone_release_round_trip(counts: Seq<u64>, id: int, k: nat)
    requires
        0 <= id < counts.len(),
        1 <= counts[id],
        counts[id] + k <= u64::MAX,
    ensures
        free_n(dup_n(counts, id, k), id, k + 1) == counts.update(id, (counts[id] - 1) as u64),
{
    lemma_dup_n_shape(counts, id, k);
    let duped = counts.update(id, (counts[id] + k) as u64);
    lemma_free_n_shape(duped, id, k + 1);
    assert(duped.update(id, (duped[id] - (k + 1)) as u64) =~= counts.update(
        id,
        (counts[id] - 1) as u64,
    ));
}

/// A named property of the engine's global object.
struct GlobalProp {
    name: String,
    value: JsValue,
}

/// The first value bound to `name`, if any.
pub open spec fn prop_lookup(props: Seq<(Seq<char>, JsValue)>, name: Seq<char>) -> Option<JsValue>
    decreases props.len(),
{
    if props.len() == 0 {
        None
    } else if props[0].0 == name {
        Some(props[0].1)
    } else {
        prop_lookup(props.drop_first(), name)
    }
}

/// Every property in the table binds a value of a reference-counted kind.
pub open spec fn props_bind_ref_counted(props: Seq<(Seq<char>, JsValue)>) -> bool {
    forall|i: int|
        0 <= i < props.len() ==> spec_tag_is_ref_counted((#[trigger] props[i]).1.tag)
}

/// The engine context: the single runtime and execution context pair the
/// arbiter owns.
///
/// The engine itself is an opaque, single-threaded black box; this type holds
/// exactly what the confinement core reads of it, as plain values: whether the
/// context is still alive, the engine-side reference count of every
/// allocation slot (`0` marks a fully released slot the collector may
/// reclaim), which slot backs the global object, and the global object's
/// named properties. The embedding keeps the real engine behind these same
/// operations; nothing here is ever shared between threads — every mutation
/// goes through whoever owns the context, which is the confinement invariant
/// the arbiter enforces.
pub struct QuickJsRuntime {
    alive: bool,
    counts: Vec<u64>,
    global_id: usize,
    props: Vec<GlobalProp>,
}

impl QuickJsRuntime {
    /// Whether the context is still alive (not yet released by shutdown).
    pub closed spec fn alive_spec(&self) -> bool {
        self.alive
    }

    /// The engine-side reference count of each allocation slot.
    pub closed spec fn counts_spec(&self) -> Seq<u64> {
        self.counts@
    }

    /// The slot backing the global object.
    pub closed spec fn global_slot(&self) -> int {
        self.global_id as int
    }

    /// The global object's named properties, in definition order.
    pub closed spec fn props_spec(&self) -> Seq<(Seq<char>, JsValue)> {
        self.props@.map_values(|p: GlobalProp| (p.name@, p.value))
    }

    /// The raw value of the global object.
    pub open spec fn global_value(&self) -> JsValue {
        JsValue { tag: TAG_OBJECT, payload: self.global_slot() as usize }
    }

    /// The engine's own floor on a slot's count: while the context is alive
    /// the engine itself holds one reference to the global object, which host
    /// code can never release.
    pub open spec fn slot_floor(&self, id: int) -> u64 {
        if id == self.global_slot() {
            1u64
        } else {
            0u64
        }
    }

    /// The engine can hand out one more reference to `id`.
    pub open spec fn can_dup(&self, id: int) -> bool {
        &&& 0 <= id < self.counts_spec().len()
        &&& 1 <= self.counts_spec()[id]
        &&& self.counts_spec()[id] < u64::MAX
    }

    /// Host code may give one reference to `id` back.
    pub open spec fn can_free(&self, id: int) -> bool {
        &&& 0 <= id < self.counts_spec().len()
        &&& self.counts_spec()[id] > self.slot_floor(id)
    }

    /// The context's internal invariant: the global object's slot exists and
    /// keeps at least the engine's own reference while the context is alive,
    /// and every named property of the global object binds a value of a
    /// reference-counted kind.
    pub open spec fn wf(&self) -> bool {
        &&& 0 <= self.global_slot() < self.counts_spec().len()
        &&& self.alive_spec() ==> 1 <= self.counts_spec()[self.global_slot()]
        &&& props_bind_ref_counted(self.props_spec())
    }

    /// Creates the context: one live allocation, the global object, holding
    /// the engine's own reference.
    pub fn new() -> (r: QuickJsRuntime)
        ensures
            r.wf(),
            r.alive_spec(),
            r.counts_spec() == seq![1u64],
            r.global_slot() == 0,
            r.props_spec() == Seq::<(Seq<char>, JsValue)>::empty(),
    {
        let mut counts: Vec<u64> = Vec::new();
        counts.push(1);
        let r = QuickJsRuntime { alive: true, counts, global_id: 0, props: Vec::new() };
        proof {
            assert(r.counts_spec() =~= seq![1u64]);
            assert(r.props_spec() =~= Seq::<(Seq<char>, JsValue)>::empty());
        }
        r
    }

    pub fn is_alive(&self) -> (r: bool)
        ensures
            r == self.alive_spec(),
    {
        self.alive
    }

    /// Releases the context. The model of shutdown's final step: afterwards no
    /// engine work can run against it.
    pub fn destroy(&mut self)
        requires
            old(self).wf(),
        ensures
            final(self).wf(),
            !final(self).alive_spec(),
            final(self).counts_spec() == old(self).counts_spec(),
            final(self).global_slot() == old(self).global_slot(),
            final(self).props_spec() == old(self).props_spec(),
    {
        self.alive = false;
    }

    /// The engine call that produces a fresh reference-counted value: a new
    /// slot is allocated with exactly one reference, which the caller owns.
    pub fn alloc_value(&mut self) -> (r: JsValue)
        requires
            old(self).wf(),
            old(self).alive_spec(),
        ensures
            final(self).wf(),
            final(self).alive_spec(),
            final(self).global_slot() == old(self).global_slot(),
            final(self).props_spec() == old(self).props_spec(),
            final(self).counts_spec() == old(self).counts_spec().push(1u64),
            r.tag == TAG_OBJECT,
            r.payload == old(self).counts_spec().len(),
    {
        let id = self.counts.len();
        self.counts.push(1);
        JsValue { tag: TAG_OBJECT, payload: id }
    }

    /// The engine call that takes one more reference to a value. Reports
    /// whether the engine could: the slot must exist, still be live, and its
    /// count must not saturate.
    pub fn dup_value(&mut self, id: usize) -> (r: bool)
        requires
            old(self).wf(),
            old(self).alive_spec(),
        ensures
            final(self).wf(),
            final(self).alive_spec(),
            final(self).global_slot() == old(self).global_slot(),
            final(self).props_spec() == old(self).props_spec(),
            r == old(self).can_dup(id as int),
            r ==> final(self).counts_spec() == dup_counts(old(self).counts_spec(), id as int),
            !r ==> final(self).counts_spec() == old(self).counts_spec(),
    {
        if id < self.counts.len() {
            let c = self.counts[id];
            if 1 <= c && c < u64::MAX {
                vec_u64_set(&mut self.counts, id, c + 1);
                return true;
            }
        }
        false
    }

    /// The engine call that gives one reference to a value back. Reports
    /// whether the engine could: the slot must exist and hold a reference
    /// beyond the engine's own floor on it.
    pub fn free_value(&mut self, id: usize) -> (r: bool)
        requires
            old(self).wf(),
            old(self).alive_spec(),
        ensures
            final(self).wf(),
            final(self).alive_spec(),
            final(self).global_slot() == old(self).global_slot(),
            final(self).props_spec() == old(self).props_spec(),
            r == old(self).can_free(id as int),
            r ==> final(self).counts_spec() == free_counts(old(self).counts_spec(), id as int),
            !r ==> final(self).counts_spec() == old(self).counts_spec(),
    {
        if id < self.counts.len() {
            let floor: u64 = if id == self.global_id {
                1
            } else {
                0
            };
            let c = self.counts[id];
            if c > floor {
                vec_u64_set(&mut self.counts, id, c - 1);
                return true;
            }
        }
        false
    }

    /// The engine-reported reference count of a slot; slots the engine does
    /// not know report zero.
    pub fn ref_count(&self, id: usize) -> (r: u64)
        requires
            self.wf(),
            self.alive_spec(),
        ensures
            r == if id < self.counts_spec().len() {
                self.counts_spec()[id as int]
            } else {
                0u64
            },
    {
        if id < self.counts.len() {
            self.counts[id]
        } else {
            0
        }
    }

    /// Invokes the engine's collector: every fully released slot at the end of
    /// the allocation area is reclaimed.
    pub fn run_gc(&mut self)
        requires
            old(self).wf(),
            old(self).alive_spec(),
        ensures
            final(self).wf(),
            final(self).alive_spec(),
            final(self).global_slot() == old(self).global_slot(),
            final(self).props_spec() == old(self).props_spec(),
            final(self).counts_spec() == gc_trim(old(self).counts_spec()),
    {
        while self.counts.len() > 0 && self.counts[self.counts.len() - 1] == 0
            invariant
                gc_trim(self.counts@) == gc_trim(old(self).counts_spec()),
                self.alive == old(self).alive_spec(),
                self.global_id == old(self).global_slot(),
                self.props == old(self).props,
                old(self).wf(),
                self.alive ==> self.global_id < self.counts.len() && 1 <= self.counts@[self.global_id as int],
            decreases self.counts.len(),
        {
            proof {
                assert(self.counts@.drop_last() =~= self.counts@.take(self.counts@.len() - 1));
                if self.alive {
                    assert(self.counts@[self.global_id as int] >= 1);
                    assert(self.global_id != self.counts.len() - 1);
                }
            }
            self.counts.pop();
        }
        proof {
            assert(gc_trim(self.counts@) == self.counts@);
        }
    }

    /// The number of allocation slots the engine currently keeps: the model's
    /// measure of engine-side memory usage.
    pub fn allocated_slots(&self) -> (r: usize)
        ensures
            r == self.counts_spec().len(),
    {
        self.counts.len()
    }

    /// The raw value of the global object, as the engine call that fetches it
    /// hands it out.
    pub fn get_global_value(&self) -> (r: JsValue)
        requires
            self.wf(),
            self.alive_spec(),
        ensures
            r == self.global_value(),
    {
        JsValue { tag: TAG_OBJECT, payload: self.global_id }
    }

    /// Finds the first property of the global object named `name`.
    pub fn find_prop(&self, name: &str) -> (r: Option<usize>)
        ensures
            match r {
                Some(i) => {
                    &&& i < self.props_spec().len()
                    &&& self.props_spec()[i as int].0 == name@
                    &&& prop_lookup(self.props_spec(), name@) == Some(
                        self.props_spec()[i as int].1,
                    )
                },
                None => prop_lookup(self.props_spec(), name@) is None,
            },
    {
        let key: String = name.to_owned();
        let ghost ps = self.props_spec();
        let mut i: usize = 0;
        proof {
            assert(ps.skip(0) =~= ps);
        }
        while i < self.props.len()
            invariant
                i <= self.props.len(),
                key@ == name@,
                ps == self.props_spec(),
                ps.len() == self.props.len(),
                prop_lookup(ps, name@) == prop_lookup(ps.skip(i as int), name@),
            decreases self.props.len() - i,
        {
            proof {
                assert(ps.skip(i as int)[0] == ps[i as int]);
                assert(ps.skip(i as int).drop_first() =~= ps.skip(i as int + 1));
            }
            if self.props[i].name == key {
                proof {
                    assert(ps[i as int].0 == name@);
                    assert(prop_lookup(ps, name@) == Some(ps[i as int].1));
                }
                return Some(i);
            }
            i += 1;
        }
        proof {
            assert(ps.skip(i as int) =~= Seq::<(Seq<char>, JsValue)>::empty());
        }
        None
    }

    /// The value bound by the global object's `i`-th property.
    pub fn get_prop_value(&self, i: usize) -> (r: JsValue)
        requires
            i < self.props_spec().len(),
        ensures
            r == self.props_spec()[i as int].1,
    {
        self.props[i].value
    }

    /// Defines a fresh named property on the global object, binding it to a
    /// live reference-counted value; the global object takes one reference of
    /// its own to the value. Reports whether the engine could: the value must
    /// be a live reference-counted allocation whose count does not saturate,
    /// and the name must be fresh.
    pub fn set_global_property(&mut self, name: &str, value: JsValue) -> (r: bool)
        requires
            old(self).wf(),
            old(self).alive_spec(),
        ensures
            final(self).wf(),
            final(self).alive_spec(),
            final(self).global_slot() == old(self).global_slot(),
            r == (spec_tag_is_ref_counted(value.tag) && old(self).can_dup(value.payload as int)
                && prop_lookup(old(self).props_spec(), name@) is None),
            r ==> final(self).counts_spec() == dup_counts(
                old(self).counts_spec(),
                value.payload as int,
            ),
            r ==> final(self).props_spec() == old(self).props_spec().push((name@, value)),
            !r ==> final(self).counts_spec() == old(self).counts_spec(),
            !r ==> final(self).props_spec() == old(self).props_spec(),
    {
        if !tag_is_ref_counted(value.tag) {
            return false;
        }
        if self.find_prop(name).is_some() {
            return false;
        }
        let duped = self.dup_value(value.payload);
        if !duped {
            return false;
        }
        self.props.push(GlobalProp { name: name.to_owned(), value });
        proof {
            assert(self.props_spec() =~= old(self).props_spec().push((name@, value)));
        }
        true
    }
}

/// Writes one ledger slot.
fn vec_u64_set(v: &mut Vec<u64>, i: usize, x: u64)
    requires
        i < old(v).len(),
    ensures
        final(v)@ == old(v)@.update(i as int, x),
{
    let slot = vstd::std_specs::vec::vec_index_mut(v, i);
    *slot = x;
}

} // verus!
