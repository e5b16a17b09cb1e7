use vstd::prelude::*;
use crate::quickjsruntime::QuickJsRuntime;
use crate::quickjsruntime::dup_counts;
use crate::quickjsruntime::free_counts;

verus! {

// Value tags of the embedded engine. Negative tags mark heap-allocated,
// reference-counted kinds; non-negative tags mark immediate kinds whose
// payload is the value itself and which the engine does not count.
pub const TAG_FIRST: i64 = -11;
pub const TAG_STRING: i64 = -7;
pub const TAG_OBJECT: i64 = -1;
pub const TAG_INT: i64 = 0;
pub const TAG_BOOL: i64 = 1;
pub const TAG_NULL: i64 = 2;
pub const TAG_UNDEFINED: i64 = 3;

/// The host-side image of one raw engine value: the engine's kind tag together
/// with the value's payload word. For a reference-counted kind the payload is
/// the engine-side slot of the backing allocation; for an immediate kind it is
/// the immediate data itself.
#[derive(Clone, Copy, PartialEq, Eq, Structural, Debug)]
pub struct JsValue {
    pub tag: i64,
    pub payload: usize,
}

/// True for the tags whose values are backed by an engine-side allocation and
/// reference count.
pub open spec fn spec_tag_is_ref_counted(tag: i64) -> bool {
    TAG_FIRST <= tag <= TAG_OBJECT
}

pub fn tag_is_ref_counted(tag: i64) -> (r: bool)
    ensures
        r == spec_tag_is_ref_counted(tag),
{
    TAG_FIRST <= tag && tag <= TAG_OBJECT
}

/// The ghost image of a value handle: what a contract states of a handle that
/// some operation hands back.
pub struct HandleSpec {
    pub value: JsValue,
    pub owning: bool,
    pub label: Seq<char>,
}

/// One host-side reference to an engine value.
///
/// An owning handle stands for exactly one engine-side reference to its value:
/// cloning it takes one more engine-side reference, and releasing it gives
/// exactly one back. A non-owning handle (every handle over an immediate kind,
/// and deliberately non-owning views such as the global object) never touches
/// an engine-side count.
pub struct JSValueRef {
    value: JsValue,
    owning: bool,
    label: String,
}

impl JSValueRef {
    /// The raw engine value this handle stands for.
    pub closed spec fn value_spec(&self) -> JsValue {
        self.value
    }

    /// Whether this handle owns one engine-side reference.
    pub closed spec fn is_owning_spec(&self) -> bool {
        self.owning
    }

    /// The handle's lifecycle-tracing label.
    pub closed spec fn label_spec(&self) -> Seq<char> {
        self.label@
    }

    /// True when this handle is the one a contract's [`HandleSpec`] describes.
    pub open spec fn matches_spec(&self, s: HandleSpec) -> bool {
        &&& self.value_spec() == s.value
        &&& self.is_owning_spec() == s.owning
        &&& self.label_spec() == s.label
    }

    /// An owning handle may only exist for a reference-counted kind.
    pub open spec fn wf(&self) -> bool {
        self.is_owning_spec() ==> spec_tag_is_ref_counted(self.value_spec().tag)
    }

    /// An owning handle must stand for a live engine-side allocation.
    pub open spec fn valid_in(&self, q_js_rt: &QuickJsRuntime) -> bool {
        self.is_owning_spec() ==> {
            &&& self.value_spec().payload < q_js_rt.counts_spec().len()
            &&& 1 <= q_js_rt.counts_spec()[self.value_spec().payload as int]
        }
    }

    /// Wraps a raw engine value.
    ///
    /// A handle is owning only if the caller asks for an owning handle of a
    /// reference-counted kind: for immediate kinds (undefined, null, integers,
    /// booleans) there is no engine-side count to manage, so the owning flag
    /// is forced off regardless of the caller's intent. Wrapping itself never
    /// touches an engine-side count: an owning handle adopts the one reference
    /// the engine call that produced the raw value already handed out.
    pub fn new(value: JsValue, is_owning: bool, is_ref_counted_kind: bool, label: &str) -> (r:
        JSValueRef)
        ensures
            r.value_spec() == value,
            r.is_owning_spec() == (is_owning && is_ref_counted_kind && spec_tag_is_ref_counted(
                value.tag,
            )),
            r.label_spec() == label@,
            r.wf(),
    {
        let owning = is_owning && is_ref_counted_kind && tag_is_ref_counted(value.tag);
        JSValueRef { value, owning, label: label.to_owned() }
    }

    /// Clones the handle.
    ///
    /// For an owning handle this takes one more engine-side reference for the
    /// copy, through the engine context — an owning-side-confined operation.
    /// For a non-owning handle it is pure host work and the engine is left
    /// untouched.
    pub fn clone(&self, q_js_rt: &mut QuickJsRuntime) -> (r: JSValueRef)
        requires
            old(q_js_rt).wf(),
            old(q_js_rt).alive_spec(),
            self.wf(),
            self.valid_in(old(q_js_rt)),
            self.is_owning_spec() ==> old(q_js_rt).counts_spec()[self.value_spec().payload as int]
                < u64::MAX,
        ensures
            final(q_js_rt).wf(),
            final(q_js_rt).alive_spec(),
            final(q_js_rt).global_slot() == old(q_js_rt).global_slot(),
            final(q_js_rt).props_spec() == old(q_js_rt).props_spec(),
            r.value_spec() == self.value_spec(),
            r.is_owning_spec() == self.is_owning_spec(),
            r.label_spec() == self.label_spec(),
            r.wf(),
            self.is_owning_spec() ==> final(q_js_rt).counts_spec() == dup_counts(
                old(q_js_rt).counts_spec(),
                self.value_spec().payload as int,
            ),
            !self.is_owning_spec() ==> final(q_js_rt).counts_spec() == old(q_js_rt).counts_spec(),
    {
        if self.owning {
            let duped = q_js_rt.dup_value(self.value.payload);
            proof {
                assert(duped);
            }
        }
        JSValueRef { value: self.value, owning: self.owning, label: self.label.clone() }
    }

    /// Releases the handle on the owning side: the final-drop path.
    ///
    /// An owning handle gives its one engine-side reference back; a non-owning
    /// handle never mutates any engine-side reference count. A handle that
    /// crossed threads must be routed back through the arbiter instead (see
    /// [`crate::arbiter::Arbiter::release_value_ref`]).
    pub fn release(self, q_js_rt: &mut QuickJsRuntime)
        requires
            old(q_js_rt).wf(),
            old(q_js_rt).alive_spec(),
            self.wf(),
            self.is_owning_spec() ==> old(q_js_rt).can_free(self.value_spec().payload as int),
        ensures
            final(q_js_rt).wf(),
            final(q_js_rt).alive_spec(),
            final(q_js_rt).global_slot() == old(q_js_rt).global_slot(),
            final(q_js_rt).props_spec() == old(q_js_rt).props_spec(),
            self.is_owning_spec() ==> final(q_js_rt).counts_spec() == free_counts(
                old(q_js_rt).counts_spec(),
                self.value_spec().payload as int,
            ),
            !self.is_owning_spec() ==> final(q_js_rt).counts_spec() == old(q_js_rt).counts_spec(),
    {
        if self.owning {
            let freed = q_js_rt.free_value(self.value.payload);
            proof {
                assert(freed);
            }
        }
    }

    /// The engine-reported reference count of the value under this handle.
    ///
    /// Diagnostic: immediate kinds, and slots the engine does not know, report
    /// zero.
    pub fn get_ref_count(&self, q_js_rt: &QuickJsRuntime) -> (r: u64)
        requires
            q_js_rt.wf(),
            q_js_rt.alive_spec(),
        ensures
            r == if spec_tag_is_ref_counted(self.value_spec().tag) && self.value_spec().payload
                < q_js_rt.counts_spec().len() {
                q_js_rt.counts_spec()[self.value_spec().payload as int]
            } else {
                0u64
            },
    {
        if tag_is_ref_counted(self.value.tag) {
            q_js_rt.ref_count(self.value.payload)
        } else {
            0
        }
    }

    pub fn get_value(&self) -> (r: JsValue)
        ensures
            r == self.value_spec(),
    {
        self.value
    }

    pub fn get_tag(&self) -> (r: i64)
        ensures
            r == self.value_spec().tag,
    {
        self.value.tag
    }

    pub fn is_owning(&self) -> (r: bool)
        ensures
            r == self.is_owning_spec(),
    {
        self.owning
    }

    pub fn get_label(&self) -> (r: &str)
        ensures
            r@ == self.label_spec(),
    {
        self.label.as_str()
    }

    pub fn is_null(&self) -> (r: bool)
        ensures
            r == (self.value_spec().tag == TAG_NULL),
    {
        self.value.tag == TAG_NULL
    }

    pub fn is_undefined(&self) -> (r: bool)
        ensures
            r == (self.value_spec().tag == TAG_UNDEFINED),
    {
        self.value.tag == TAG_UNDEFINED
    }
}

} // verus!
