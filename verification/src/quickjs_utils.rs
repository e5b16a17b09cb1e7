use vstd::prelude::*;
use crate::eserror::EsError;
use crate::quickjs_utils::objects::get_property;
use crate::quickjsruntime::QuickJsRuntime;
use crate::quickjsruntime::dup_counts;
use crate::quickjsruntime::gc_trim;
use crate::quickjsruntime::prop_lookup;
use crate::valueref::JSValueRef;
use crate::valueref::JsValue;
use crate::valueref::TAG_NULL;
use crate::valueref::TAG_UNDEFINED;

pub mod objects;

verus! {

/// Asks the engine to run its garbage collector against this context.
pub fn gc(q_js_rt: &mut QuickJsRuntime)
    requires
        old(q_js_rt).wf(),
        old(q_js_rt).alive_spec(),
    ensures
        final(q_js_rt).wf(),
        final(q_js_rt).alive_spec(),
        final(q_js_rt).global_slot() == old(q_js_rt).global_slot(),
        final(q_js_rt).props_spec() == old(q_js_rt).props_spec(),
        final(q_js_rt).counts_spec() == gc_trim(old(q_js_rt).counts_spec()),
{
    q_js_rt.run_gc();
}

/// A fresh handle on the `undefined` value: an immediate kind, so the handle
/// is non-owning and its drop never touches the engine.
pub fn new_undefined_ref() -> (r: JSValueRef)
    ensures
        r.value_spec() == (JsValue { tag: TAG_UNDEFINED, payload: 0 }),
        !r.is_owning_spec(),
        r.label_spec() == "new_undefined_ref"@,
{
    JSValueRef::new(
        JsValue { tag: TAG_UNDEFINED, payload: 0 },
        false,
        false,
        "new_undefined_ref",
    )
}

/// The raw `null` value.
pub fn new_null() -> (r: JsValue)
    ensures
        r == (JsValue { tag: TAG_NULL, payload: 0 }),
{
    JsValue { tag: TAG_NULL, payload: 0 }
}

/// A fresh handle on the `null` value: an immediate kind, so the handle is
/// non-owning and its drop never touches the engine.
pub fn new_null_ref() -> (r: JSValueRef)
    ensures
        r.value_spec() == (JsValue { tag: TAG_NULL, payload: 0 }),
        !r.is_owning_spec(),
        r.label_spec() == "new_null_ref"@,
{
    JSValueRef::new(new_null(), false, false, "new_null_ref")
}

/// A handle on the global object.
///
/// The engine keeps its own reference to the global object for the context's
/// whole life, so the handle is deliberately non-owning: fetching it takes no
/// reference and dropping it gives none back.
pub fn get_global(q_js_rt: &QuickJsRuntime) -> (r: JSValueRef)
    requires
        q_js_rt.wf(),
        q_js_rt.alive_spec(),
    ensures
        r.value_spec() == q_js_rt.global_value(),
        !r.is_owning_spec(),
        r.label_spec() == "global"@,
{
    JSValueRef::new(q_js_rt.get_global_value(), false, true, "global")
}

/// Looks a named constructor up on the global object.
///
/// A bound name comes back as an owning handle carrying one fresh engine-side
/// reference; an unbound name reads as `undefined`, as any absent property
/// does. The engine reports an error only when it cannot take the reference
/// (the bound value's backing slot is no longer live, or its count would
/// saturate).
pub fn get_constructor(q_js_rt: &mut QuickJsRuntime, constructor_name: &str) -> (r: Result<
    JSValueRef,
    EsError,
>)
    requires
        old(q_js_rt).wf(),
        old(q_js_rt).alive_spec(),
    ensures
        final(q_js_rt).wf(),
        final(q_js_rt).alive_spec(),
        final(q_js_rt).global_slot() == old(q_js_rt).global_slot(),
        final(q_js_rt).props_spec() == old(q_js_rt).props_spec(),
        match prop_lookup(old(q_js_rt).props_spec(), constructor_name@) {
            Option::None => {
                &&& final(q_js_rt).counts_spec() == old(q_js_rt).counts_spec()
                &&& (r matches Ok(v) && v.value_spec() == (JsValue {
                    tag: TAG_UNDEFINED,
                    payload: 0,
                }) && !v.is_owning_spec())
            },
            Option::Some(value) => {
                if old(q_js_rt).can_dup(value.payload as int) {
                    &&& final(q_js_rt).counts_spec() == dup_counts(
                        old(q_js_rt).counts_spec(),
                        value.payload as int,
                    )
                    &&& (r matches Ok(v) && v.value_spec() == value && v.is_owning_spec()
                        && v.label_spec() == constructor_name@)
                } else {
                    &&& final(q_js_rt).counts_spec() == old(q_js_rt).counts_spec()
                    &&& r is Err
                }
            },
        },
{
    let global_ref = get_global(q_js_rt);
    let constructor_ref = match get_property(q_js_rt, &global_ref, constructor_name) {
        Ok(v) => v,
        Err(e) => {
            return Err(e);
        },
    };
    Ok(constructor_ref)
}

/// Wraps a borrowed argument list, as the engine hands one to a host callback:
/// every element gets a non-owning handle, since the engine keeps the
/// arguments alive for the duration of the call.
pub fn parse_args(args: &[JsValue]) -> (r: Vec<JSValueRef>)
    ensures
        r@.len() == args@.len(),
        forall|i: int|
            0 <= i < args@.len() ==> {
                &&& (#[trigger] r@[i]).value_spec() == args@[i]
                &&& !r@[i].is_owning_spec()
                &&& r@[i].label_spec() == "quickjs_utils::parse_args"@
            },
{
    let mut refs: Vec<JSValueRef> = Vec::new();
    let mut i: usize = 0;
    while i < args.len()
        invariant
            i <= args@.len(),
            refs@.len() == i,
            forall|j: int|
                0 <= j < i ==> {
                    &&& (#[trigger] refs@[j]).value_spec() == args@[j]
                    &&& !refs@[j].is_owning_spec()
                    &&& refs@[j].label_spec() == "quickjs_utils::parse_args"@
                },
        decreases args@.len() - i,
    {
        refs.push(JSValueRef::new(args[i], false, false, "quickjs_utils::parse_args"));
        i += 1;
    }
    refs
}

} // verus!
