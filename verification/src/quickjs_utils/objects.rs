use vstd::prelude::*;
use crate::eserror::EsError;
use crate::quickjsruntime::QuickJsRuntime;
use crate::quickjsruntime::dup_counts;
use crate::quickjsruntime::prop_lookup;
use crate::valueref::JSValueRef;
use crate::valueref::JsValue;
use crate::valueref::TAG_OBJECT;
use crate::valueref::TAG_UNDEFINED;

verus! {

/// Reads a named property of an object.
///
/// Property access is only defined on objects: any other kind reports an
/// engine error. The model keeps a property table for the global object
/// alone, so on any other object every name reads as `undefined` — exactly
/// what an absent property reads as on the global object too. A bound name
/// comes back as an owning handle carrying one fresh engine-side reference;
/// the engine reports an error when it cannot take that reference (the bound
/// value's backing slot is no longer live, or its count would saturate).
pub fn get_property(q_js_rt: &mut QuickJsRuntime, obj: &JSValueRef, prop_name: &str) -> (r: Result<
    JSValueRef,
    EsError,
>)
    requires
        old(q_js_rt).wf(),
        old(q_js_rt).alive_spec(),
    ensures
        final(q_js_rt).wf(),
        final(q_js_rt).alive_spec(),
        final(q_js_rt).global_slot() == old(q_js_rt).global_slot(),
        final(q_js_rt).props_spec() == old(q_js_rt).props_spec(),
        obj.value_spec().tag != TAG_OBJECT ==> {
            &&& final(q_js_rt).counts_spec() == old(q_js_rt).counts_spec()
            &&& r is Err
        },
        obj.value_spec().tag == TAG_OBJECT && obj.value_spec() != old(q_js_rt).global_value()
            ==> {
            &&& final(q_js_rt).counts_spec() == old(q_js_rt).counts_spec()
            &&& (r matches Ok(v) && v.value_spec() == (JsValue { tag: TAG_UNDEFINED, payload: 0 })
                && !v.is_owning_spec())
        },
        obj.value_spec() == old(q_js_rt).global_value() ==> match prop_lookup(
            old(q_js_rt).props_spec(),
            prop_name@,
        ) {
            Option::None => {
                &&& final(q_js_rt).counts_spec() == old(q_js_rt).counts_spec()
                &&& (r matches Ok(v) && v.value_spec() == (JsValue {
                    tag: TAG_UNDEFINED,
                    payload: 0,
                }) && !v.is_owning_spec())
            },
            Option::Some(value) => {
                if old(q_js_rt).can_dup(value.payload as int) {
                    &&& final(q_js_rt).counts_spec() == dup_counts(
                        old(q_js_rt).counts_spec(),
                        value.payload as int,
                    )
                    &&& (r matches Ok(v) && v.value_spec() == value && v.is_owning_spec()
                        && v.label_spec() == prop_name@)
                } else {
                    &&& final(q_js_rt).counts_spec() == old(q_js_rt).counts_spec()
                    &&& r is Err
                }
            },
        },
{
    let value = obj.get_value();
    if value.tag != TAG_OBJECT {
        return Err(EsError::new_str("property access on a non-object value"));
    }
    let global = q_js_rt.get_global_value();
    if value.payload != global.payload {
        return Ok(crate::quickjs_utils::new_undefined_ref());
    }
    match q_js_rt.find_prop(prop_name) {
        Option::None => Ok(crate::quickjs_utils::new_undefined_ref()),
        Option::Some(i) => {
            let bound = q_js_rt.get_prop_value(i);
            if q_js_rt.dup_value(bound.payload) {
                Ok(JSValueRef::new(bound, true, true, prop_name))
            } else {
                Err(EsError::new_str("property value is no longer a live engine allocation"))
            }
        },
    }
}

} // verus!
