use quickjs_arbiter::eserror::EsError;
use quickjs_arbiter::quickjs_utils::get_constructor;
use quickjs_arbiter::quickjs_utils::get_global;
use quickjs_arbiter::quickjs_utils::new_null;
use quickjs_arbiter::quickjs_utils::new_null_ref;
use quickjs_arbiter::quickjs_utils::new_undefined_ref;
use quickjs_arbiter::quickjs_utils::objects::get_property;
use quickjs_arbiter::quickjs_utils::parse_args;
use quickjs_arbiter::quickjs_utils::gc;
use quickjs_arbiter::quickjsruntime::QuickJsRuntime;
use quickjs_arbiter::valueref::JSValueRef;
use quickjs_arbiter::valueref::JsValue;
use quickjs_arbiter::valueref::TAG_BOOL;
use quickjs_arbiter::valueref::TAG_FIRST;
use quickjs_arbiter::valueref::TAG_INT;
use quickjs_arbiter::valueref::TAG_NULL;
use quickjs_arbiter::valueref::TAG_OBJECT;
use quickjs_arbiter::valueref::TAG_STRING;
use quickjs_arbiter::valueref::TAG_UNDEFINED;

#[test]
fn test_global() {
    let rt = QuickJsRuntime::new();
    let ct = get_global(&rt).get_ref_count(&rt);
    for _ in 0..5 {
        let global = get_global(&rt);
        assert_eq!(global.get_ref_count(&rt), ct);
    }
}

#[test]
fn wrap_forces_non_owning_for_immediate_kinds() {
    let undef = JSValueRef::new(
        JsValue {
            tag: TAG_UNDEFINED,
            payload: 0,
        },
        true,
        true,
        "undef",
    );
    assert!(!undef.is_owning());
    assert!(undef.is_undefined());
    assert!(!undef.is_null());

    let int_ref = JSValueRef::new(JsValue { tag: TAG_INT, payload: 42 }, true, true, "int");
    assert!(!int_ref.is_owning());
    let bool_ref = JSValueRef::new(JsValue { tag: TAG_BOOL, payload: 1 }, true, true, "bool");
    assert!(!bool_ref.is_owning());

    // A reference-counted kind is owning only when asked for in both flags.
    let mut rt = QuickJsRuntime::new();
    let v = rt.alloc_value();
    assert_eq!(v.tag, TAG_OBJECT);
    let not_asked = JSValueRef::new(v, false, true, "view");
    assert!(!not_asked.is_owning());
    let not_counted_kind = JSValueRef::new(v, true, false, "view");
    assert!(!not_counted_kind.is_owning());
    let owning = JSValueRef::new(v, true, true, "owned");
    assert!(owning.is_owning());
    assert_eq!(owning.get_label(), "owned");
    assert_eq!(owning.get_tag(), TAG_OBJECT);
    owning.release(&mut rt);
}

#[test]
fn clone_then_drop_leaves_ref_count_unchanged() {
    let mut rt = QuickJsRuntime::new();
    let v = rt.alloc_value();
    let h = JSValueRef::new(v, true, true, "h");
    let before = h.get_ref_count(&rt);
    assert_eq!(before, 1);

    let c = h.clone(&mut rt);
    assert_eq!(h.get_ref_count(&rt), 2);
    c.release(&mut rt);
    assert_eq!(h.get_ref_count(&rt), before);

    h.release(&mut rt);
}

#[test]
fn non_owning_drop_never_mutates_counts() {
    let mut rt = QuickJsRuntime::new();
    let v = rt.alloc_value();
    let global_before = rt.ref_count(0);
    let value_before = rt.ref_count(v.payload);
    let slots_before = rt.allocated_slots();

    new_undefined_ref().release(&mut rt);
    new_null_ref().release(&mut rt);
    get_global(&rt).release(&mut rt);
    JSValueRef::new(v, false, true, "view").release(&mut rt);
    let cloned_view = JSValueRef::new(v, false, true, "view").clone(&mut rt);
    cloned_view.release(&mut rt);

    assert_eq!(rt.ref_count(0), global_before);
    assert_eq!(rt.ref_count(v.payload), value_before);
    assert_eq!(rt.allocated_slots(), slots_before);
}

#[test]
fn wrap_clone_k_times_drop_all_returns_count_to_zero() {
    let mut rt = QuickJsRuntime::new();
    let v = rt.alloc_value();
    assert_eq!(rt.ref_count(v.payload), 1);

    let h = JSValueRef::new(v, true, true, "fresh");
    let k: u64 = 5;
    let mut clones: Vec<JSValueRef> = Vec::new();
    for _ in 0..k {
        clones.push(h.clone(&mut rt));
    }
    assert_eq!(rt.ref_count(v.payload), 1 + k);

    for c in clones.into_iter() {
        c.release(&mut rt);
    }
    h.release(&mut rt);
    assert_eq!(rt.ref_count(v.payload), 0);

    // The fully released slot is reclaimable by the collector.
    gc(&mut rt);
    assert_eq!(rt.allocated_slots(), 1);
}

#[test]
fn gc_reclaims_released_slots_and_keeps_live_ones() {
    let mut rt = QuickJsRuntime::new();
    let a = rt.alloc_value();
    let b = rt.alloc_value();
    let c = rt.alloc_value();
    assert_eq!(rt.allocated_slots(), 4);

    JSValueRef::new(b, true, true, "b").release(&mut rt);
    JSValueRef::new(c, true, true, "c").release(&mut rt);
    gc(&mut rt);
    // The trailing released slots go away; the live one stays, count intact.
    assert_eq!(rt.allocated_slots(), 2);
    assert_eq!(rt.ref_count(a.payload), 1);
    assert_eq!(rt.ref_count(0), 1);
}

#[test]
fn get_constructor_finds_registered_global() {
    let mut rt = QuickJsRuntime::new();
    let v = rt.alloc_value();
    assert!(rt.set_global_property("Array", v));
    // The global object now holds its own reference beside the creation one.
    assert_eq!(rt.ref_count(v.payload), 2);
    // A second definition under the same name is refused.
    assert!(!rt.set_global_property("Array", v));

    let ctor = get_constructor(&mut rt, "Array").expect("registered constructor");
    assert!(ctor.is_owning());
    assert_eq!(ctor.get_value(), v);
    assert_eq!(ctor.get_label(), "Array");
    assert_eq!(ctor.get_ref_count(&rt), 3);
    ctor.release(&mut rt);
    assert_eq!(rt.ref_count(v.payload), 2);
}

#[test]
fn get_constructor_reads_unbound_name_as_undefined() {
    let mut rt = QuickJsRuntime::new();
    let before = rt.allocated_slots();
    let ctor = get_constructor(&mut rt, "Nope").expect("absent property reads as undefined");
    assert!(ctor.is_undefined());
    assert!(!ctor.is_owning());
    assert_eq!(rt.allocated_slots(), before);
}

#[test]
fn get_property_rejects_non_objects() {
    let mut rt = QuickJsRuntime::new();
    let null_ref = new_null_ref();
    let r = get_property(&mut rt, &null_ref, "anything");
    let e = r.err().expect("property access on a non-object must fail");
    assert_eq!(e.get_message(), "property access on a non-object value");
}

#[test]
fn parse_args_wraps_every_argument_non_owning() {
    let args = vec![
        JsValue { tag: TAG_INT, payload: 7 },
        JsValue { tag: TAG_STRING, payload: 3 },
        JsValue { tag: TAG_NULL, payload: 0 },
    ];
    let refs = parse_args(&args);
    assert_eq!(refs.len(), 3);
    for (i, r) in refs.iter().enumerate() {
        assert_eq!(r.get_value(), args[i]);
        assert!(!r.is_owning());
        assert_eq!(r.get_label(), "quickjs_utils::parse_args");
    }
}

#[test]
fn new_null_and_undefined_are_immediate() {
    assert_eq!(new_null(), JsValue { tag: TAG_NULL, payload: 0 });
    let u = new_undefined_ref();
    assert_eq!(u.get_tag(), TAG_UNDEFINED);
    assert!(!u.is_owning());
    assert_eq!(u.get_label(), "new_undefined_ref");
    let n = new_null_ref();
    assert!(n.is_null());
    assert_eq!(n.get_label(), "new_null_ref");
}

#[test]
fn model_tags_match_the_engine() {
    assert_eq!(TAG_FIRST, libquickjs_sys::JS_TAG_FIRST as i64);
    assert_eq!(TAG_STRING, libquickjs_sys::JS_TAG_STRING as i64);
    assert_eq!(TAG_OBJECT, libquickjs_sys::JS_TAG_OBJECT as i64);
    assert_eq!(TAG_INT, libquickjs_sys::JS_TAG_INT as i64);
    assert_eq!(TAG_BOOL, libquickjs_sys::JS_TAG_BOOL as i64);
    assert_eq!(TAG_NULL, libquickjs_sys::JS_TAG_NULL as i64);
    assert_eq!(TAG_UNDEFINED, libquickjs_sys::JS_TAG_UNDEFINED as i64);
}

#[test]
fn es_error_carries_its_message() {
    let e = EsError::new_str("boom");
    assert_eq!(e.get_message(), "boom");
    let e2 = EsError::new_string(String::from("later"));
    assert_eq!(e2.get_message(), "later");
}
