use div::{DivError, DivState, JsClass, JsClassHandle, LoadAction};

fn names(list: &[&str]) -> Vec<String> {
    list.iter().map(|s| String::from(*s)).collect()
}

fn init_state() -> DivState {
    let mut s = DivState::default();
    div::init(&mut s, true).unwrap();
    s
}

#[test]
fn load_before_init_fails() {
    let mut s = DivState::default();
    assert_eq!(
        div::load_js_classes(&mut s, &names(&["Foo"]), "foo.js"),
        Err(DivError::NotInitialized)
    );
    assert_eq!(div::resolve_names(&s, &names(&["Foo"])), Err(DivError::NotInitialized));
}

#[test]
fn one_source_is_fetched_once() {
    let mut s = init_state();
    assert_eq!(div::load_js_classes(&mut s, &names(&["A"]), "x.js"), Ok(LoadAction::StartFetch));
    assert_eq!(div::load_js_classes(&mut s, &names(&["B"]), "x.js"), Ok(LoadAction::AwaitPending));
    assert!(div::source_pending(&s, "x.js"));
    // both requesters' names belong to the single pending fetch
    assert_eq!(div::pending_names(&s, "x.js"), Some(names(&["A", "B"])));
    div::finish_load(&mut s, "x.js", &names(&["A", "B"]));
    assert!(!div::source_pending(&s, "x.js"));
    // both requesters resolve after the one fetch completed
    let a = div::resolve_names(&s, &names(&["A"])).unwrap();
    let b = div::resolve_names(&s, &names(&["B"])).unwrap();
    assert_eq!(a.len(), 1);
    assert_eq!(b.len(), 1);
    assert_ne!(a[0], b[0]);
    // a repeated resolution sees the very same handles
    assert_eq!(div::resolve_names(&s, &names(&["A"])).unwrap(), a);
    // the source is loaded for good: no further fetch
    assert_eq!(div::load_js_classes(&mut s, &names(&["A"]), "x.js"), Ok(LoadAction::Ready));
}

#[test]
fn loads_of_distinct_sources_are_independent() {
    let mut s = init_state();
    assert_eq!(div::load_js_classes(&mut s, &names(&["A"]), "x.js"), Ok(LoadAction::StartFetch));
    assert_eq!(div::load_js_classes(&mut s, &names(&["B"]), "y.js"), Ok(LoadAction::StartFetch));
}

#[test]
fn class_scenario_in_order_handles_and_attachment() {
    let mut s = init_state();
    assert_eq!(
        div::load_js_classes(&mut s, &names(&["Foo", "Bar"]), "foo.js"),
        Ok(LoadAction::StartFetch)
    );
    div::finish_load(&mut s, "foo.js", &names(&["Foo", "Bar"]));
    let handles = div::resolve_names(&s, &names(&["Foo", "Bar"])).unwrap();
    assert_eq!(handles.len(), 2);
    let foo = handles[0];
    let bar = handles[1];
    assert_ne!(foo, bar);
    // the order of the returned handles follows the order of the names
    assert_eq!(div::resolve_names(&s, &names(&["Bar", "Foo"])).unwrap(), vec![bar, foo]);
    // attaching Foo to a fresh pane succeeds
    let pane = div::from_js_class(&mut s, 100, 100, 500, 500, foo);
    assert!(pane.is_ok());
    // one past the highest handle ever issued is unknown
    let highest = foo.0.max(bar.0);
    assert_eq!(
        div::from_js_class(&mut s, 0, 0, 10, 10, JsClassHandle(highest + 1)),
        Err(DivError::UnknownClassHandle)
    );
}

#[test]
fn preloaded_none_before_some_after() {
    let mut s = init_state();
    assert_eq!(JsClass::preregistered(&s, "X"), None);
    assert_eq!(div::load_js_classes(&mut s, &names(&["X"]), "x.js"), Ok(LoadAction::StartFetch));
    // still pending: the load has not completed
    assert_eq!(JsClass::preregistered(&s, "X"), None);
    div::finish_load(&mut s, "x.js", &names(&["X"]));
    let h = JsClass::preregistered(&s, "X");
    assert!(h.is_some());
    assert_eq!(div::resolve_names(&s, &names(&["X"])).unwrap()[0], h.unwrap());
}

#[test]
fn missing_export_is_reported_by_name() {
    let mut s = init_state();
    div::load_js_classes(&mut s, &names(&["Foo", "Gone"]), "m.js").unwrap();
    // the module only exports Foo
    div::finish_load(&mut s, "m.js", &names(&["Foo"]));
    assert_eq!(
        div::resolve_names(&s, &names(&["Foo", "Gone"])),
        Err(DivError::ExportNotFound(String::from("Gone")))
    );
    assert!(div::resolve_names(&s, &names(&["Foo"])).is_ok());
}

#[test]
fn failed_load_can_be_retried() {
    let mut s = init_state();
    assert_eq!(div::load_js_classes(&mut s, &names(&["A"]), "x.js"), Ok(LoadAction::StartFetch));
    div::fail_load(&mut s, "x.js");
    assert!(!div::source_pending(&s, "x.js"));
    assert_eq!(div::resolve_names(&s, &names(&["A"])), Err(DivError::ExportNotFound(String::from("A"))));
    // a fresh load of the same source fetches again
    assert_eq!(div::load_js_classes(&mut s, &names(&["A"]), "x.js"), Ok(LoadAction::StartFetch));
    div::finish_load(&mut s, "x.js", &names(&["A"]));
    assert!(div::resolve_names(&s, &names(&["A"])).is_ok());
}

#[test]
fn host_registered_class_is_preloaded() {
    let mut s = init_state();
    let h = div::register_class(&mut s, "HostClass").unwrap();
    assert_eq!(JsClass::preregistered(&s, "HostClass"), Some(h));
    // registering the same name again keeps its handle
    assert_eq!(div::register_class(&mut s, "HostClass").unwrap(), h);
}

#[test]
fn get_class_round_trips_handle_and_name() {
    let mut s = init_state();
    let h = div::register_class(&mut s, "Widget").unwrap();
    let c = div::get_class(&s, h).unwrap();
    assert_eq!(c.handle, h);
    assert_eq!(c.name, "Widget");
    assert_eq!(div::get_class(&s, JsClassHandle(h.0 + 1)), Err(DivError::UnknownClassHandle));
}

#[test]
fn stale_class_handle_still_creates_the_pane() {
    let mut s = init_state();
    let r = div::from_js_class(&mut s, 0, 0, 10, 10, JsClassHandle(7));
    assert_eq!(r, Err(DivError::UnknownClassHandle));
    // the pane was created before the class lookup failed, as in the
    // creation flow; the next creation gets the following handle
    let h = div::new(&mut s, 0, 0, 1, 1, "").unwrap();
    assert_eq!(h.0, 1);
}

#[test]
fn classes_loaded_twice_keep_their_handles() {
    let mut s = init_state();
    div::load_js_classes(&mut s, &names(&["A"]), "x.js").unwrap();
    div::finish_load(&mut s, "x.js", &names(&["A"]));
    let first = div::resolve_names(&s, &names(&["A"])).unwrap();
    div::load_js_classes(&mut s, &names(&["A"]), "y.js").unwrap();
    div::finish_load(&mut s, "y.js", &names(&["A"]));
    let second = div::resolve_names(&s, &names(&["A"])).unwrap();
    assert_eq!(first, second);
}
