use reroute::{Method, RouterBuilder, Target};

#[test]
fn bad_regular_expression() {
    let mut router = RouterBuilder::new();
    router.route(Method::Get, r"/[", 0u8);
    let e = router.finalize();
    assert!(e.is_err());
}

#[test]
fn bad_pattern_reports_its_text() {
    let mut builder = RouterBuilder::new();
    builder.get(r"/(", 0u8);
    let e = builder.finalize();
    match e {
        Err(err) => assert!(!err.message().is_empty()),
        Ok(_) => panic!("an unclosed group must not compile"),
    }
}

#[test]
fn empty_builder_finalizes() {
    let builder = RouterBuilder::<u8>::new();
    let router = builder.finalize().unwrap();
    assert_eq!(router.route_count(), 0);
    let d = router.dispatch(Method::Get, "/anything");
    assert_eq!(d.target, Target::NotFound);
    assert!(d.captures.is_none());
    let d = router.dispatch(Method::Post, "");
    assert_eq!(d.target, Target::NotFound);
    assert!(d.captures.is_none());
}

#[test]
fn handlers_and_fallback_are_kept() {
    let mut builder = RouterBuilder::new();
    builder.get(r"/a", "handler a");
    builder.post(r"/b", "handler b");
    builder.not_found("fallback");
    let router = builder.finalize().unwrap();
    assert_eq!(router.route_count(), 2);
    assert_eq!(*router.handler(0), "handler a");
    assert_eq!(*router.handler(1), "handler b");
    assert_eq!(*router.not_found_handler(), Some("fallback"));
}

#[test]
fn last_fallback_wins() {
    let mut builder = RouterBuilder::<&str>::new();
    builder.not_found("first");
    builder.not_found("second");
    let router = builder.finalize().unwrap();
    assert_eq!(*router.not_found_handler(), Some("second"));
}

#[test]
fn missing_fallback_stays_unset() {
    let mut builder = RouterBuilder::new();
    builder.get(r"/a", 1u8);
    let router = builder.finalize().unwrap();
    assert_eq!(*router.not_found_handler(), None);
}

#[test]
fn one_bad_pattern_fails_the_whole_build() {
    let mut builder = RouterBuilder::new();
    builder.get(r"/fine", 1u8);
    builder.get(r"/als(o", 2u8);
    builder.get(r"/good", 3u8);
    assert!(builder.finalize().is_err());
}
