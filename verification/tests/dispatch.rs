use reroute::{Method, RouterBuilder, Target};

fn strings(texts: &[&str]) -> Vec<String> {
    texts.iter().map(|t| t.to_string()).collect()
}

#[test]
fn digit_and_body_routes() {
    let mut builder = RouterBuilder::new();
    builder.get(r"/(\d+)", 'A');
    builder.post(r"/body", 'B');
    builder.not_found('C');
    let router = builder.finalize().unwrap();

    let d = router.dispatch(Method::Get, "/42");
    assert_eq!(d.target, Target::Route(0));
    assert_eq!(*router.handler(0), 'A');
    assert_eq!(d.captures, Some(strings(&["/42", "42"])));

    let d = router.dispatch(Method::Post, "/42");
    assert_eq!(d.target, Target::MethodNotAllowed);
    assert!(d.captures.is_none());

    let d = router.dispatch(Method::Post, "/body");
    assert_eq!(d.target, Target::Route(1));
    assert_eq!(*router.handler(1), 'B');
    assert!(d.captures.is_none());

    let d = router.dispatch(Method::Get, "/unknown");
    assert_eq!(d.target, Target::NotFound);
    assert!(d.captures.is_none());
    assert_eq!(*router.not_found_handler(), Some('C'));
}

#[test]
fn unmatched_path_is_not_found_for_every_verb() {
    let mut builder = RouterBuilder::new();
    builder.get(r"/only", 1u8);
    let router = builder.finalize().unwrap();
    for verb in [Method::Get, Method::Post, Method::Delete, Method::Head] {
        let d = router.dispatch(verb, "/other");
        assert_eq!(d.target, Target::NotFound);
        assert!(d.captures.is_none());
    }
}

#[test]
fn method_mismatch_is_not_allowed() {
    let mut builder = RouterBuilder::new();
    builder.post(r"/x", 1u8);
    let router = builder.finalize().unwrap();
    let d = router.dispatch(Method::Get, "/x");
    assert_eq!(d.target, Target::MethodNotAllowed);
    assert!(d.captures.is_none());
}

#[test]
fn first_registered_route_wins() {
    let mut builder = RouterBuilder::new();
    builder.get(r"/a(b)?", 10u8);
    builder.get(r"/ab", 20u8);
    let router = builder.finalize().unwrap();
    let d = router.dispatch(Method::Get, "/ab");
    assert_eq!(d.target, Target::Route(0));
}

#[test]
fn verb_mismatch_skips_to_the_next_match() {
    let mut builder = RouterBuilder::new();
    builder.post(r"/y", 1u8);
    builder.get(r"/y", 2u8);
    let router = builder.finalize().unwrap();
    let d = router.dispatch(Method::Get, "/y");
    assert_eq!(d.target, Target::Route(1));
    let d = router.dispatch(Method::Post, "/y");
    assert_eq!(d.target, Target::Route(0));
}

#[test]
fn duplicate_registrations_stay_separate_candidates() {
    let mut builder = RouterBuilder::new();
    builder.get(r"/dup", 1u8);
    builder.get(r"/dup", 2u8);
    let router = builder.finalize().unwrap();
    assert_eq!(router.route_count(), 2);
    let d = router.dispatch(Method::Get, "/dup");
    assert_eq!(d.target, Target::Route(0));
}

#[test]
fn captures_come_from_the_matched_pattern() {
    let mut builder = RouterBuilder::new();
    builder.get(r"/(a)(x)?(b)", 1u8);
    let router = builder.finalize().unwrap();
    let d = router.dispatch(Method::Get, "/ab");
    assert_eq!(d.target, Target::Route(0));
    assert_eq!(d.captures, Some(strings(&["/ab", "a", "b"])));
}

#[test]
fn pattern_without_groups_yields_no_captures() {
    let mut builder = RouterBuilder::new();
    builder.get(r"/plain", 1u8);
    let router = builder.finalize().unwrap();
    let d = router.dispatch(Method::Get, "/plain");
    assert_eq!(d.target, Target::Route(0));
    assert!(d.captures.is_none());
}

#[test]
fn groups_that_did_not_participate_yield_no_captures() {
    let mut builder = RouterBuilder::new();
    builder.get(r"/n(o)?pe", 1u8);
    let router = builder.finalize().unwrap();
    let d = router.dispatch(Method::Get, "/npe");
    assert_eq!(d.target, Target::Route(0));
    assert!(d.captures.is_none());
}

#[test]
fn patterns_match_the_whole_path_only() {
    let mut builder = RouterBuilder::new();
    builder.get(r"/abc", 1u8);
    let router = builder.finalize().unwrap();
    assert_eq!(router.dispatch(Method::Get, "/abc").target, Target::Route(0));
    assert_eq!(router.dispatch(Method::Get, "/abc/def").target, Target::NotFound);
    assert_eq!(router.dispatch(Method::Get, "xx/abc").target, Target::NotFound);
    assert_eq!(router.dispatch(Method::Get, "/ab").target, Target::NotFound);
}

#[test]
fn convenience_methods_register_their_verbs() {
    let mut builder = RouterBuilder::new();
    builder.get(r"/r", 0u8);
    builder.post(r"/r", 1u8);
    builder.put(r"/r", 2u8);
    builder.patch(r"/r", 3u8);
    builder.delete(r"/r", 4u8);
    builder.options(r"/r", 5u8);
    let router = builder.finalize().unwrap();
    assert_eq!(router.dispatch(Method::Get, "/r").target, Target::Route(0));
    assert_eq!(router.dispatch(Method::Post, "/r").target, Target::Route(1));
    assert_eq!(router.dispatch(Method::Put, "/r").target, Target::Route(2));
    assert_eq!(router.dispatch(Method::Patch, "/r").target, Target::Route(3));
    assert_eq!(router.dispatch(Method::Delete, "/r").target, Target::Route(4));
    assert_eq!(router.dispatch(Method::Options, "/r").target, Target::Route(5));
    assert_eq!(router.dispatch(Method::Head, "/r").target, Target::MethodNotAllowed);
}
