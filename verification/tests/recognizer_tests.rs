use edgelet_core::recognizer::{
    parse_pattern, split_path, Method, Recognition, Route, RouteError, Router, Segment,
};

fn route(method: Method, pattern: &str, handler: usize) -> Route {
    Route { method, segments: parse_pattern(pattern).unwrap(), handler }
}

#[test]
fn split_path_drops_one_leading_slash() {
    let parts = split_path("/modules/foo/sign");
    assert_eq!(parts, vec!["modules".to_string(), "foo".to_string(), "sign".to_string()]);
}

#[test]
fn split_path_keeps_empty_parts() {
    let parts = split_path("/a//b/");
    assert_eq!(
        parts,
        vec!["a".to_string(), "".to_string(), "b".to_string(), "".to_string()]
    );
}

#[test]
fn split_path_accepts_a_path_without_a_leading_slash() {
    assert_eq!(split_path("modules/foo"), vec!["modules".to_string(), "foo".to_string()]);
}

#[test]
fn split_path_of_empty_string_is_one_empty_part() {
    assert_eq!(split_path(""), vec!["".to_string()]);
    assert_eq!(split_path("/"), vec!["".to_string()]);
}

#[test]
fn parse_pattern_reads_literals_and_parameters() {
    let segs = parse_pattern("/modules/{name}/sign").unwrap();
    assert_eq!(segs.len(), 3);
    assert!(matches!(&segs[0], Segment::Literal(l) if l == "modules"));
    assert!(matches!(&segs[1], Segment::Param(p) if p == "name"));
    assert!(matches!(&segs[2], Segment::Literal(l) if l == "sign"));
}

#[test]
fn parse_pattern_rejects_empty_segments() {
    assert!(matches!(parse_pattern(""), Err(RouteError::InvalidPattern)));
    assert!(matches!(parse_pattern("/"), Err(RouteError::InvalidPattern)));
    assert!(matches!(parse_pattern("/a//b"), Err(RouteError::InvalidPattern)));
    assert!(matches!(parse_pattern("/a/b/"), Err(RouteError::InvalidPattern)));
}

#[test]
fn parse_pattern_rejects_empty_parameter_names() {
    assert!(matches!(parse_pattern("/a/{}"), Err(RouteError::InvalidPattern)));
}

#[test]
fn registering_two_equally_specific_parameter_routes_conflicts() {
    let mut router = Router::new();
    assert!(router.add_route(route(Method::Get, "/modules/{a}", 0)).is_ok());
    assert_eq!(
        router.add_route(route(Method::Get, "/modules/{b}", 1)),
        Err(RouteError::ConflictingRoute)
    );
}

#[test]
fn registering_the_same_pattern_twice_conflicts() {
    let mut router = Router::new();
    assert!(router.add_route(route(Method::Get, "/modules/special", 0)).is_ok());
    assert_eq!(
        router.add_route(route(Method::Get, "/modules/special", 1)),
        Err(RouteError::ConflictingRoute)
    );
}

#[test]
fn same_pattern_under_another_method_does_not_conflict() {
    let mut router = Router::new();
    assert!(router.add_route(route(Method::Get, "/modules/{a}", 0)).is_ok());
    assert!(router.add_route(route(Method::Post, "/modules/{a}", 1)).is_ok());
}

#[test]
fn literal_and_parameter_routes_of_different_specificity_coexist() {
    let mut router = Router::new();
    assert!(router.add_route(route(Method::Get, "/modules/{name}", 0)).is_ok());
    assert!(router.add_route(route(Method::Get, "/modules/special", 1)).is_ok());
}

#[test]
fn recognize_matches_and_captures_the_parameter() {
    let mut router = Router::new();
    router.add_route(route(Method::Get, "/modules/{name}/sign", 0)).unwrap();
    router.add_route(route(Method::Get, "/modules/{name}/cert", 1)).unwrap();
    match router.recognize(Method::Get, &split_path("/modules/foo/sign")) {
        Recognition::Match(m) => {
            assert_eq!(m.handler, 0);
            assert_eq!(m.params.len(), 1);
            assert_eq!(m.params[0].0, "name");
            assert_eq!(m.params[0].1, "foo");
        },
        _ => panic!("expected a match"),
    }
}

#[test]
fn recognize_reports_not_found_for_an_unknown_path() {
    let mut router = Router::new();
    router.add_route(route(Method::Get, "/modules/{name}/sign", 0)).unwrap();
    router.add_route(route(Method::Get, "/modules/{name}/cert", 1)).unwrap();
    assert!(matches!(
        router.recognize(Method::Get, &split_path("/modules/foo/unknown")),
        Recognition::NotFound
    ));
}

#[test]
fn recognize_prefers_the_literal_route() {
    let mut router = Router::new();
    router.add_route(route(Method::Get, "/modules/{name}", 0)).unwrap();
    router.add_route(route(Method::Get, "/modules/special", 1)).unwrap();
    match router.recognize(Method::Get, &split_path("/modules/special")) {
        Recognition::Match(m) => {
            assert_eq!(m.handler, 1);
            assert_eq!(m.params.len(), 0);
        },
        _ => panic!("expected a match"),
    }
    match router.recognize(Method::Get, &split_path("/modules/other")) {
        Recognition::Match(m) => {
            assert_eq!(m.handler, 0);
            assert_eq!(m.params, vec![("name".to_string(), "other".to_string())]);
        },
        _ => panic!("expected a match"),
    }
}

#[test]
fn recognize_distinguishes_a_wrong_method_from_an_unknown_path() {
    let mut router = Router::new();
    router.add_route(route(Method::Get, "/modules/{name}", 0)).unwrap();
    assert!(matches!(
        router.recognize(Method::Post, &split_path("/modules/foo")),
        Recognition::MethodNotAllowed
    ));
    assert!(matches!(
        router.recognize(Method::Post, &split_path("/elsewhere")),
        Recognition::NotFound
    ));
}

#[test]
fn a_parameter_never_matches_an_empty_segment() {
    let mut router = Router::new();
    router.add_route(route(Method::Get, "/a/{x}", 0)).unwrap();
    assert!(matches!(
        router.recognize(Method::Get, &split_path("/a//")),
        Recognition::NotFound
    ));
}

#[test]
fn captures_come_in_pattern_order_one_per_parameter() {
    let mut router = Router::new();
    router.add_route(route(Method::Put, "/a/{x}/b/{y}", 9)).unwrap();
    match router.recognize(Method::Put, &split_path("/a/1/b/2")) {
        Recognition::Match(m) => {
            assert_eq!(
                m.params,
                vec![
                    ("x".to_string(), "1".to_string()),
                    ("y".to_string(), "2".to_string())
                ]
            );
            assert_eq!(m.handler, 9);
        },
        _ => panic!("expected a match"),
    }
}
