use hyperlane::error::RouteError;
use hyperlane::route::{parse_pattern, split_path, RouteMatcher, Router};
use hyperlane::server::Server;

fn params(v: &[(&str, &str)]) -> Vec<(String, String)> {
    v.iter().map(|(k, x)| (k.to_string(), x.to_string())).collect()
}

#[test]
fn exact_route_wins_over_pattern() {
    let mut r = Router::new();
    r.register_pattern("/user/:id", 1).unwrap();
    r.register_exact("/user/me".to_string(), 2);
    assert_eq!(r.resolve("/user/me"), Some((2, vec![])));
    assert_eq!(r.resolve("/user/7"), Some((1, params(&[("id", "7")]))));
}

#[test]
fn exact_registration_replaces_handler() {
    let mut r = Router::new();
    r.register_exact("/a".to_string(), 1);
    r.register_exact("/a".to_string(), 5);
    assert_eq!(r.resolve("/a"), Some((5, vec![])));
    assert_eq!(r.table.entries.len(), 1);
}

#[test]
fn duplicate_pattern_is_rejected_and_first_kept() {
    let mut r = Router::new();
    assert!(r.register_pattern("/user/:id", 1).is_ok());
    let err = r.register_pattern("/user/:id", 2);
    match err {
        Err(RouteError::DuplicatePattern(p)) => assert_eq!(p, "/user/:id"),
        Ok(()) => panic!("duplicate accepted"),
    }
    assert_eq!(r.resolve("/user/42"), Some((1, params(&[("id", "42")]))));
}

#[test]
fn overlapping_patterns_are_rejected() {
    let mut m = RouteMatcher::new();
    m.add("/user/:id", 1).unwrap();
    assert!(m.add("/user/:name", 2).is_err());
    assert!(m.add("/user/me", 3).is_err());
    assert!(m.add("/user/:id/posts", 4).is_ok());
    assert!(m.add("/team/:id", 5).is_ok());
    assert_eq!(m.entries.len(), 3);
}

#[test]
fn pattern_captures_parameter() {
    let mut r = Router::new();
    r.register_pattern("/user/:id", 9).unwrap();
    assert_eq!(r.resolve("/user/42"), Some((9, params(&[("id", "42")]))));
    assert_eq!(r.resolve("/user/"), None);
    assert_eq!(r.resolve("/user"), None);
    assert_eq!(r.resolve("/user/42/x"), None);
}

#[test]
fn several_parameters_in_order() {
    let mut r = Router::new();
    r.register_pattern("/a/:x/b/:y", 3).unwrap();
    assert_eq!(
        r.resolve("/a/1/b/2"),
        Some((3, params(&[("x", "1"), ("y", "2")])))
    );
    assert_eq!(r.resolve("/a/1/c/2"), None);
}

#[test]
fn unknown_path_resolves_to_none() {
    let r = Router::new();
    assert_eq!(r.resolve("/"), None);
}

#[test]
fn split_path_segments() {
    assert_eq!(split_path("/user/42"), vec!["user".to_string(), "42".to_string()]);
    assert_eq!(split_path("/user/"), vec!["user".to_string(), "".to_string()]);
    assert_eq!(split_path("/"), vec!["".to_string()]);
    assert_eq!(split_path("a/b"), vec!["a".to_string(), "b".to_string()]);
    assert_eq!(parse_pattern("/user/:id").len(), 2);
}

#[test]
fn server_route_registers_exact_and_pattern() {
    let mut s = Server::new();
    s.route("/", 0).unwrap();
    s.route("/hello", 1).unwrap();
    s.route("/user/:id", 2).unwrap();
    assert!(s.route("/hello", 3).is_ok());
    assert_eq!(s.router.resolve("/hello"), Some((3, vec![])));
    assert_eq!(s.router.resolve("/user/5"), Some((2, params(&[("id", "5")]))));
    assert_eq!(s.router.resolve("/"), Some((0, vec![])));
}

#[test]
fn route_error_message() {
    let e = RouteError::DuplicatePattern("/x".to_string());
    assert_eq!(e.message(), "Route pattern already exists: /x");
}

#[test]
fn server_route_twice_keeps_first_handler() {
    let mut s = Server::new();
    s.route("/user/:id", 1).unwrap();
    match s.route("/user/:id", 2) {
        Err(e) => assert_eq!(e.message(), "Route pattern already exists: /user/:id"),
        Ok(()) => panic!("duplicate accepted"),
    }
    assert_eq!(s.router.resolve("/user/7"), Some((1, params(&[("id", "7")]))));
    assert_eq!(s.router.matcher.entries.len(), 1);
}

#[test]
fn server_literal_route_beside_pattern() {
    let mut s = Server::new();
    s.route("/user/:id", 1).unwrap();
    assert!(s.route("/user/42", 2).is_ok());
    assert_eq!(s.router.resolve("/user/42"), Some((2, vec![])));
    assert_eq!(s.router.resolve("/user/7"), Some((1, params(&[("id", "7")]))));
    assert_eq!(s.router.matcher.entries.len(), 1);
    assert_eq!(s.router.table.entries.len(), 1);
}
