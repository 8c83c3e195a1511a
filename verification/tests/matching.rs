use mock_server::matching::find_route;
use mock_server::matching::find_route_index;
use mock_server::matching::matches_route;
use mock_server::matching::split_path;
use mock_server::route::MockRoute;

fn route(method: &str, path: &str, status: u16) -> MockRoute {
    MockRoute {
        id: format!("{}-{}", method, path),
        method: method.to_string(),
        path: path.to_string(),
        status,
        body: String::new(),
        headers: None,
        auth_type: None,
        auth_config: None,
    }
}

fn split(path: &str) -> Vec<String> {
    let chars: Vec<char> = path.chars().collect();
    split_path(&chars).into_iter().map(|part| part.into_iter().collect()).collect()
}

#[test]
fn first_matching_route_wins() {
    let routes = vec![route("GET", "/a/:id", 200), route("GET", "/a/1", 201)];
    let found = find_route(&routes, "GET", "/a/1").expect("a route matches");
    assert_eq!(found.status, 200);
    assert_eq!(find_route_index(&routes, "GET", "/a/1"), Some(0));
}

#[test]
fn literal_route_before_wildcard_is_reached() {
    let routes = vec![route("GET", "/a/1", 201), route("GET", "/a/:id", 200)];
    assert_eq!(find_route(&routes, "GET", "/a/1").map(|r| r.status), Some(201));
    assert_eq!(find_route(&routes, "GET", "/a/2").map(|r| r.status), Some(200));
    assert_eq!(find_route_index(&routes, "GET", "/a/2"), Some(1));
}

#[test]
fn segment_count_mismatch_never_matches() {
    let r = route("GET", "/a/:id", 200);
    assert!(!matches_route(&r, "GET", "/a/1/2"));
    assert!(!matches_route(&r, "GET", "/a"));
    assert!(matches_route(&r, "GET", "/a/1"));
    let routes = vec![r];
    assert!(find_route(&routes, "GET", "/a/1/2").is_none());
    assert!(find_route(&routes, "GET", "/a").is_none());
}

#[test]
fn method_is_compared_without_case() {
    let r = route("get", "/ping", 200);
    assert!(matches_route(&r, "GET", "/ping"));
    assert!(matches_route(&r, "Get", "/ping"));
    assert!(!matches_route(&r, "POST", "/ping"));
    assert!(!matches_route(&r, "GETS", "/ping"));
}

#[test]
fn method_case_folding_is_ascii_only() {
    let r = route("\u{e9}", "/ping", 200);
    assert!(matches_route(&r, "\u{e9}", "/ping"));
    assert!(!matches_route(&r, "\u{c9}", "/ping"));
}

#[test]
fn path_literals_are_case_sensitive() {
    let r = route("GET", "/Users", 200);
    assert!(matches_route(&r, "GET", "/Users"));
    assert!(!matches_route(&r, "GET", "/users"));
}

#[test]
fn slashes_are_normalized_away() {
    let r = route("GET", "a//b/", 200);
    assert!(matches_route(&r, "GET", "/a/b"));
    assert!(matches_route(&r, "GET", "///a///b///"));
    assert!(!matches_route(&r, "GET", "/ab"));
}

#[test]
fn root_matches_only_paths_without_segments() {
    let r = route("GET", "/", 200);
    assert!(matches_route(&r, "GET", "/"));
    assert!(matches_route(&r, "GET", ""));
    assert!(matches_route(&r, "GET", "//"));
    assert!(!matches_route(&r, "GET", "/a"));
}

#[test]
fn parameter_stands_for_any_one_segment() {
    let r = route("GET", "/users/:id/posts/:post", 200);
    assert!(matches_route(&r, "GET", "/users/42/posts/7"));
    assert!(matches_route(&r, "GET", "/users/:id/posts/x"));
    assert!(!matches_route(&r, "GET", "/users/42/comments/7"));
    assert!(!matches_route(&r, "GET", "/users/42/posts"));
}

#[test]
fn bare_colon_is_a_parameter() {
    let r = route("GET", "/:", 200);
    assert!(matches_route(&r, "GET", "/anything"));
}

#[test]
fn colon_inside_a_segment_is_literal() {
    let r = route("GET", "/a:b", 200);
    assert!(matches_route(&r, "GET", "/a:b"));
    assert!(!matches_route(&r, "GET", "/axb"));
}

#[test]
fn empty_table_matches_nothing() {
    let routes: Vec<MockRoute> = Vec::new();
    assert!(find_route(&routes, "GET", "/").is_none());
    assert_eq!(find_route_index(&routes, "GET", "/"), None);
}

#[test]
fn later_route_answers_when_earlier_ones_do_not_match() {
    let routes = vec![
        route("POST", "/a", 201),
        route("GET", "/b", 202),
        route("GET", "/a", 203),
        route("GET", "/a", 204),
    ];
    assert_eq!(find_route_index(&routes, "GET", "/a"), Some(2));
    assert_eq!(find_route(&routes, "get", "/a").map(|r| r.status), Some(203));
}

#[test]
fn split_path_gives_the_segments_in_order() {
    assert_eq!(split("/users/:id/posts"), vec!["users", ":id", "posts"]);
    assert_eq!(split("users"), vec!["users"]);
    assert_eq!(split("//a///b/"), vec!["a", "b"]);
    assert_eq!(split(""), Vec::<String>::new());
    assert_eq!(split("///"), Vec::<String>::new());
    assert_eq!(split("/caf\u{e9}/x"), vec!["caf\u{e9}", "x"]);
}
