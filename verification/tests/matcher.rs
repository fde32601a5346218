use route_core::path::{Error, Path};

fn compiled(pattern: &str) -> Path {
    match Path::parse(pattern) {
        Ok(p) => p,
        Err(_) => panic!("pattern should compile"),
    }
}

#[test]
fn literal_matches_only_itself() {
    let p = compiled("/a/b");
    assert!(p.is_match("/a/b"));
    assert!(!p.is_match("/a/b/c"));
    assert!(!p.is_match("/a"));
    assert!(!p.is_match("/a/c"));
    assert!(!p.is_match("/b/a"));
    assert!(!p.is_match("a/b"));
    assert!(!p.is_match(""));
}

#[test]
fn literal_match_is_case_sensitive() {
    let p = compiled("/Admin");
    assert!(p.is_match("/Admin"));
    assert!(!p.is_match("/admin"));
}

#[test]
fn param_matches_any_single_nonempty_segment() {
    let p = compiled("/users/:id");
    assert!(p.is_match("/users/42"));
    assert!(p.is_match("/users/abc"));
    assert!(!p.is_match("/users"));
    assert!(!p.is_match("/users/42/x"));
    assert!(!p.is_match("/users/"));
    assert!(!p.is_match("/other/42"));
}

#[test]
fn wildcard_matches_any_remaining_depth() {
    let p = compiled("/static/*");
    assert!(p.is_match("/static"));
    assert!(p.is_match("/static/a"));
    assert!(p.is_match("/static/a/b"));
    assert!(p.is_match("/static/"));
    assert!(!p.is_match("/other"));
    assert!(!p.is_match("/statics"));
}

#[test]
fn root_pattern_matches_root_only() {
    let p = compiled("/");
    assert!(p.is_match("/"));
    assert!(!p.is_match("/a"));
    assert!(!p.is_match(""));
}

#[test]
fn invalid_patterns_are_rejected() {
    assert!(matches!(Path::parse(""), Err(Error::InvalidPath)));
    assert!(matches!(Path::parse("a/b"), Err(Error::InvalidPath)));
    assert!(matches!(Path::parse("users"), Err(Error::InvalidPath)));
    assert!(matches!(Path::parse("/a//b"), Err(Error::InvalidPath)));
    assert!(matches!(Path::parse("//"), Err(Error::InvalidPath)));
    assert!(matches!(Path::parse("/a/"), Err(Error::InvalidPath)));
}

#[test]
fn misplaced_wildcard_is_rejected() {
    assert!(matches!(Path::parse("/a/*/b"), Err(Error::InvalidPath)));
    assert!(Path::parse("/a/*").is_ok());
}

#[test]
fn pattern_text_is_kept() {
    let p = compiled("/users/:id");
    assert_eq!(p.as_str(), "/users/:id");
}

#[test]
fn matching_is_deterministic() {
    let p = compiled("/users/:id");
    let first = p.is_match("/users/42");
    let second = p.is_match("/users/42");
    assert_eq!(first, second);
    assert!(first);
}

#[test]
fn root_wildcard_matches_everything_under_root() {
    let p = compiled("/*");
    assert!(p.is_match("/"));
    assert!(p.is_match("/a"));
    assert!(p.is_match("/a/b/c"));
    assert!(!p.is_match("a"));
    assert!(!p.is_match(""));
}

#[test]
fn param_segment_with_bare_colon_still_binds_one_segment() {
    let p = compiled("/x/:");
    assert!(p.is_match("/x/anything"));
    assert!(!p.is_match("/x"));
    assert!(!p.is_match("/x/a/b"));
}

#[test]
fn star_inside_longer_segment_is_literal() {
    let p = compiled("/a/*b");
    assert!(p.is_match("/a/*b"));
    assert!(!p.is_match("/a/c"));
    assert!(!p.is_match("/a/*b/c"));
}
