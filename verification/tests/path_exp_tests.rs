use pact_matching::path_exp::{matches_token, parse_path_exp, JSONPath, PathToken};


fn s(text: &str) -> String {
    text.to_string()
}

fn weight(expression: &'static str, path: &[&str]) -> (usize, usize) {
    JSONPath::new(expression).unwrap().calc_path_weight(path)
}

#[test]
fn parse_path_exp_handles_empty_string() {
  assert_eq!(parse_path_exp(""), Ok(Vec::<PathToken>::new()));
}

#[test]
fn parse_path_exp_handles_root() {
  assert_eq!(parse_path_exp("$"), Ok(vec![PathToken::Root]));
}

#[test]
fn parse_path_exp_handles_missing_root() {
  assert_eq!(parse_path_exp("adsjhaskjdh"), Ok(vec![PathToken::Root, PathToken::Field(s("adsjhaskjdh"))]));
}

#[test]
fn parse_path_exp_handles_missing_path() {
  assert_eq!(parse_path_exp("$adsjhaskjdh"), Err(s("Expected a \".\" or \"[\" instead of \"a\" in path expression \"$adsjhaskjdh\" at index 1")));
}

#[test]
fn parse_path_exp_handles_missing_path_name() {
  assert_eq!(parse_path_exp("$."), Err(s("Expected a path after \".\" in path expression \"$.\" at index 1")));
  assert_eq!(parse_path_exp("$.a.b.c."), Err(s("Expected a path after \".\" in path expression \"$.a.b.c.\" at index 7")));
}

#[test]
fn parse_path_exp_handles_invalid_identifiers() {
  assert_eq!(parse_path_exp("$.abc!"), Err(s("\"!\" is not allowed in an identifier in path expression \"$.abc!\" at index 5")));
  assert_eq!(parse_path_exp("$.a.b.c.}"), Err(s("Expected either a \"*\" or path identifier in path expression \"$.a.b.c.}\" at index 8")));
}

#[test]
fn parse_path_exp_with_simple_identifiers() {
  assert_eq!(parse_path_exp("$.a"), Ok(vec![PathToken::Root, PathToken::Field(s("a"))]));
  assert_eq!(parse_path_exp("$.a.b.c"), Ok(vec![PathToken::Root, PathToken::Field(s("a")), PathToken::Field(s("b")),
                       PathToken::Field(s("c"))]));
  assert_eq!(parse_path_exp("a.b.c"), Ok(vec![PathToken::Root, PathToken::Field(s("a")), PathToken::Field(s("b")),
                       PathToken::Field(s("c"))]));
}

#[test]
fn parse_path_exp_handles_underscores_and_dashes() {
  assert_eq!(parse_path_exp("$.user_id.user-id"), Ok(vec![PathToken::Root, PathToken::Field(s("user_id")),
                       PathToken::Field(s("user-id"))]));
  assert_eq!(parse_path_exp("$._id"), Ok(vec![PathToken::Root, PathToken::Field(s("_id"))]));
  assert_eq!(parse_path_exp("$.id:test"), Ok(vec![PathToken::Root, PathToken::Field(s("id:test"))]));
}

#[test]
fn parse_path_exp_handles_xml_names() {
  assert_eq!(parse_path_exp("$.foo.@val"), Ok(vec![PathToken::Root, PathToken::Field(s("foo")),
                       PathToken::Field(s("@val"))]));
  assert_eq!(parse_path_exp("$.foo.#text"), Ok(vec![PathToken::Root, PathToken::Field(s("foo")),
                       PathToken::Field(s("#text"))]));
  assert_eq!(parse_path_exp("$.urn:ns:foo.urn:ns:something.#text"), Ok(vec![PathToken::Root, PathToken::Field(s("urn:ns:foo")),
                       PathToken::Field(s("urn:ns:something")), PathToken::Field(s("#text"))]));
}

#[test]
fn parse_path_exp_with_star_instead_of_identifiers() {
  assert_eq!(parse_path_exp("$.*"), Ok(vec![PathToken::Root, PathToken::Star]));
  assert_eq!(parse_path_exp("$.a.*.c"), Ok(vec![PathToken::Root, PathToken::Field(s("a")), PathToken::Star,
                       PathToken::Field(s("c"))]));
}

#[test]
fn parse_path_exp_with_bracket_notation() {
  assert_eq!(parse_path_exp("$['val1']"), Ok(vec![PathToken::Root, PathToken::Field(s("val1"))]));
  assert_eq!(parse_path_exp("$.a['val@1.'].c"), Ok(vec![PathToken::Root, PathToken::Field(s("a")), PathToken::Field(s("val@1.")),
                       PathToken::Field(s("c"))]));
  assert_eq!(parse_path_exp("$.a[1].c"), Ok(vec![PathToken::Root, PathToken::Field(s("a")), PathToken::Index(1),
                       PathToken::Field(s("c"))]));
  assert_eq!(parse_path_exp("$.a[*].c"), Ok(vec![PathToken::Root, PathToken::Field(s("a")), PathToken::StarIndex,
                       PathToken::Field(s("c"))]));
}

#[test]
fn parse_path_exp_with_invalid_bracket_notation() {
  assert_eq!(parse_path_exp("$["), Err(s("Expected a \"'\" (single qoute) or a digit in path expression \"$[\" after index 1")));
  assert_eq!(parse_path_exp("$['"), Err(s("Unterminated string in path expression \"$['\" at index 2")));
  assert_eq!(parse_path_exp("$['Unterminated string"), Err(s("Unterminated string in path expression \"$['Unterminated string\" at index 21")));
  assert_eq!(parse_path_exp("$['']"), Err(s("Empty strings are not allowed in path expression \"$['']\" at index 3")));
  assert_eq!(parse_path_exp("$['test'.b.c"), Err(s("Unterminated brackets, found \".\" instead of \"]\" in path expression \"$['test'.b.c\" at index 8")));
  assert_eq!(parse_path_exp("$['test'"), Err(s("Unterminated brackets in path expression \"$['test'\" at index 7")));
  assert_eq!(parse_path_exp("$['test']b.c"), Err(s("Expected a \".\" or \"[\" instead of \"b\" in path expression \"$[\'test\']b.c\" at index 9")));
}

#[test]
fn parse_path_exp_with_invalid_bracket_index_notation() {
  assert_eq!(parse_path_exp("$[dhghh]"), Err(s("Indexes can only consist of numbers or a \"*\", found \"d\" instead in path expression \"$[dhghh]\" at index 2")));
  assert_eq!(parse_path_exp("$[12abc]"), Err(s("Indexes can only consist of numbers or a \"*\", found \"a\" instead in path expression \"$[12abc]\" at index 4")));
  assert_eq!(parse_path_exp("$[]"), Err(s("Empty bracket expressions are not allowed in path expression \"$[]\" at index 2")));
  assert_eq!(parse_path_exp("$[-1]"), Err(s("Indexes can only consist of numbers or a \"*\", found \"-\" instead in path expression \"$[-1]\" at index 2")));
}

#[test]
fn matches_token_test_with_root() {
  assert_eq!(matches_token("$", &PathToken::Root), 2);
  assert_eq!(matches_token("path", &PathToken::Root), 0);
  assert_eq!(matches_token("*", &PathToken::Root), 0);
}

#[test]
fn matches_token_test_with_field() {
  assert_eq!(matches_token("$", &PathToken::Field(s("path"))), 0);
  assert_eq!(matches_token("path", &PathToken::Field(s("path"))), 2);
}

#[test]
fn matches_token_test_with_index() {
  assert_eq!(matches_token("$", &PathToken::Index(2)), 0);
  assert_eq!(matches_token("path", &PathToken::Index(2)), 0);
  assert_eq!(matches_token("*", &PathToken::Index(2)), 0);
  assert_eq!(matches_token("1", &PathToken::Index(2)), 0);
  assert_eq!(matches_token("2", &PathToken::Index(2)), 2);
}

#[test]
fn matches_token_test_with_index_wildcard() {
  assert_eq!(matches_token("$", &PathToken::StarIndex), 0);
  assert_eq!(matches_token("path", &PathToken::StarIndex), 0);
  assert_eq!(matches_token("*", &PathToken::StarIndex), 0);
  assert_eq!(matches_token("1", &PathToken::StarIndex), 1);
}

#[test]
fn matches_token_test_with_wildcard() {
  assert_eq!(matches_token("$", &PathToken::Star), 1);
  assert_eq!(matches_token("path", &PathToken::Star), 1);
  assert_eq!(matches_token("*", &PathToken::Star), 1);
  assert_eq!(matches_token("1", &PathToken::Star), 1);
}

#[test]
fn matches_path_matches_root_path_element() {
  assert!(weight("$", &["$"]).0 > 0);
  assert!(!(weight("$", &[]).0 > 0));
}

#[test]
fn matches_path_matches_field_name() {
  assert!(weight("$.name", &["$", "name"]).0 > 0);
  assert!(weight("$['name']", &["$", "name"]).0 > 0);
  assert!(weight("$.name.other", &["$", "name", "other"]).0 > 0);
  assert!(weight("$['name'].other", &["$", "name", "other"]).0 > 0);
  assert!(!(weight("$.name", &["$", "other"]).0 > 0));
  assert!(weight("$.name", &["$", "name", "other"]).0 > 0);
  assert!(!(weight("$.other", &["$", "name", "other"]).0 > 0));
  assert!(!(weight("$.name.other", &["$", "name"]).0 > 0));
}

#[test]
fn matches_path_matches_array_indices() {
  assert!(weight("$[0]", &["$", "0"]).0 > 0);
  assert!(weight("$.name[1]", &["$", "name", "1"]).0 > 0);
  assert!(!(weight("$.name", &["$", "0"]).0 > 0));
  assert!(!(weight("$.name[1]", &["$", "name", "0"]).0 > 0));
  assert!(!(weight("$[1].name", &["$", "name", "1"]).0 > 0));
}

#[test]
fn matches_path_matches_with_wildcard() {
  assert!(weight("$[*]", &["$", "0"]).0 > 0);
  assert!(weight("$.*", &["$", "name"]).0 > 0);
  assert!(weight("$.*.name", &["$", "some", "name"]).0 > 0);
  assert!(weight("$.name[*]", &["$", "name", "0"]).0 > 0);
  assert!(weight("$.name[*].name", &["$", "name", "1", "name"]).0 > 0);
  assert!(!(weight("$[*]", &["$", "name"]).0 > 0));
}

#[test]
fn bare_identifier_may_start_with_any_identifier_character() {
    assert_eq!(
        parse_path_exp("_id.a"),
        Ok(vec![PathToken::Root, PathToken::Field(s("_id")), PathToken::Field(s("a"))])
    );
    assert_eq!(parse_path_exp("-x"), Ok(vec![PathToken::Root, PathToken::Field(s("-x"))]));
    assert_eq!(parse_path_exp(":x[1]"), Ok(vec![PathToken::Root, PathToken::Field(s(":x")), PathToken::Index(1)]));
    assert_eq!(parse_path_exp("#"), Ok(vec![PathToken::Root, PathToken::Field(s("#"))]));
    assert_eq!(parse_path_exp("@type.*"), Ok(vec![PathToken::Root, PathToken::Field(s("@type")), PathToken::Star]));
    assert_eq!(parse_path_exp("9a"), Ok(vec![PathToken::Root, PathToken::Field(s("9a"))]));
    assert_eq!(
        parse_path_exp("!a"),
        Err(s("Path expression \"!a\" does not start with a root marker \"$\""))
    );
    assert_eq!(
        parse_path_exp(".a"),
        Err(s("Path expression \".a\" does not start with a root marker \"$\""))
    );
}

#[test]
fn fixed_text_is_checked_before_it_is_taken_as_a_path() {
    let path = JSONPath::new_checked("$.a['b'][2]").unwrap();
    assert_eq!(path.orig_string(), "$.a['b'][2]");
    assert_eq!(path.len(), 4);
    assert_eq!(JSONPath::new_unwrap("$.a['b'][2]"), path);
    assert!(JSONPath::new_checked("$.a[").is_none());
    assert!(JSONPath::new_checked("?").is_none());
    assert_eq!(JSONPath::new_checked("").unwrap().len(), 0);
}

#[test]
fn letters_outside_ascii_are_identifier_characters() {
    assert_eq!(
        parse_path_exp("$.gr\u{f6}\u{df}e"),
        Ok(vec![PathToken::Root, PathToken::Field(s("gr\u{f6}\u{df}e"))])
    );
    assert_eq!(
        parse_path_exp("$.a\u{d7}"),
        Err(s("\"\u{d7}\" is not allowed in an identifier in path expression \"$.a\u{d7}\" at index 3"))
    );
}
