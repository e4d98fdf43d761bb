use pact_matching::collections::SortedMap;
use pact_matching::content_types::{detect_content_type_from_bytes, ContentType};
use pact_matching::json::Json;
use pact_matching::path_exp::{
    calc_path_weight, error_message, parse_path_exp, parse_path_tokens, JSONPath, PathError,
    PathToken,
};
use pact_matching::query::{
    build_query_string, decode_query, encode_query, parse_query_string, MultiMap,
};
use pact_matching::headers::trim;
use pact_matching::text::{
    chars_of, compare_text, decimal_string, is_letter, is_numeral, parse_digits_u64,
    parse_unsigned, string_of, to_lowercase, to_uppercase,
};

fn s(text: &str) -> String {
    text.to_string()
}

fn values(items: &[&str]) -> Vec<String> {
    items.iter().map(|v| v.to_string()).collect()
}

#[test]
fn chars_and_strings_convert_both_ways() {
    assert_eq!(chars_of("a€b"), vec!['a', '€', 'b']);
    assert_eq!(string_of(&vec!['x', 'é']), s("xé"));
    assert_eq!(chars_of(""), Vec::<char>::new());
}

#[test]
fn parse_unsigned_reads_what_the_standard_library_reads() {
    for text in ["12", "+5", "", "+", "1a", "007", "-1", " 1", "0", "99999999999999999999999999"] {
        assert_eq!(parse_unsigned(text), text.parse::<usize>().ok());
    }
    assert_eq!(parse_unsigned("12"), Some(12));
    assert_eq!(parse_unsigned("+5"), Some(5));
    assert_eq!(parse_unsigned("007"), Some(7));
    assert_eq!(parse_unsigned("1a"), None);
}

#[test]
fn parse_digits_u64_takes_digits_only() {
    assert_eq!(parse_digits_u64("18446744073709551615"), Some(u64::MAX));
    assert_eq!(parse_digits_u64("18446744073709551616"), None);
    assert_eq!(parse_digits_u64("+5"), None);
    assert_eq!(parse_digits_u64("200"), Some(200));
}

#[test]
fn decimal_string_writes_numbers() {
    assert_eq!(decimal_string(0), s("0"));
    assert_eq!(decimal_string(7), s("7"));
    assert_eq!(decimal_string(120), s("120"));
    assert_eq!(decimal_string(usize::MAX), usize::MAX.to_string());
}

#[test]
fn compare_text_orders_as_strings_order() {
    assert_eq!(compare_text("a", "b"), -1);
    assert_eq!(compare_text("b", "a"), 1);
    assert_eq!(compare_text("a", "a"), 0);
    assert_eq!(compare_text("a", "ab"), -1);
    assert_eq!(compare_text("", ""), 0);
    assert_eq!(compare_text("Z", "a"), -1);
    assert_eq!(compare_text("é", "z"), 1);
}

#[test]
fn weight_of_a_path_shorter_than_the_expression() {
    let path = JSONPath::new("$.a.b").unwrap();
    assert_eq!(path.calc_path_weight(&["$"]), (0, 3));
    assert_eq!(path.calc_path_weight(&["$", "a"]), (0, 3));
    assert_eq!(path.calc_path_weight(&[]), (0, 3));
    assert_eq!(JSONPath::empty().calc_path_weight(&[]), (1, 0));
}

#[test]
fn weight_is_the_product_of_the_scores() {
    assert_eq!(JSONPath::new("$.name").unwrap().calc_path_weight(&["$", "name"]), (4, 2));
    assert_eq!(JSONPath::new("$.name").unwrap().calc_path_weight(&["$", "other"]), (0, 2));
    assert_eq!(JSONPath::new("$.*").unwrap().calc_path_weight(&["$", "anything"]), (2, 2));
    assert_eq!(JSONPath::new("$[*]").unwrap().calc_path_weight(&["$", "0"]), (2, 2));
    assert_eq!(JSONPath::new("$[*]").unwrap().calc_path_weight(&["$", "name"]), (0, 2));
    assert_eq!(JSONPath::new("$.a[1].*").unwrap().calc_path_weight(&["$", "a", "1", "x", "y"]), (8, 4));
    assert_eq!(calc_path_weight("$.a", &["$", "a"]), (4, 2));
    assert_eq!(calc_path_weight("$.", &["$", "a"]), (0, 0));
}

#[test]
fn weight_is_capped_at_the_largest_number() {
    let mut text = s("$");
    let mut path = vec!["$"];
    for _ in 0..70 {
        text.push_str(".a");
        path.push("a");
    }
    let expression = JSONPath::new(&text).unwrap();
    assert_eq!(expression.calc_path_weight(&path), (usize::MAX, 71));
}

#[test]
fn parsing_the_text_of_an_expression_gives_its_tokens_again() {
    for text in ["", "$", "$.a", "a.b.c", "$.a['val@1.'].c", "$.a[1].c", "$.a[*].c", "$.*", "$.id:test"] {
        let first = JSONPath::new(text).unwrap();
        let second = JSONPath::new(first.orig_string()).unwrap();
        assert_eq!(first.tokens(), second.tokens());
        assert_eq!(first, second);
        assert_eq!(first.len(), first.tokens().len());
    }
}

#[test]
fn json_path_reports_what_is_wrong() {
    assert_eq!(
        JSONPath::new("$.abc!"),
        Err(s("\"!\" is not allowed in an identifier in path expression \"$.abc!\" at index 5"))
    );
    assert_eq!(
        JSONPath::new("!"),
        Err(s("Path expression \"!\" does not start with a root marker \"$\""))
    );
}

#[test]
fn index_that_is_too_large_is_an_error() {
    assert_eq!(
        parse_path_exp("$[99999999999999999999999999]"),
        Err(s("Index is out of range in path expression \"$[99999999999999999999999999]\" at index 2"))
    );
    assert_eq!(
        parse_path_tokens("$[99999999999999999999999999]"),
        Err(PathError::IndexOutOfRange { index: 2 })
    );
    assert_eq!(parse_path_exp("$[٣]"), Err(s("Index is out of range in path expression \"$[٣]\" at index 2")));
}

#[test]
fn identifiers_may_hold_letters_of_any_script() {
    assert_eq!(parse_path_exp("$.é"), Ok(vec![PathToken::Root, PathToken::Field(s("é"))]));
    assert_eq!(parse_path_exp("日本.x"), Ok(vec![PathToken::Root, PathToken::Field(s("日本")), PathToken::Field(s("x"))]));
    assert_eq!(
        parse_path_exp("$.a b"),
        Err(s("\" \" is not allowed in an identifier in path expression \"$.a b\" at index 3"))
    );
}

#[test]
fn unterminated_brackets_are_reported_at_the_last_byte() {
    assert_eq!(
        parse_path_exp("$.é['x'"),
        Err(s("Unterminated brackets in path expression \"$.é['x'\" at index 7"))
    );
    assert_eq!(
        error_message("$[1", PathError::UnterminatedBrackets { index: 2 }),
        s("Unterminated brackets in path expression \"$[1\" at index 2")
    );
}

#[test]
fn is_wildcard_looks_at_the_last_token() {
    assert!(JSONPath::new("$.a.*").unwrap().is_wildcard());
    assert!(!JSONPath::new("$.a[*]").unwrap().is_wildcard());
    assert!(!JSONPath::new("$.*.a").unwrap().is_wildcard());
    assert!(!JSONPath::empty().is_wildcard());
    assert_eq!(JSONPath::empty().orig_string(), "");
    assert_eq!(JSONPath::new("$.a").unwrap().duplicate(), JSONPath::new("$.a").unwrap());
    assert_eq!(JSONPath::new_unwrap("$.a[1]"), JSONPath::new("$.a[1]").unwrap());
    assert_eq!(
        JSONPath::new_unwrap("$.a[1]").tokens(),
        &vec![PathToken::Root, PathToken::Field(s("a")), PathToken::Index(1)]
    );
}

#[test]
fn decode_query_decodes_percent_and_plus() {
    assert_eq!(decode_query("a%20b+c"), Ok(s("a b c")));
    assert_eq!(decode_query("%41%6a%4A"), Ok(s("AjJ")));
    assert_eq!(decode_query("%zz"), Ok(s("%zz")));
    assert_eq!(decode_query("%4"), Ok(s("%4")));
    assert_eq!(decode_query("%"), Ok(s("%")));
    assert_eq!(decode_query(""), Ok(s("")));
    assert_eq!(decode_query("%C3%A9"), Ok(s("é")));
    assert_eq!(decode_query("100%"), Ok(s("100%")));
}

#[test]
fn decode_query_fails_on_bytes_that_are_no_text() {
    let error = decode_query("%ff").unwrap_err();
    assert!(error.starts_with("Failed to decode '%ff' to UTF-8 - "));
    assert!(error.len() > "Failed to decode '%ff' to UTF-8 - ".len());
    assert!(decode_query("é").is_err());
}

#[test]
fn encode_query_writes_what_is_not_plain_in_hexadecimal() {
    assert_eq!(encode_query("a b"), s("a+b"));
    assert_eq!(encode_query("a=b&c"), s("a%3db%26c"));
    assert_eq!(encode_query("A-z09"), s("A-z09"));
    assert_eq!(encode_query("é"), s("%e9"));
    assert_eq!(encode_query("€"), s("%20%ac"));
    assert_eq!(encode_query("\t"), s("%09"));
    assert_eq!(encode_query("Ā"), s("%01%00"));
    assert_eq!(encode_query(""), s(""));
}

#[test]
fn parse_query_string_collects_the_values_of_each_name() {
    assert_eq!(parse_query_string(""), None);
    let parsed = parse_query_string("b=2&a=1&a=3&c&d=x%20y&e=f=g").unwrap();
    let mut expected: MultiMap = SortedMap::new();
    expected.insert(s("a"), values(&["1", "3"]));
    expected.insert(s("b"), values(&["2"]));
    expected.insert(s("c"), values(&[""]));
    expected.insert(s("d"), values(&["x y"]));
    expected.insert(s("e"), values(&["f=g"]));
    assert_eq!(parsed, expected);
    assert_eq!(parsed.entries[0].0, "a");
    assert_eq!(parse_query_string("&&"), Some(SortedMap::new()));
    assert_eq!(parse_query_string("a=%ff").unwrap().get("a"), Some(&values(&["%ff"])));
}

#[test]
fn build_query_string_writes_names_in_their_order() {
    let mut query: MultiMap = SortedMap::new();
    query.insert(s("b"), values(&["2"]));
    query.insert(s("a"), values(&["1", "x y"]));
    query.insert(s("c"), values(&[]));
    assert_eq!(build_query_string(&query), s("a=1&a=x+y&b=2"));
    assert_eq!(build_query_string(&SortedMap::new()), s(""));
}

#[test]
fn sorted_map_keeps_one_value_for_each_key() {
    let mut map: SortedMap<String> = SortedMap::new();
    assert!(map.is_empty());
    map.insert(s("b"), s("1"));
    map.insert(s("a"), s("2"));
    map.insert(s("b"), s("3"));
    assert_eq!(map.len(), 2);
    assert_eq!(map.get("b"), Some(&s("3")));
    assert_eq!(map.get("a"), Some(&s("2")));
    assert_eq!(map.get("c"), None);
    assert!(map.contains_key("a"));
    assert_eq!(map.find("b"), Some(1));
    assert_eq!(map.entries, vec![(s("a"), s("2")), (s("b"), s("3"))]);
}

#[test]
fn json_is_read_and_written_by_the_json_library() {
    let value = Json::parse("{\"b\": 1, \"a\": [true, null, \"x\", 1.5, -2]}").unwrap();
    assert_eq!(value.to_text(), s("{\"a\":[true,null,\"x\",1.5,-2],\"b\":1}"));
    assert_eq!(value.get("b"), Some(&Json::Number(s("1"))));
    assert_eq!(value.get("b").unwrap().as_u64(), Some(1));
    assert_eq!(value.get("a").unwrap().get("b"), None);
    assert_eq!(value.get("c"), None);
    assert_eq!(Json::parse("nope"), None);
    assert_eq!(Json::parse("\"x\"").unwrap().to_plain_text(), s("x"));
    assert_eq!(Json::parse("\"x\"").unwrap().to_text(), s("\"x\""));
    assert_eq!(Json::parse("[1]").unwrap().to_plain_text(), s("[1]"));
    assert_eq!(Json::number(42).to_text(), s("42"));
    assert_eq!(Json::string("a\"b").to_text(), s("\"a\\\"b\""));
    assert_eq!(Json::Number(s("1.5")).as_usize(), None);
    assert_eq!(Json::Number(s("15")).as_usize(), Some(15));
}

#[test]
fn content_type_is_read_from_its_text() {
    let parsed = ContentType::parse("application/vnd.api+json; charset=UTF-8").unwrap();
    assert_eq!(parsed.main_type, "application");
    assert_eq!(parsed.sub_type, "vnd.api");
    assert_eq!(parsed.suffix, Some(s("json")));
    assert_eq!(parsed.parameters, " charset=UTF-8");
    assert!(parsed.is_json());
    assert!(parsed.is_text());
    assert!(!parsed.is_xml());
    assert!(!parsed.is_binary());
    assert_eq!(parsed.to_text(), s("application/vnd.api+json; charset=UTF-8"));
    let plain = ContentType::parse("TEXT/Plain").unwrap();
    assert_eq!(plain, ContentType::of("text", "plain"));
    assert!(plain.is_text());
    assert!(!plain.is_json());
    assert_eq!(ContentType::parse("nonsense"), None);
    assert_eq!(ContentType::parse("/x"), None);
    assert_eq!(ContentType::parse("x/"), None);
    assert_eq!(ContentType::parse("a b/c"), None);
    assert!(ContentType::parse("image/png").unwrap().is_binary());
    assert!(ContentType::parse("text/xml").unwrap().is_xml());
    assert!(ContentType::parse("application/jsonx").unwrap().is_json());
    assert!(ContentType::parse("application/graphql").unwrap().is_json());
    assert!(ContentType::unknown().is_unknown());
    assert_eq!(ContentType::unknown().to_text(), s("*/*"));
}

#[test]
fn content_type_is_found_from_the_first_bytes() {
    assert_eq!(
        detect_content_type_from_bytes(&b"  {\"a\": 1}".to_vec()),
        Some(ContentType::of("application", "json"))
    );
    assert_eq!(
        detect_content_type_from_bytes(&b"[1, 2]".to_vec()),
        Some(ContentType::of("application", "json"))
    );
    assert_eq!(
        detect_content_type_from_bytes(&b"\n<?xml version=\"1.0\"?><a/>".to_vec()),
        Some(ContentType::of("application", "xml"))
    );
    assert_eq!(
        detect_content_type_from_bytes(&b"hello world".to_vec()),
        Some(ContentType::of("text", "plain"))
    );
    assert_eq!(detect_content_type_from_bytes(&vec![0xff, 0x00, 0x01]), None);
    assert_eq!(detect_content_type_from_bytes(&vec![]), None);
    let mut long = vec![b'a'; 32];
    long.push(0xff);
    assert_eq!(detect_content_type_from_bytes(&long), Some(ContentType::of("text", "plain")));
}

#[test]
fn texts_of_ascii_change_case_letter_by_letter() {
    assert_eq!(to_uppercase("get /a-b_1"), s("GET /A-B_1"));
    assert_eq!(to_lowercase("Content-TYPE"), s("content-type"));
    assert_eq!(to_uppercase(""), s(""));
    assert_eq!(to_uppercase("stra\u{df}e"), s("STRASSE"));
    assert_eq!(to_lowercase("\u{c4}B"), s("\u{e4}b"));
}

#[test]
fn white_space_is_taken_from_both_ends_of_a_text() {
    assert_eq!(trim(" \t a b \r\n"), s("a b"));
    assert_eq!(trim("a"), s("a"));
    assert_eq!(trim(" \x0b\x0c "), s(""));
    assert_eq!(trim(""), s(""));
    assert_eq!(trim("\x1fa\x1f"), s("\x1fa\x1f"));
    assert_eq!(trim("\u{a0}\u{e4}\u{2003}"), s("\u{e4}"));
}

#[test]
fn letters_and_numerals_are_told_from_other_characters() {
    assert!(is_letter('a') && is_letter('Z') && is_letter('\u{e4}'));
    assert!(!is_letter('1') && !is_letter('_') && !is_letter('\u{d7}'));
    assert!(is_numeral('0') && is_numeral('9') && is_numeral('\u{0663}'));
    assert!(!is_numeral('a') && !is_numeral('-'));
}
