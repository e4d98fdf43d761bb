use pact_matching::bodies::OptionalBody;
use pact_matching::collections::SortedMap;
use pact_matching::content_types::ContentType;
use pact_matching::embedded::build_generators;
use pact_matching::generators::{
    generators_from_json, generators_to_json, select_best_generator, Generator,
};
use pact_matching::headers::{
    add_header, body_from_json, content_type, declared_content_type, has_header, has_text_body,
    headers_from_json, headers_to_json, lookup_header_value,
};
use pact_matching::json::Json;
use pact_matching::matchingrules::{
    best_entry, matchers_from_json, matchers_to_json, MatchingRule, MatchingRuleCategory,
    MatchingRules, RuleList, RuleLogic,
};
use pact_matching::models::{
    query_from_json, query_to_json, v3_query_from_json, Consumer, DifferenceType,
    PactSpecification, Provider, Request, Response,
};
use pact_matching::provider_states::ProviderState;
use pact_matching::query::MultiMap;
use pact_matching::v4_parts::{body_from_v4, body_to_v4_json, HttpRequest, HttpResponse};

fn s(text: &str) -> String {
    text.to_string()
}

fn json(text: &str) -> Json {
    Json::parse(text).unwrap()
}

fn values(items: &[&str]) -> Vec<String> {
    items.iter().map(|v| v.to_string()).collect()
}

fn headers(items: &[(&str, &[&str])]) -> Option<MultiMap> {
    let mut map: MultiMap = SortedMap::new();
    for (k, v) in items {
        map.insert(k.to_string(), values(v));
    }
    Some(map)
}

fn json_type() -> ContentType {
    ContentType::of("application", "json")
}

#[test]
fn body_is_empty_missing_null_or_present() {
    assert_eq!(body_from_json(&json("{\"body\": \"\"}"), "body", &None), OptionalBody::Empty);
    assert_eq!(body_from_json(&json("{}"), "body", &None), OptionalBody::Missing);
    assert_eq!(body_from_json(&json("{\"body\": null}"), "body", &None), OptionalBody::Null);
    assert_eq!(
        body_from_json(&json("{\"body\": \"hello\"}"), "body", &None),
        OptionalBody::Present(b"hello".to_vec(), Some(ContentType::of("text", "plain")))
    );
    assert_eq!(
        body_from_json(&json("{\"body\": {\"a\": 1}}"), "body", &None),
        OptionalBody::Present(b"{\"a\":1}".to_vec(), None)
    );
    assert_eq!(
        body_from_json(&json("{\"body\": 5}"), "body", &None),
        OptionalBody::Present(b"5".to_vec(), None)
    );
    assert_eq!(
        body_from_json(&json("{\"body\": false}"), "contents", &None),
        OptionalBody::Missing
    );
}

#[test]
fn body_of_a_text_depends_on_its_content_type() {
    assert_eq!(
        body_from_json(&json("{\"body\": \"{\\\"a\\\":1}\"}"), "body", &None),
        OptionalBody::Present(b"{\"a\":1}".to_vec(), Some(json_type()))
    );
    let declared = headers(&[("Content-Type", &["application/json"])]);
    assert_eq!(
        body_from_json(&json("{\"body\": \"hello\"}"), "body", &declared),
        OptionalBody::Present(b"\"hello\"".to_vec(), Some(json_type()))
    );
    assert_eq!(
        body_from_json(&json("{\"body\": \"\\\"hello\\\"\"}"), "body", &declared),
        OptionalBody::Present(b"\"hello\"".to_vec(), Some(json_type()))
    );
    assert_eq!(
        body_from_json(&json("{\"body\": \"12\"}"), "body", &declared),
        OptionalBody::Present(b"\"12\"".to_vec(), Some(json_type()))
    );
    let binary = headers(&[("content-type", &["application/octet-stream"])]);
    assert_eq!(
        body_from_json(&json("{\"body\": \"AQID\"}"), "body", &binary),
        OptionalBody::Present(vec![1, 2, 3], None)
    );
    assert_eq!(
        body_from_json(&json("{\"body\": \"!!!\"}"), "body", &binary),
        OptionalBody::Present(b"!!!".to_vec(), None)
    );
    let xml = headers(&[("CONTENT-TYPE", &["application/xml"])]);
    assert_eq!(
        body_from_json(&json("{\"body\": \"<a/>\"}"), "body", &xml),
        OptionalBody::Present(b"<a/>".to_vec(), Some(ContentType::of("application", "xml")))
    );
}

#[test]
fn body_is_written_by_its_content_type() {
    let plain = ContentType::of("text", "plain");
    assert_eq!(
        OptionalBody::Present(b"{\"a\":1}".to_vec(), None).to_json(&json_type()),
        Some(json("{\"a\":1}"))
    );
    assert_eq!(
        OptionalBody::Present(b"not json".to_vec(), None).to_json(&json_type()),
        Some(Json::String(s("bm90IGpzb24=")))
    );
    assert_eq!(
        OptionalBody::Present(b"hello".to_vec(), None).to_json(&plain),
        Some(Json::String(s("hello")))
    );
    assert_eq!(
        OptionalBody::Present(vec![0xff, 0xfe], None).to_json(&plain),
        Some(Json::String(s("//4=")))
    );
    assert_eq!(OptionalBody::Empty.to_json(&plain), Some(Json::String(s(""))));
    assert_eq!(OptionalBody::Missing.to_json(&plain), None);
    assert_eq!(OptionalBody::Null.to_json(&plain), Some(Json::Null));
}

#[test]
fn body_knows_what_it_holds() {
    let body = OptionalBody::Present(vec![1, 2], Some(json_type()));
    assert!(body.is_present());
    assert!(body.has_content_type());
    assert_eq!(body.content_type(), Some(json_type()));
    assert_eq!(body.value(), Some(vec![1, 2]));
    assert!(!OptionalBody::Empty.is_present());
    assert_eq!(OptionalBody::Null.value(), None);
    assert_eq!(OptionalBody::Present(vec![1], None).content_type(), None);
    assert!(has_text_body(&OptionalBody::Present(b"abc".to_vec(), None)));
    assert!(!has_text_body(&OptionalBody::Present(vec![0xc3, 0xa9], None)));
    assert!(!has_text_body(&OptionalBody::Present(vec![], None)));
    assert!(!has_text_body(&OptionalBody::Empty));
}

#[test]
fn version_4_writes_a_body_with_its_content_type() {
    assert_eq!(
        body_to_v4_json(&OptionalBody::Present(b"{\"a\":1}".to_vec(), Some(json_type()))),
        json("{\"content\":{\"a\":1},\"contentType\":\"application/json\",\"encoded\":false}")
    );
    assert_eq!(
        body_to_v4_json(&OptionalBody::Present(b"hi".to_vec(), None)),
        json("{\"content\":\"hi\",\"contentType\":\"*/*\",\"encoded\":false}")
    );
    assert_eq!(
        body_to_v4_json(&OptionalBody::Present(vec![1, 2, 3], Some(ContentType::of("image", "png")))),
        json("{\"content\":\"AQID\",\"contentType\":\"image/png\",\"encoded\":\"base64\"}")
    );
    assert_eq!(body_to_v4_json(&OptionalBody::Empty), json("{\"content\":\"\"}"));
    assert_eq!(body_to_v4_json(&OptionalBody::Missing), Json::Null);
    assert_eq!(body_to_v4_json(&OptionalBody::Null), Json::Null);
}

#[test]
fn version_4_reads_a_body_with_its_content_type() {
    let document = json(
        "{\"a\":{\"content\":{\"k\":1},\"contentType\":\"application/json\",\"encoded\":false},\
          \"b\":{\"content\":\"AQID\",\"encoded\":\"base64\"},\
          \"c\":{\"content\":\"\"},\
          \"d\":null,\
          \"e\":\"text\",\
          \"f\":{\"contentType\":\"text/plain\"},\
          \"g\":{\"content\":\"AQID\",\"encoded\":\"other\"},\
          \"h\":{\"content\":\"!!\",\"encoded\":true}}",
    );
    assert_eq!(
        body_from_v4(&document, "a", None),
        OptionalBody::Present(b"{\"k\":1}".to_vec(), Some(json_type()))
    );
    assert_eq!(
        body_from_v4(&document, "b", Some(ContentType::of("image", "png"))),
        OptionalBody::Present(vec![1, 2, 3], Some(ContentType::of("image", "png")))
    );
    assert_eq!(body_from_v4(&document, "c", None), OptionalBody::Empty);
    assert_eq!(body_from_v4(&document, "d", None), OptionalBody::Null);
    assert_eq!(body_from_v4(&document, "e", None), OptionalBody::Missing);
    assert_eq!(body_from_v4(&document, "f", None), OptionalBody::Missing);
    assert_eq!(body_from_v4(&document, "missing", None), OptionalBody::Missing);
    assert_eq!(body_from_v4(&document, "g", None), OptionalBody::Present(b"AQID".to_vec(), None));
    assert_eq!(body_from_v4(&document, "h", None), OptionalBody::Present(b"!!".to_vec(), None));
}

#[test]
fn headers_are_read_from_strings_arrays_and_other_values() {
    let read = headers_from_json(&json(
        "{\"headers\": {\"B\": [\"p\", 1], \"A\": \" x , y\", \"C\": 2, \"D\": \"\"}}",
    ));
    assert_eq!(
        read,
        headers(&[("A", &["x", "y"]), ("B", &["p", "1"]), ("C", &["2"]), ("D", &[""])])
    );
    assert_eq!(headers_from_json(&json("{}")), None);
    assert_eq!(headers_from_json(&json("{\"headers\": 1}")), None);
    assert_eq!(
        headers_to_json(&read.unwrap()),
        json("{\"A\":\"x, y\",\"B\":\"p, 1\",\"C\":\"2\",\"D\":\"\"}")
    );
}

#[test]
fn headers_are_looked_up_whatever_the_case() {
    let given = headers(&[("Content-Type", &["application/json", "x"]), ("X-A", &["1"])]);
    assert_eq!(lookup_header_value(&given, "content-type"), Some(s("application/json, x")));
    assert_eq!(lookup_header_value(&given, "CONTENT-TYPE"), Some(s("application/json, x")));
    assert_eq!(lookup_header_value(&given, "x-a"), Some(s("1")));
    assert_eq!(lookup_header_value(&given, "missing"), None);
    assert_eq!(lookup_header_value(&None, "x-a"), None);
    assert!(has_header(&given, "X-a"));
    assert!(!has_header(&given, "X-b"));
    assert_eq!(declared_content_type(&given), Some(json_type()));
    assert_eq!(declared_content_type(&headers(&[("content-type", &[])])), None);
    assert_eq!(declared_content_type(&None), None);
}

#[test]
fn add_header_replaces_the_values_of_a_header() {
    let mut given = None;
    add_header(&mut given, "B", vec!["1", "2"]);
    add_header(&mut given, "A", vec!["x"]);
    add_header(&mut given, "B", vec!["3"]);
    assert_eq!(given, headers(&[("A", &["x"]), ("B", &["3"])]));
    let mut request = Request::default();
    request.add_header("A", vec!["x", "y"]);
    assert_eq!(request.headers, headers(&[("A", &["x", "y"])]));
    assert_eq!(request.lookup_header_value("a"), Some(s("x, y")));
}

#[test]
fn content_type_of_a_part_is_resolved_in_order() {
    let body = OptionalBody::Present(b"{}".to_vec(), None);
    let plain = headers(&[("Content-Type", &["text/plain"])]);
    assert_eq!(content_type(&body, &plain), Some(ContentType::of("text", "plain")));
    let garbage = headers(&[("Content-Type", &["garbage"])]);
    assert_eq!(content_type(&body, &garbage), Some(json_type()));
    assert_eq!(content_type(&body, &None), Some(json_type()));
    let typed = OptionalBody::Present(b"{}".to_vec(), Some(ContentType::of("a", "b")));
    assert_eq!(content_type(&typed, &plain), Some(ContentType::of("a", "b")));
    assert_eq!(content_type(&OptionalBody::Missing, &None), None);
    assert_eq!(content_type(&OptionalBody::Present(vec![0xff], None), &None), None);
}

#[test]
fn matching_rules_are_read_and_written_in_the_nested_form() {
    let document = json(
        "{\"matchingRules\": {\
            \"body\": {\"$.a\": {\"matchers\": [{\"match\":\"regex\",\"regex\":\"\\\\d+\"},{\"match\":\"type\",\"min\":2}], \"combine\": \"or\"}},\
            \"path\": {\"matchers\":[{\"match\":\"type\"}]},\
            \"header\": {\"X-A\": {\"matchers\": [{\"match\": \"include\", \"value\": \"z\"}, {\"match\": \"nothing\"}]}}}}",
    );
    let rules = matchers_from_json(&document, &None).unwrap();
    let body = rules.rules_for_category("body").unwrap();
    assert_eq!(body.name, "body");
    assert_eq!(
        body.rules.get("$.a"),
        Some(&RuleList {
            rules: vec![MatchingRule::Regex(s("\\d+")), MatchingRule::MinType(2)],
            rule_logic: RuleLogic::Or,
        })
    );
    assert_eq!(
        rules.rules_for_category("path").unwrap().rules.get(""),
        Some(&RuleList { rules: vec![MatchingRule::Type], rule_logic: RuleLogic::And })
    );
    assert_eq!(
        rules.rules_for_category("header").unwrap().rules.get("X-A"),
        Some(&RuleList { rules: vec![MatchingRule::Include(s("z"))], rule_logic: RuleLogic::And })
    );
    assert!(rules.rules_for_category("query").is_none());
    assert!(rules.is_not_empty());
    assert_eq!(
        matchers_to_json(&rules, true),
        json(
            "{\"body\":{\"$.a\":{\"combine\":\"OR\",\"matchers\":[{\"match\":\"regex\",\"regex\":\"\\\\d+\"},{\"match\":\"type\",\"min\":2}]}},\
              \"header\":{\"X-A\":{\"combine\":\"AND\",\"matchers\":[{\"match\":\"include\",\"value\":\"z\"}]}},\
              \"path\":{\"combine\":\"AND\",\"matchers\":[{\"match\":\"type\"}]}}"
        )
    );
    assert_eq!(matchers_from_json(&matchers_to_json_document(&rules, true), &None), Ok(rules));
}

fn matchers_to_json_document(rules: &MatchingRules, nested: bool) -> Json {
    let mut members: SortedMap<Json> = SortedMap::new();
    members.insert(s("matchingRules"), matchers_to_json(rules, nested));
    Json::Object(members)
}

#[test]
fn matching_rules_are_read_and_written_in_the_flat_form() {
    let document = json(
        "{\"requestMatchingRules\": {\
            \"$.body.a\": {\"match\": \"type\"},\
            \"$.body\": {\"match\": \"equality\"},\
            \"$.headers.X-A\": {\"regex\": \"a\"},\
            \"$.path\": {\"match\":\"regex\",\"regex\":\"/x\"},\
            \"$.query.q\": {\"min\": 1}}}",
    );
    assert_eq!(matchers_from_json(&document, &None), Ok(MatchingRules::default()));
    let rules = matchers_from_json(&document, &Some(s("requestMatchingRules"))).unwrap();
    let mut expected = MatchingRules::default();
    expected.add_rule_list("body", "$.a", RuleList::new(MatchingRule::Type));
    expected.add_rule_list("body", "$", RuleList::new(MatchingRule::Equality));
    expected.add_rule_list("header", "X-A", RuleList::new(MatchingRule::Regex(s("a"))));
    expected.add_rule_list("path", "", RuleList::new(MatchingRule::Regex(s("/x"))));
    expected.add_rule_list("query", "q", RuleList::new(MatchingRule::MinType(1)));
    assert_eq!(rules, expected);
    let flat = matchers_to_json(&rules, false);
    assert_eq!(
        flat,
        json(
            "{\"$.body\":{\"match\":\"equality\"},\
              \"$.body.a\":{\"match\":\"type\"},\
              \"$.header.X-A\":{\"match\":\"regex\",\"regex\":\"a\"},\
              \"$.path\":{\"match\":\"regex\",\"regex\":\"/x\"},\
              \"$.query.q\":{\"match\":\"type\",\"min\":1}}"
        )
    );
    assert_eq!(matchers_from_json(&matchers_to_json_document(&rules, false), &None), Ok(rules));
}

#[test]
fn matching_rules_with_a_path_that_is_none_are_refused() {
    let nested = json("{\"matchingRules\": {\"body\": {\"$.\": {\"matchers\": []}}}}");
    assert_eq!(
        matchers_from_json(&nested, &None),
        Err(s("Expected a path after \".\" in path expression \"$.\" at index 1"))
    );
    let flat = json("{\"matchingRules\": {\"$.body[\": {\"match\": \"type\"}}}");
    assert_eq!(
        matchers_from_json(&flat, &None),
        Err(s("Expected a \"'\" (single qoute) or a digit in path expression \"$[\" after index 1"))
    );
    assert_eq!(matchers_from_json(&json("{\"matchingRules\": 1}"), &None), Ok(MatchingRules::default()));
    assert!(MatchingRules::default().is_empty());
}

#[test]
fn every_kind_of_rule_is_read_back_as_it_was_written() {
    let rules = vec![
        MatchingRule::Equality,
        MatchingRule::Regex(s("a+")),
        MatchingRule::Type,
        MatchingRule::MinType(1),
        MatchingRule::MaxType(2),
        MatchingRule::MinMaxType(1, 2),
        MatchingRule::Timestamp(s("yyyy-MM-dd HH:mm")),
        MatchingRule::Time(s("HH:mm")),
        MatchingRule::Date(s("yyyy-MM-dd")),
        MatchingRule::Include(s("x")),
        MatchingRule::Number,
        MatchingRule::Integer,
        MatchingRule::Decimal,
        MatchingRule::Null,
        MatchingRule::Boolean,
        MatchingRule::ArrayContains(json("[{\"index\":0}]")),
    ];
    for rule in rules {
        assert_eq!(MatchingRule::from_json(&rule.to_json()), Some(rule));
    }
    assert_eq!(
        MatchingRule::MinMaxType(1, 2).to_json(),
        json("{\"match\":\"type\",\"max\":2,\"min\":1}")
    );
    assert_eq!(MatchingRule::Include(s("x")).to_json(), json("{\"match\":\"include\",\"value\":\"x\"}"));
}

#[test]
fn a_rule_without_a_name_is_known_by_its_members() {
    assert_eq!(MatchingRule::from_json(&json("{\"regex\":\"a\"}")), Some(MatchingRule::Regex(s("a"))));
    assert_eq!(MatchingRule::from_json(&json("{\"min\":1,\"max\":2}")), Some(MatchingRule::MinMaxType(1, 2)));
    assert_eq!(MatchingRule::from_json(&json("{\"max\":2}")), Some(MatchingRule::MaxType(2)));
    assert_eq!(MatchingRule::from_json(&json("{\"timestamp\":\"y\"}")), Some(MatchingRule::Timestamp(s("y"))));
    assert_eq!(MatchingRule::from_json(&json("{\"time\":\"y\"}")), Some(MatchingRule::Time(s("y"))));
    assert_eq!(MatchingRule::from_json(&json("{\"date\":\"y\"}")), Some(MatchingRule::Date(s("y"))));
    assert_eq!(MatchingRule::from_json(&json("{\"match\":\"real\"}")), Some(MatchingRule::Decimal));
    assert_eq!(MatchingRule::from_json(&json("{\"match\":\"unknown\"}")), None);
    assert_eq!(MatchingRule::from_json(&json("{\"match\":1}")), None);
    assert_eq!(MatchingRule::from_json(&json("{\"match\":\"regex\"}")), None);
    assert_eq!(MatchingRule::from_json(&json("{\"match\":\"type\",\"min\":\"x\"}")), Some(MatchingRule::Type));
    assert_eq!(MatchingRule::from_json(&json("{}")), None);
    assert_eq!(MatchingRule::from_json(&json("[]")), None);
}

#[test]
fn the_rule_with_the_best_weight_applies() {
    let mut category = MatchingRuleCategory::empty("body");
    assert!(category.is_empty());
    category.rules.insert(s("$.a"), RuleList::new(MatchingRule::Type));
    category.rules.insert(s("$.*"), RuleList::new(MatchingRule::Regex(s("x"))));
    category.rules.insert(s("$.a.b"), RuleList::new(MatchingRule::Equality));
    category.rules.insert(s("$.a.*"), RuleList::new(MatchingRule::Number));
    category.rules.insert(s("$."), RuleList::new(MatchingRule::Null));
    assert!(category.is_not_empty());
    assert_eq!(category.select_best_matcher(&["$", "a"]), Some(&RuleList::new(MatchingRule::Type)));
    assert_eq!(
        category.select_best_matcher(&["$", "x"]),
        Some(&RuleList::new(MatchingRule::Regex(s("x"))))
    );
    assert_eq!(
        category.select_best_matcher(&["$", "a", "b"]),
        Some(&RuleList::new(MatchingRule::Equality))
    );
    assert_eq!(
        category.select_best_matcher(&["$", "a", "c"]),
        Some(&RuleList::new(MatchingRule::Number))
    );
    assert_eq!(category.select_best_matcher(&["x"]), None);
    assert_eq!(category.select_best_matcher(&[]), None);
    let equality = MatchingRuleCategory::equality("path");
    assert_eq!(equality.rules.get(""), Some(&RuleList::new(MatchingRule::Equality)));
    assert_eq!(equality.select_best_matcher(&[]), Some(&RuleList::new(MatchingRule::Equality)));
}

#[test]
fn rule_logic_is_written_in_upper_case() {
    assert_eq!(RuleLogic::And.to_text(), s("AND"));
    assert_eq!(RuleLogic::Or.to_text(), s("OR"));
    assert_eq!(RuleList::from_v3_json(&json("{\"combine\":\"Or\"}")).rule_logic, RuleLogic::Or);
    assert_eq!(RuleList::from_v3_json(&json("{\"combine\":\"xor\"}")).rule_logic, RuleLogic::And);
    assert_eq!(RuleList::from_v3_json(&json("{}")).rule_logic, RuleLogic::And);
    assert_eq!(RuleList::from_v2_json(&json("{\"match\":\"null\"}")), RuleList::new(MatchingRule::Null));
    assert!(RuleList::from_v2_json(&json("{}")).is_empty());
    assert_eq!(RuleList::from_v2_json(&json("{}")).to_v2_json(), json("{}"));
}

#[test]
fn renaming_a_category_keeps_its_rules() {
    let mut rules = MatchingRules::default();
    rules.add_rule_list("body", "$.a", RuleList::new(MatchingRule::Type));
    rules.add_rule_list("header", "A", RuleList::new(MatchingRule::Null));
    let renamed = rules.rename("body", "content");
    let mut expected = MatchingRules::default();
    expected.add_rule_list("content", "$.a", RuleList::new(MatchingRule::Type));
    expected.add_rule_list("header", "A", RuleList::new(MatchingRule::Null));
    assert_eq!(renamed, expected);
    assert_eq!(renamed.rename("content", "body"), rules);
}

#[test]
fn generators_are_read_and_written() {
    let document = json(
        "{\"generators\": {\
            \"body\": {\"$.id\": {\"type\": \"Uuid\"}, \"$.n\": {\"type\":\"RandomInt\",\"min\":1,\"max\":5}, \"$.bad\": 1},\
            \"path\": {\"type\":\"Regex\",\"regex\":\"/x\"}}}",
    );
    let generators = generators_from_json(&document).unwrap();
    assert!(generators.is_not_empty());
    let body = generators.categories.get("body").unwrap();
    assert_eq!(body.len(), 2);
    assert_eq!(body.get("$.id"), Some(&Generator { kind: s("Uuid"), attributes: SortedMap::new() }));
    assert_eq!(body.get("$.n").unwrap().kind, "RandomInt");
    assert_eq!(body.get("$.n").unwrap().attributes.get("max"), Some(&Json::Number(s("5"))));
    assert_eq!(generators.categories.get("path").unwrap().get("").unwrap().kind, "Regex");
    assert_eq!(
        generators_to_json(&generators),
        json(
            "{\"body\":{\"$.id\":{\"type\":\"Uuid\"},\"$.n\":{\"max\":5,\"min\":1,\"type\":\"RandomInt\"}},\
              \"path\":{\"regex\":\"/x\",\"type\":\"Regex\"}}"
        )
    );
    assert_eq!(
        generators_from_json(&json("{\"generators\": {\"body\": {\"$[\": {\"type\": \"Uuid\"}}}}")),
        Err(s("Expected a \"'\" (single qoute) or a digit in path expression \"$[\" after index 1"))
    );
    assert!(generators_from_json(&json("{}")).unwrap().is_empty());
    assert_eq!(Generator::from_json(&json("{\"min\":1}")), None);
    assert_eq!(Generator::from_json(&json("1")), None);
}

#[test]
fn generators_of_rules_never_replace_those_that_are_named() {
    let generators = generators_from_json(&json(
        "{\"generators\": {\"body\": {\"$.id\": {\"type\": \"Uuid\"}}}}",
    ))
    .unwrap();
    let mut rules = MatchingRules::default();
    rules.add_rule_list(
        "body",
        "$.items",
        RuleList::new(MatchingRule::ArrayContains(json(
            "[{\"index\":0,\"generators\":{\"$.id\":{\"type\":\"RandomInt\"},\"$.x\":{\"type\":\"Date\"}}},\
              {\"index\":1},\
              {\"index\":2,\"generators\":{\"$.x\":{\"type\":\"Time\"},\"$.y\":{\"nothing\":1}}}]",
        ))),
    );
    let built = build_generators(&generators, &rules, "body");
    assert_eq!(built.len(), 2);
    assert_eq!(built.get("$.id").unwrap().kind, "Uuid");
    assert_eq!(built.get("$.x").unwrap().kind, "Date");
    assert_eq!(build_generators(&generators, &rules, "header").len(), 0);
    assert_eq!(build_generators(&generators, &MatchingRules::default(), "body").len(), 1);
}

#[test]
fn provider_states_are_read_in_both_forms() {
    let read = ProviderState::from_json(&json(
        "{\"providerStates\":[{\"name\":\"a\",\"params\":{\"k\":1}},{\"name\":2},{}]}",
    ));
    assert_eq!(read.len(), 3);
    assert_eq!(read[0].name, "a");
    assert_eq!(read[0].params.get("k"), Some(&Json::Number(s("1"))));
    assert_eq!(read[1], ProviderState::default("2"));
    assert_eq!(read[2], ProviderState::default("unknown provider states"));
    assert_eq!(read[0].to_json(), json("{\"name\":\"a\",\"params\":{\"k\":1}}"));
    assert_eq!(read[1].to_json(), json("{\"name\":\"2\"}"));
    assert_eq!(
        ProviderState::from_json(&json("{\"providerState\":\"x\"}")),
        vec![ProviderState::default("x")]
    );
    assert_eq!(
        ProviderState::from_json(&json("{\"provider_state\":\"y\"}")),
        vec![ProviderState::default("y")]
    );
    assert_eq!(ProviderState::from_json(&json("{\"providerState\":\"\"}")), vec![]);
    assert_eq!(ProviderState::from_json(&json("{\"providerState\":null}")), vec![]);
    assert_eq!(ProviderState::from_json(&json("{\"providerState\":7}")), vec![ProviderState::default("7")]);
    assert_eq!(ProviderState::from_json(&json("{\"providerStates\":\"x\",\"providerState\":\"y\"}")), vec![]);
    assert_eq!(ProviderState::from_json(&json("{}")), vec![]);
}

#[test]
fn request_is_read_from_json() {
    let document = json(
        "{\"method\":\"get\",\"path\":\"/x\",\"query\":\"a=1&b=2\",\
          \"headers\":{\"Content-Type\":\"application/json\"},\"body\":{\"k\":\"v\"},\
          \"matchingRules\":{\"$.body.k\":{\"match\":\"type\"}}}",
    );
    let request = Request::from_json(&document, &PactSpecification::V2).unwrap();
    assert_eq!(request.method, "GET");
    assert_eq!(request.path, "/x");
    let mut query: MultiMap = SortedMap::new();
    query.insert(s("a"), values(&["1"]));
    query.insert(s("b"), values(&["2"]));
    assert_eq!(request.query, Some(query));
    assert_eq!(request.headers, headers(&[("Content-Type", &["application/json"])]));
    assert_eq!(request.body, OptionalBody::Present(b"{\"k\":\"v\"}".to_vec(), None));
    assert_eq!(request.content_type(), Some(json_type()));
    assert_eq!(request.lookup_content_type(), Some(s("application/json")));
    assert_eq!(
        request.to_json(&PactSpecification::V2),
        json(
            "{\"body\":{\"k\":\"v\"},\"headers\":{\"Content-Type\":\"application/json\"},\
              \"matchingRules\":{\"$.body.k\":{\"match\":\"type\"}},\
              \"method\":\"GET\",\"path\":\"/x\",\"query\":\"a=1&b=2\"}"
        )
    );
    assert_eq!(
        request.to_json(&PactSpecification::V3),
        json(
            "{\"body\":{\"k\":\"v\"},\"headers\":{\"Content-Type\":\"application/json\"},\
              \"matchingRules\":{\"body\":{\"$.k\":{\"combine\":\"AND\",\"matchers\":[{\"match\":\"type\"}]}}},\
              \"method\":\"GET\",\"path\":\"/x\",\"query\":{\"a\":[\"1\"],\"b\":[\"2\"]}}"
        )
    );
    assert_eq!(
        request.to_text(),
        s("Request ( method: GET, path: /x, query: {\"a\":[\"1\"],\"b\":[\"2\"]}, headers: {\"Content-Type\":\"application/json\"}, body: Present(9 bytes) )")
    );
}

#[test]
fn request_has_defaults_for_what_is_missing() {
    let request = Request::from_json(&json("{}"), &PactSpecification::V3).unwrap();
    assert_eq!(request, Request::default());
    assert_eq!(request, Request::default_request());
    assert_eq!(request.method, "GET");
    assert_eq!(request.path, "/");
    assert_eq!(request.query, None);
    assert_eq!(request.headers, None);
    assert_eq!(request.body, OptionalBody::Missing);
    assert_eq!(request.to_json(&PactSpecification::V1), json("{\"method\":\"GET\",\"path\":\"/\"}"));
    let odd = Request::from_json(&json("{\"method\":5,\"path\":[1]}"), &PactSpecification::V1).unwrap();
    assert_eq!(odd.method, "5");
    assert_eq!(odd.path, "[1]");
    assert_eq!(
        Request::from_json(&json("{\"generators\":{\"body\":{\"$.\":{\"type\":\"Uuid\"}}}}"), &PactSpecification::V3),
        Err(s("Expected a path after \".\" in path expression \"$.\" at index 1"))
    );
}

#[test]
fn query_is_read_by_the_version_of_the_specification() {
    let object = json("{\"a\": [\"1\", \"2\", 3], \"b\": \"x\", \"c\": 1}");
    let mut expected: MultiMap = SortedMap::new();
    expected.insert(s("a"), values(&["1", "2", "[\"1\",\"2\",3]"]));
    expected.insert(s("b"), values(&["x"]));
    expected.insert(s("c"), values(&[]));
    assert_eq!(v3_query_from_json(&object), Some(expected));
    assert_eq!(query_from_json(&object), None);
    assert_eq!(v3_query_from_json(&json("1")), None);
    let mut parsed: MultiMap = SortedMap::new();
    parsed.insert(s("a"), values(&["b c"]));
    assert_eq!(query_from_json(&json("\"a=b+c\"")).as_ref(), Some(&parsed));
    assert_eq!(v3_query_from_json(&json("\"a=b+c\"")).as_ref(), Some(&parsed));
    assert_eq!(query_to_json(&parsed, &PactSpecification::V2), Json::String(s("a=b+c")));
    assert_eq!(query_to_json(&parsed, &PactSpecification::V4), json("{\"a\":[\"b c\"]}"));
    let request = Request::from_json(&json("{\"query\": {\"a\": \"1\"}}"), &PactSpecification::V3).unwrap();
    assert!(request.query.is_some());
    let older = Request::from_json(&json("{\"query\": {\"a\": \"1\"}}"), &PactSpecification::V2).unwrap();
    assert_eq!(older.query, None);
}

#[test]
fn request_differences_are_described() {
    let first = Request::from_json(
        &json("{\"method\":\"GET\",\"path\":\"/a\",\"query\":\"a=1\",\"headers\":{\"A\":\"x\"},\"body\":\"hello\"}"),
        &PactSpecification::V2,
    )
    .unwrap();
    let second = Request::from_json(
        &json("{\"method\":\"POST\",\"path\":\"/b\",\"matchingRules\":{\"$.body\":{\"match\":\"type\"}}}"),
        &PactSpecification::V2,
    )
    .unwrap();
    assert_eq!(
        first.differences_from(&second),
        vec![
            (DifferenceType::Method, s("Request method GET != POST")),
            (DifferenceType::Path, s("Request path /a != /b")),
            (DifferenceType::QueryParameters, s("Request query {\"a\":[\"1\"]} != None")),
            (DifferenceType::Headers, s("Request headers {\"A\":\"x\"} != None")),
            (DifferenceType::Body, s("Request body 'Present(5 bytes)' != 'Missing'")),
            (
                DifferenceType::MatchingRules,
                s("Request matching rules {} != {\"body\":{\"$\":{\"combine\":\"AND\",\"matchers\":[{\"match\":\"type\"}]}}}")
            ),
        ]
    );
    assert_eq!(first.differences_from(&first), vec![]);
    let mut other_values = Request::default();
    other_values.add_header("A", vec!["1"]);
    let mut same_names = Request::default();
    same_names.add_header("A", vec!["2"]);
    assert_eq!(other_values.differences_from(&same_names), vec![]);
}

#[test]
fn response_is_read_and_written() {
    let response = Response::from_json(
        &json("{\"status\":404,\"headers\":{\"A\":\"x\"},\"body\":\"\"}"),
        &PactSpecification::V2,
    )
    .unwrap();
    assert_eq!(response.status, 404);
    assert_eq!(response.body, OptionalBody::Empty);
    assert_eq!(
        response.to_json(&PactSpecification::V2),
        json("{\"body\":\"\",\"headers\":{\"A\":\"x\"},\"status\":404}")
    );
    assert_eq!(response.to_text(), s("Response ( status: 404, headers: {\"A\":\"x\"}, body: Empty )"));
    assert_eq!(Response::from_json(&json("{}"), &PactSpecification::V2), Ok(Response::default()));
    assert_eq!(Response::default().status, 200);
    assert_eq!(Response::default_response(), Response::default());
    assert_eq!(
        Response::from_json(&json("{\"status\":\"x\"}"), &PactSpecification::V2),
        Err(s("Response status is not a number: \"x\""))
    );
    assert_eq!(
        Response::from_json(&json("{\"status\":1.5}"), &PactSpecification::V2),
        Err(s("Response status is not a number: 1.5"))
    );
    assert_eq!(
        Response::from_json(&json("{\"status\":70000}"), &PactSpecification::V2).unwrap().status,
        4464
    );
}

#[test]
fn response_differences_are_described() {
    let first = Response::from_json(&json("{\"status\":200,\"headers\":{\"A\":\"1\"}}"), &PactSpecification::V2).unwrap();
    let second = Response::from_json(&json("{\"status\":404,\"headers\":{\"A\":\"2\"},\"body\":null}"), &PactSpecification::V2).unwrap();
    assert_eq!(
        first.differences_from(&second),
        vec![
            (DifferenceType::Status, s("Response status 200 != 404")),
            (DifferenceType::Headers, s("Response headers {\"A\":\"1\"} != {\"A\":\"2\"}")),
            (DifferenceType::Body, s("Response body 'Missing' != 'Null'")),
        ]
    );
    assert_eq!(second.differences_from(&second), vec![]);
}

#[test]
fn requests_and_responses_convert_between_versions() {
    let request = Request::from_json(
        &json("{\"method\":\"put\",\"path\":\"/p\",\"query\":\"a=1\",\"body\":\"x\"}"),
        &PactSpecification::V2,
    )
    .unwrap();
    let lifted = request.as_v4_request();
    assert_eq!(lifted.method, "PUT");
    assert_eq!(lifted.path, "/p");
    assert_eq!(lifted.query, request.query);
    assert_eq!(lifted.body, request.body);
    assert_eq!(lifted.as_v3_request(), request);
    let response = Response::from_json(&json("{\"status\":201}"), &PactSpecification::V2).unwrap();
    assert_eq!(response.as_v4_response().status, 201);
    assert_eq!(response.as_v4_response().as_v3_response(), response);
    assert_eq!(HttpRequest::default().as_v3_request(), Request::default());
    assert_eq!(HttpResponse::default().as_v3_response(), Response::default());
}

#[test]
fn version_4_requests_and_responses_are_read_and_written() {
    let document = json(
        "{\"method\":\"post\",\"path\":\"/x\",\"query\":{\"a\":[\"1\"]},\
          \"headers\":{\"Content-Type\":\"application/json\"},\
          \"body\":{\"content\":{\"k\":1},\"contentType\":\"application/json\",\"encoded\":false}}",
    );
    let request = HttpRequest::from_json(&document).unwrap();
    assert_eq!(request.method, "POST");
    assert_eq!(request.body, OptionalBody::Present(b"{\"k\":1}".to_vec(), Some(json_type())));
    assert_eq!(
        request.to_json(),
        json(
            "{\"body\":{\"content\":{\"k\":1},\"contentType\":\"application/json\",\"encoded\":false},\
              \"headers\":{\"Content-Type\":\"application/json\"},\
              \"method\":\"POST\",\"path\":\"/x\",\"query\":{\"a\":[\"1\"]}}"
        )
    );
    assert_eq!(HttpRequest::from_json(&Json::Null), Ok(HttpRequest::default()));
    let response = HttpResponse::from_json(&json("{\"status\":500,\"body\":{\"content\":\"\"}}")).unwrap();
    assert_eq!(response.status, 500);
    assert_eq!(response.body, OptionalBody::Empty);
    assert_eq!(response.to_json(), json("{\"body\":{\"content\":\"\"},\"status\":500}"));
    assert_eq!(
        HttpResponse::from_json(&json("{\"status\":true}")),
        Err(s("Response status is not a number: true"))
    );
}

#[test]
fn parties_and_versions_have_names() {
    assert_eq!(Consumer::from_json(&json("{\"name\":\"c\"}")).name, "c");
    assert_eq!(Consumer::from_json(&json("{}")).name, "consumer");
    assert_eq!(Provider::from_json(&json("{\"name\":7}")).name, "7");
    assert_eq!(Provider::from_json(&json("{}")).name, "provider");
    assert_eq!(Consumer { name: s("c") }.to_json(), json("{\"name\":\"c\"}"));
    assert_eq!(Provider { name: s("p") }.to_json(), json("{\"name\":\"p\"}"));
    assert_eq!(PactSpecification::V1.version_str(), s("1.0.0"));
    assert_eq!(PactSpecification::V1_1.version_str(), s("1.1.0"));
    assert_eq!(PactSpecification::V2.version_str(), s("2.0.0"));
    assert_eq!(PactSpecification::V3.version_str(), s("3.0.0"));
    assert_eq!(PactSpecification::V4.version_str(), s("4.0"));
    assert_eq!(PactSpecification::Unknown.version_str(), s("unknown"));
    assert_eq!(PactSpecification::V1_1.to_text(), s("V1.1"));
    assert!(PactSpecification::V3.is_nested());
    assert!(!PactSpecification::V2.is_nested());
    assert!(PactSpecification::V2 < PactSpecification::V3);
}

#[test]
fn rule_logic_combines_what_the_rules_say() {
    assert!(RuleLogic::And.combine(&vec![true, true]));
    assert!(!RuleLogic::And.combine(&vec![true, false]));
    assert!(RuleLogic::And.combine(&vec![]));
    assert!(RuleLogic::Or.combine(&vec![false, true]));
    assert!(!RuleLogic::Or.combine(&vec![false, false]));
    assert!(!RuleLogic::Or.combine(&vec![]));
}

#[test]
fn the_generator_with_the_best_weight_applies() {
    let generators = generators_from_json(&json(
        "{\"generators\": {\"body\": {\"$.a\": {\"type\": \"Uuid\"}, \"$.*\": {\"type\": \"Date\"}, \"$.a.b\": {\"type\": \"Time\"}}}}",
    ))
    .unwrap();
    let body = generators.categories.get("body").unwrap();
    assert_eq!(select_best_generator(body, &["$", "a"]).unwrap().kind, "Uuid");
    assert_eq!(select_best_generator(body, &["$", "z"]).unwrap().kind, "Date");
    assert_eq!(select_best_generator(body, &["$", "a", "b"]).unwrap().kind, "Time");
    assert_eq!(select_best_generator(body, &["a"]), None);
    assert_eq!(best_entry(body, &["$", "a"]), Some(1));
}
