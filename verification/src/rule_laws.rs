//! What holds of every matching rule, of every list of rules and of the
//! rules of a category: they are read back as they were written.

use vstd::prelude::*;
use crate::collections::{
    keys_increasing, lemma_lookup_found, lemma_lookup_put, lemma_put, lemma_put_increasing,
    lemma_put_last, lookup, put, Entries,
};
use crate::json::{count_of, member, number_model, text_member, JsonModel};
use crate::matchingrules::{
    category_json, category_members, category_of, count_member, is_flat, logic_of, logic_text,
    matchers_from, matchers_json, nested_members, nested_rules, paths_of, rule_list_members,
    rule_list_of, rule_members, rule_of_json, rules_json, rules_of, tagged, type_rule,
    CategoryModel, RuleListModel, RuleLogic, RuleModel,
};
use crate::path_exp::parse_path;
use crate::text::{ascii_text, ascii_uppercase, lemma_decimal_reads_back, text_order};

verus! {

/// An object with the member `match` alone holds that member and no other.
pub proof fn lemma_tagged_alone(kind: Seq<char>, other: Seq<char>)
    ensures
        keys_increasing(tagged(kind, None)),
        lookup(tagged(kind, None), other) == if other == "match"@ {
            Some(JsonModel::String(kind))
        } else {
            None
        },
{
    let nothing = Seq::<(Seq<char>, JsonModel)>::empty();
    lemma_lookup_put(nothing, "match"@, JsonModel::String(kind), other);
    lemma_put_increasing(nothing, "match"@, JsonModel::String(kind));
}

/// An object with the member `match` and one more holds those two and no
/// other.
pub proof fn lemma_tagged_with(kind: Seq<char>, k: Seq<char>, v: JsonModel, other: Seq<char>)
    requires
        k != "match"@,
    ensures
        keys_increasing(tagged(kind, Some((k, v)))),
        lookup(tagged(kind, Some((k, v))), other) == if other == k {
            Some(v)
        } else if other == "match"@ {
            Some(JsonModel::String(kind))
        } else {
            None
        },
{
    lemma_tagged_alone(kind, other);
    lemma_lookup_put(tagged(kind, None), k, v, other);
    lemma_put_increasing(tagged(kind, None), k, v);
}

/// The number that the JSON number of a machine word writes is that word.
pub proof fn lemma_number_reads_back(n: usize)
    ensures
        count_of(number_model(n as nat), usize::MAX as nat) == Some(n as nat),
{
    lemma_decimal_reads_back(n as nat);
}

/// Makes known what the names of the rules and of their members are.
proof fn lemma_names()
    ensures
        "match"@.len() == 5,
        "equality"@.len() == 8,
        "regex"@.len() == 5 && "regex"@[0] == 'r',
        "match"@[0] == 'm',
        "type"@.len() == 4 && "type"@[1] == 'y',
        "min"@.len() == 3 && "min"@[1] == 'i',
        "max"@.len() == 3 && "max"@[1] == 'a',
        "timestamp"@.len() == 9,
        "time"@.len() == 4 && "time"@[1] == 'i',
        "date"@.len() == 4 && "date"@[1] == 'a' && "date"@[0] == 'd',
        "include"@.len() == 7 && "include"@[0] == 'i' && "include"@[2] == 'c',
        "value"@.len() == 5 && "value"@[0] == 'v',
        "number"@.len() == 6,
        "integer"@.len() == 7 && "integer"@[0] == 'i' && "integer"@[2] == 't',
        "decimal"@.len() == 7 && "decimal"@[0] == 'd',
        "real"@.len() == 4 && "real"@[1] == 'e',
        "null"@.len() == 4 && "null"@[1] == 'u',
        "boolean"@.len() == 7 && "boolean"@[0] == 'b',
        "arrayContains"@.len() == 13,
        "variants"@.len() == 8 && "variants"@[0] == 'v',
        "equality"@[0] == 'e',
{
    reveal_strlit("match");
    reveal_strlit("equality");
    reveal_strlit("regex");
    reveal_strlit("type");
    reveal_strlit("min");
    reveal_strlit("max");
    reveal_strlit("timestamp");
    reveal_strlit("time");
    reveal_strlit("date");
    reveal_strlit("include");
    reveal_strlit("value");
    reveal_strlit("number");
    reveal_strlit("integer");
    reveal_strlit("decimal");
    reveal_strlit("real");
    reveal_strlit("null");
    reveal_strlit("boolean");
    reveal_strlit("arrayContains");
    reveal_strlit("variants");
}

/// A rule that is written with its name and no member besides.
proof fn lemma_plain_rule(kind: Seq<char>)
    ensures
        member(JsonModel::Object(tagged(kind, None)), "match"@) == Some(JsonModel::String(kind)),
        type_rule(JsonModel::Object(tagged(kind, None))) == RuleModel::Type,
{
    lemma_names();
    lemma_tagged_alone(kind, "match"@);
    lemma_tagged_alone(kind, "min"@);
    lemma_tagged_alone(kind, "max"@);
}

/// A rule that is written with its name and a text under `k`.
proof fn lemma_text_rule(kind: Seq<char>, k: Seq<char>, s: Seq<char>)
    requires
        k != "match"@,
    ensures
        member(
            JsonModel::Object(tagged(kind, Some((k, JsonModel::String(s))))),
            "match"@,
        ) == Some(JsonModel::String(kind)),
        text_member(JsonModel::Object(tagged(kind, Some((k, JsonModel::String(s))))), k) == Some(
            s,
        ),
{
    lemma_tagged_with(kind, k, JsonModel::String(s), "match"@);
    lemma_tagged_with(kind, k, JsonModel::String(s), k);
}

/// Every rule is read back from the JSON object that it is written as: no
/// kind of rule loses anything on the way.
pub proof fn lemma_rule_round_trip(rule: RuleModel)
    ensures
        rule_of_json(JsonModel::Object(rule_members(rule))) == Some(rule),
{
    lemma_names();
    let j = JsonModel::Object(rule_members(rule));
    match rule {
        RuleModel::Equality => {
            lemma_plain_rule("equality"@);
        },
        RuleModel::Regex(s) => {
            lemma_text_rule("regex"@, "regex"@, s);
        },
        RuleModel::Type => {
            lemma_plain_rule("type"@);
        },
        RuleModel::MinType(n) => {
            lemma_number_reads_back(n);
            lemma_tagged_with("type"@, "min"@, number_model(n as nat), "match"@);
            lemma_tagged_with("type"@, "min"@, number_model(n as nat), "min"@);
            lemma_tagged_with("type"@, "min"@, number_model(n as nat), "max"@);
            assert(count_member(j, "min"@) == Some(n));
            assert(count_member(j, "max"@) is None);
        },
        RuleModel::MaxType(n) => {
            lemma_number_reads_back(n);
            lemma_tagged_with("type"@, "max"@, number_model(n as nat), "match"@);
            lemma_tagged_with("type"@, "max"@, number_model(n as nat), "min"@);
            lemma_tagged_with("type"@, "max"@, number_model(n as nat), "max"@);
            assert(count_member(j, "max"@) == Some(n));
            assert(count_member(j, "min"@) is None);
        },
        RuleModel::MinMaxType(a, b) => {
            lemma_number_reads_back(a);
            lemma_number_reads_back(b);
            let base = tagged("type"@, Some(("min"@, number_model(a as nat))));
            lemma_tagged_with("type"@, "min"@, number_model(a as nat), "match"@);
            lemma_tagged_with("type"@, "min"@, number_model(a as nat), "min"@);
            lemma_tagged_with("type"@, "min"@, number_model(a as nat), "max"@);
            lemma_lookup_put(base, "max"@, number_model(b as nat), "match"@);
            lemma_lookup_put(base, "max"@, number_model(b as nat), "min"@);
            lemma_lookup_put(base, "max"@, number_model(b as nat), "max"@);
            assert(count_member(j, "min"@) == Some(a));
            assert(count_member(j, "max"@) == Some(b));
        },
        RuleModel::Timestamp(s) => {
            lemma_text_rule("timestamp"@, "timestamp"@, s);
        },
        RuleModel::Time(s) => {
            lemma_text_rule("time"@, "time"@, s);
        },
        RuleModel::Date(s) => {
            lemma_text_rule("date"@, "date"@, s);
        },
        RuleModel::Include(s) => {
            lemma_text_rule("include"@, "value"@, s);
        },
        RuleModel::Number => {
            lemma_plain_rule("number"@);
        },
        RuleModel::Integer => {
            lemma_plain_rule("integer"@);
        },
        RuleModel::Decimal => {
            lemma_plain_rule("decimal"@);
        },
        RuleModel::Null => {
            lemma_plain_rule("null"@);
        },
        RuleModel::Boolean => {
            lemma_plain_rule("boolean"@);
        },
        RuleModel::ArrayContains(v) => {
            lemma_tagged_with("arrayContains"@, "variants"@, v, "match"@);
            lemma_tagged_with("arrayContains"@, "variants"@, v, "variants"@);
        },
    }
}

/// The rules that are written one after another are read back one for
/// one, in their order.
pub proof fn lemma_rules_round_trip(rules: Seq<RuleModel>)
    ensures
        rules_of(rules_json(rules)) == rules,
    decreases rules.len(),
{
    let items = rules_json(rules);
    if rules.len() == 0 {
        assert(rules_of(items) =~= rules);
    } else {
        lemma_rules_round_trip(rules.drop_last());
        lemma_rule_round_trip(rules.last());
        assert(items.drop_last() =~= rules_json(rules.drop_last()));
        assert(items.last() == JsonModel::Object(rule_members(rules.last())));
        assert(rules.drop_last().push(rules.last()) =~= rules);
    }
}

/// The word of a logic is read back as that logic.
pub proof fn lemma_logic_round_trip(logic: RuleLogic)
    ensures
        logic_of(Some(logic_text(logic))) == logic,
{
    reveal_strlit("AND");
    reveal_strlit("OR");
    assert("AND"@.len() == 3 && "OR"@.len() == 2);
    let word = logic_text(logic);
    assert(ascii_text(word));
    assert(ascii_uppercase(word) =~= word);
}

/// A list of rules is read back from the JSON object that it is written
/// as, with its rules in their order and with its logic.
pub proof fn lemma_rule_list_round_trip(list: RuleListModel)
    ensures
        rule_list_of(JsonModel::Object(rule_list_members(list))) == list,
{
    reveal_strlit("combine");
    reveal_strlit("matchers");
    assert("combine"@.len() == 7 && "matchers"@.len() == 8);
    let m0 = Seq::<(Seq<char>, JsonModel)>::empty();
    let m1 = put(m0, "combine"@, JsonModel::String(logic_text(list.rule_logic)));
    lemma_put(m0, "combine"@, JsonModel::String(logic_text(list.rule_logic)));
    lemma_put(m1, "matchers"@, JsonModel::Array(rules_json(list.rules)));
    lemma_rules_round_trip(list.rules);
    lemma_logic_round_trip(list.rule_logic);
}

/// The rules of a category whose paths are increasing and are all path
/// expressions are read back from the members that they are written as,
/// path by path.
pub proof fn lemma_category_round_trip(rules: Entries<RuleListModel>)
    requires
        keys_increasing(rules),
        forall|i: int| 0 <= i < rules.len() ==> parse_path(#[trigger] rules[i].0) is Ok,
    ensures
        category_members(rules) == Seq::new(
            rules.len(),
            |i: int| (rules[i].0, JsonModel::Object(rule_list_members(rules[i].1))),
        ),
        paths_of(category_members(rules)) == Ok::<Entries<RuleListModel>, Seq<char>>(rules),
    decreases rules.len(),
{
    let written = Seq::new(
        rules.len(),
        |i: int| (rules[i].0, JsonModel::Object(rule_list_members(rules[i].1))),
    );
    if rules.len() == 0 {
        assert(category_members(rules) =~= written);
        assert(rules =~= Seq::<(Seq<char>, RuleListModel)>::empty());
    } else {
        let init = rules.drop_last();
        let last = rules.last();
        assert forall|i: int, j: int| 0 <= i < j < init.len() implies text_order(
            #[trigger] init[i].0,
            #[trigger] init[j].0,
        ) < 0 by {
            assert(init[i] == rules[i] && init[j] == rules[j]);
        }
        assert forall|i: int| 0 <= i < init.len() implies parse_path(#[trigger] init[i].0) is Ok by {
            assert(init[i] == rules[i]);
        }
        lemma_category_round_trip(init);
        let before = category_members(init);
        let v = JsonModel::Object(rule_list_members(last.1));
        assert forall|i: int| 0 <= i < before.len() implies text_order(
            #[trigger] before[i].0,
            last.0,
        ) < 0 by {
            assert(init[i] == rules[i]);
            assert(text_order(rules[i].0, rules[rules.len() - 1].0) < 0);
        }
        lemma_put_last(before, last.0, v);
        assert(category_members(rules) =~= written);
        assert(written.drop_last() =~= before);
        assert(written.last() == (last.0, v));
        lemma_rule_list_round_trip(last.1);
        assert forall|i: int| 0 <= i < init.len() implies text_order(
            #[trigger] init[i].0,
            last.0,
        ) < 0 by {
            assert(init[i] == rules[i]);
            assert(text_order(rules[i].0, rules[rules.len() - 1].0) < 0);
        }
        lemma_put_last(init, last.0, last.1);
        assert(init.push((last.0, last.1)) =~= rules);
    }
}

/// Whether the rules of the category `name` are in a form that is written
/// without loss: the paths are increasing and are all path expressions;
/// and the category `path`, which is written as one list where it has
/// rules at the empty path, then has no other rules, and else none at a
/// path that is the name under which such a list holds its rules.
pub open spec fn category_form(name: Seq<char>, rules: Entries<RuleListModel>) -> bool {
    &&& keys_increasing(rules)
    &&& forall|i: int| 0 <= i < rules.len() ==> parse_path(#[trigger] rules[i].0) is Ok
    &&& name == "path"@ ==> (rules.len() == 1 && rules[0].0.len() == 0) || (forall|i: int|
        0 <= i < rules.len() ==> (#[trigger] rules[i].0).len() > 0 && rules[i].0 != "matchers"@)
}

/// The rules of a category in such a form are read back from the value
/// that they are written as.
pub proof fn lemma_category_json_round_trip(name: Seq<char>, rules: Entries<RuleListModel>)
    requires
        category_form(name, rules),
    ensures
        category_of(name, category_json(name, rules)) == Ok::<Entries<RuleListModel>, Seq<char>>(
            rules,
        ),
{
    let nothing = Seq::<char>::empty();
    if name == "path"@ && rules.len() == 1 && rules[0].0.len() == 0 {
        assert(rules[0].0 =~= nothing);
        assert(rules.drop_first().len() == 0);
        assert(lookup(rules, nothing) == Some(rules[0].1));
        let list = rules[0].1;
        lemma_rule_list_round_trip(list);
        reveal_strlit("combine");
        reveal_strlit("matchers");
        assert("combine"@.len() == 7 && "matchers"@.len() == 8);
        let m0 = Seq::<(Seq<char>, JsonModel)>::empty();
        let m1 = put(m0, "combine"@, JsonModel::String(logic_text(list.rule_logic)));
        lemma_put(m0, "combine"@, JsonModel::String(logic_text(list.rule_logic)));
        lemma_put(m1, "matchers"@, JsonModel::Array(rules_json(list.rules)));
        lemma_put_last(Seq::<(Seq<char>, RuleListModel)>::empty(), nothing, list);
        assert(Seq::<(Seq<char>, RuleListModel)>::empty().push((nothing, list)) =~= rules);
    } else {
        lemma_category_round_trip(rules);
        if name == "path"@ {
            if lookup(rules, nothing) is Some {
                lemma_lookup_found(rules, nothing);
            }
            let written = category_members(rules);
            if lookup(written, "matchers"@) is Some {
                lemma_lookup_found(written, "matchers"@);
            }
        }
    }
}

/// Whether matching rules are in a form that is written without loss in
/// the nested form: the names of the categories are increasing, each
/// category is held under its own name, none of these names starts with
/// `$`, and the rules of each category are in such a form.
pub open spec fn nested_form(cats: Entries<CategoryModel>) -> bool {
    &&& keys_increasing(cats)
    &&& forall|i: int|
        0 <= i < cats.len() ==> (#[trigger] cats[i]).1.name == cats[i].0 && category_form(
            cats[i].0,
            cats[i].1.rules,
        ) && !(cats[i].0.len() > 0 && cats[i].0[0] == '$')
}

/// Matching rules in such a form are written in the nested form category
/// by category, in their order, and are read back from it as they were.
pub proof fn lemma_nested_round_trip(cats: Entries<CategoryModel>)
    requires
        nested_form(cats),
    ensures
        nested_members(cats) == Seq::new(
            cats.len(),
            |i: int| (cats[i].0, category_json(cats[i].0, cats[i].1.rules)),
        ),
        nested_rules(nested_members(cats)) == Ok::<Entries<CategoryModel>, Seq<char>>(cats),
        !is_flat(nested_members(cats)),
    decreases cats.len(),
{
    let written = Seq::new(
        cats.len(),
        |i: int| (cats[i].0, category_json(cats[i].0, cats[i].1.rules)),
    );
    if cats.len() == 0 {
        assert(nested_members(cats) =~= written);
        assert(cats =~= Seq::<(Seq<char>, CategoryModel)>::empty());
    } else {
        let init = cats.drop_last();
        let last = cats.last();
        assert forall|i: int, j: int| 0 <= i < j < init.len() implies text_order(
            #[trigger] init[i].0,
            #[trigger] init[j].0,
        ) < 0 by {
            assert(init[i] == cats[i] && init[j] == cats[j]);
        }
        assert forall|i: int| 0 <= i < init.len() implies (#[trigger] init[i]).1.name == init[i].0
            && category_form(init[i].0, init[i].1.rules) && !(init[i].0.len() > 0 && init[i].0[0]
            == '$') by {
            assert(init[i] == cats[i]);
        }
        lemma_nested_round_trip(init);
        let before = nested_members(init);
        let v = category_json(last.0, last.1.rules);
        assert forall|i: int| 0 <= i < before.len() implies text_order(
            #[trigger] before[i].0,
            last.0,
        ) < 0 by {
            assert(init[i] == cats[i]);
            assert(text_order(cats[i].0, cats[cats.len() - 1].0) < 0);
        }
        lemma_put_last(before, last.0, v);
        assert(nested_members(cats) =~= written);
        assert(written.drop_last() =~= before);
        assert(written.last() == (last.0, v));
        assert(cats[cats.len() - 1].1.name == cats[cats.len() - 1].0);
        lemma_category_json_round_trip(last.0, last.1.rules);
        assert forall|i: int| 0 <= i < init.len() implies text_order(
            #[trigger] init[i].0,
            last.0,
        ) < 0 by {
            assert(init[i] == cats[i]);
            assert(text_order(cats[i].0, cats[cats.len() - 1].0) < 0);
        }
        let kept = CategoryModel { name: last.0, rules: last.1.rules };
        assert(kept == last.1);
        lemma_put_last(init, last.0, kept);
        assert(init.push((last.0, kept)) =~= cats);
        assert forall|i: int| 0 <= i < written.len() implies !((#[trigger] written[i]).0.len() > 0
            && written[i].0[0] == '$') by {
            assert(written[i].0 == cats[i].0);
        }
    }
}

/// Matching rules in such a form are read back from a JSON object that
/// holds, under `matchingRules`, what the nested form writes for them.
pub proof fn lemma_matchers_round_trip(
    cats: Entries<CategoryModel>,
    json: JsonModel,
    deprecated_name: Option<Seq<char>>,
)
    requires
        nested_form(cats),
        member(json, "matchingRules"@) == Some(matchers_json(cats, true)),
    ensures
        matchers_from(json, deprecated_name) == Ok::<Entries<CategoryModel>, Seq<char>>(cats),
{
    lemma_nested_round_trip(cats);
}

} // verus!
