//! Matching rules: the rules that say how a value is compared, the lists of
//! rules that apply at a path, and the categories that hold them.

use vstd::prelude::*;
use crate::collections::{put, Duplicate, Entries, Same, SortedMap};
use crate::json::{count_of, lemma_json_model, member, number_model, text_member, Json, JsonModel};
use crate::path_exp::fragments;
use crate::path_exp::{calc_path_weight, parse_path, parse_path_exp, text_weight, error_text};
use crate::query::find_char;
use crate::text::{chars_of, push_char, str_eq, string_of_range, to_uppercase, uppercase};

verus! {

/// How the rules of a list combine.
#[derive(Debug, Clone, Copy, PartialEq, Eq, Hash)]
pub enum RuleLogic {
    /// Every rule must accept the value.
    And,
    /// At least one rule must accept the value.
    Or,
}

impl RuleLogic {
    /// The word by which the logic is written: `AND` or `OR`.
    pub fn to_text(&self) -> (r: String)
        ensures
            r@ == logic_text(*self),
    {
        match self {
            RuleLogic::And => "AND".to_owned(),
            RuleLogic::Or => "OR".to_owned(),
        }
    }
}

/// The word by which a logic is written.
pub open spec fn logic_text(logic: RuleLogic) -> Seq<char> {
    match logic {
        RuleLogic::And => "AND"@,
        RuleLogic::Or => "OR"@,
    }
}

/// The logic that a word writes: a word that is `OR` in upper case is `Or`,
/// and every other word, or none, `And`.
pub open spec fn logic_of(word: Option<Seq<char>>) -> RuleLogic {
    if word matches Some(w) && uppercase(w) == "OR"@ {
        RuleLogic::Or
    } else {
        RuleLogic::And
    }
}

/// A rule that says how a value is compared with the expected one.
#[derive(Debug, PartialEq, Eq, Hash)]
pub enum MatchingRule {
    /// The values are equal.
    Equality,
    /// The text matches the regular expression.
    Regex(String),
    /// The values have the same type.
    Type,
    /// The same type, and an array of at least so many items.
    MinType(usize),
    /// The same type, and an array of at most so many items.
    MaxType(usize),
    /// The same type, and an array with a number of items in the range.
    MinMaxType(usize, usize),
    /// A date and time in the given format.
    Timestamp(String),
    /// A time in the given format.
    Time(String),
    /// A date in the given format.
    Date(String),
    /// The text includes the given text.
    Include(String),
    /// Any number.
    Number,
    /// A whole number.
    Integer,
    /// A number with a fraction.
    Decimal,
    /// The value `null`.
    Null,
    /// A boolean.
    Boolean,
    /// An array that contains an item for each of the variants, which are
    /// held as they are written.
    ArrayContains(Json),
}

/// The mathematical value of a `MatchingRule`.
pub enum RuleModel {
    Equality,
    Regex(Seq<char>),
    Type,
    MinType(usize),
    MaxType(usize),
    MinMaxType(usize, usize),
    Timestamp(Seq<char>),
    Time(Seq<char>),
    Date(Seq<char>),
    Include(Seq<char>),
    Number,
    Integer,
    Decimal,
    Null,
    Boolean,
    ArrayContains(JsonModel),
}

impl DeepView for MatchingRule {
    type V = RuleModel;

    open spec fn deep_view(&self) -> RuleModel {
        match self {
            MatchingRule::Equality => RuleModel::Equality,
            MatchingRule::Regex(s) => RuleModel::Regex(s@),
            MatchingRule::Type => RuleModel::Type,
            MatchingRule::MinType(n) => RuleModel::MinType(*n),
            MatchingRule::MaxType(n) => RuleModel::MaxType(*n),
            MatchingRule::MinMaxType(a, b) => RuleModel::MinMaxType(*a, *b),
            MatchingRule::Timestamp(s) => RuleModel::Timestamp(s@),
            MatchingRule::Time(s) => RuleModel::Time(s@),
            MatchingRule::Date(s) => RuleModel::Date(s@),
            MatchingRule::Include(s) => RuleModel::Include(s@),
            MatchingRule::Number => RuleModel::Number,
            MatchingRule::Integer => RuleModel::Integer,
            MatchingRule::Decimal => RuleModel::Decimal,
            MatchingRule::Null => RuleModel::Null,
            MatchingRule::Boolean => RuleModel::Boolean,
            MatchingRule::ArrayContains(v) => RuleModel::ArrayContains(v.deep_view()),
        }
    }
}

impl Duplicate for MatchingRule {
    fn duplicate(&self) -> (r: MatchingRule) {
        match self {
            MatchingRule::Equality => MatchingRule::Equality,
            MatchingRule::Regex(s) => MatchingRule::Regex(s.clone()),
            MatchingRule::Type => MatchingRule::Type,
            MatchingRule::MinType(n) => MatchingRule::MinType(*n),
            MatchingRule::MaxType(n) => MatchingRule::MaxType(*n),
            MatchingRule::MinMaxType(a, b) => MatchingRule::MinMaxType(*a, *b),
            MatchingRule::Timestamp(s) => MatchingRule::Timestamp(s.clone()),
            MatchingRule::Time(s) => MatchingRule::Time(s.clone()),
            MatchingRule::Date(s) => MatchingRule::Date(s.clone()),
            MatchingRule::Include(s) => MatchingRule::Include(s.clone()),
            MatchingRule::Number => MatchingRule::Number,
            MatchingRule::Integer => MatchingRule::Integer,
            MatchingRule::Decimal => MatchingRule::Decimal,
            MatchingRule::Null => MatchingRule::Null,
            MatchingRule::Boolean => MatchingRule::Boolean,
            MatchingRule::ArrayContains(v) => MatchingRule::ArrayContains(v.duplicate()),
        }
    }
}

/// An object with the member `match` and, where `extra` is given, one more
/// member.
pub open spec fn tagged(kind: Seq<char>, extra: Option<(Seq<char>, JsonModel)>) -> Entries<
    JsonModel,
> {
    let base = put(Seq::empty(), "match"@, JsonModel::String(kind));
    match extra {
        Some((k, v)) => put(base, k, v),
        None => base,
    }
}

/// The members by which a rule is written.
pub open spec fn rule_members(rule: RuleModel) -> Entries<JsonModel> {
    match rule {
        RuleModel::Equality => tagged("equality"@, None),
        RuleModel::Regex(s) => tagged("regex"@, Some(("regex"@, JsonModel::String(s)))),
        RuleModel::Type => tagged("type"@, None),
        RuleModel::MinType(n) => tagged("type"@, Some(("min"@, number_model(n as nat)))),
        RuleModel::MaxType(n) => tagged("type"@, Some(("max"@, number_model(n as nat)))),
        RuleModel::MinMaxType(a, b) => put(
            tagged("type"@, Some(("min"@, number_model(a as nat)))),
            "max"@,
            number_model(b as nat),
        ),
        RuleModel::Timestamp(s) => tagged("timestamp"@, Some(("timestamp"@, JsonModel::String(s)))),
        RuleModel::Time(s) => tagged("time"@, Some(("time"@, JsonModel::String(s)))),
        RuleModel::Date(s) => tagged("date"@, Some(("date"@, JsonModel::String(s)))),
        RuleModel::Include(s) => tagged("include"@, Some(("value"@, JsonModel::String(s)))),
        RuleModel::Number => tagged("number"@, None),
        RuleModel::Integer => tagged("integer"@, None),
        RuleModel::Decimal => tagged("decimal"@, None),
        RuleModel::Null => tagged("null"@, None),
        RuleModel::Boolean => tagged("boolean"@, None),
        RuleModel::ArrayContains(v) => tagged("arrayContains"@, Some(("variants"@, v))),
    }
}

/// The number under the member `k`, where it is written as decimal digits
/// and fits a machine word.
pub open spec fn count_member(j: JsonModel, k: Seq<char>) -> Option<usize> {
    match member(j, k) {
        Some(v) => match count_of(v, usize::MAX as nat) {
            Some(n) => Some(n as usize),
            None => None,
        },
        None => None,
    }
}

/// The rule on the type of a value that the members `min` and `max` give.
pub open spec fn type_rule(j: JsonModel) -> RuleModel {
    match (count_member(j, "min"@), count_member(j, "max"@)) {
        (Some(a), Some(b)) => RuleModel::MinMaxType(a, b),
        (Some(a), None) => RuleModel::MinType(a),
        (None, Some(b)) => RuleModel::MaxType(b),
        (None, None) => RuleModel::Type,
    }
}

/// The rule that a JSON object writes and that its member `match` names.
pub open spec fn named_rule(j: JsonModel, kind: Seq<char>) -> Option<RuleModel> {
    if kind == "equality"@ {
        Some(RuleModel::Equality)
    } else if kind == "regex"@ {
        match text_member(j, "regex"@) {
            Some(s) => Some(RuleModel::Regex(s)),
            None => None,
        }
    } else if kind == "type"@ {
        Some(type_rule(j))
    } else if kind == "timestamp"@ {
        match text_member(j, "timestamp"@) {
            Some(s) => Some(RuleModel::Timestamp(s)),
            None => None,
        }
    } else if kind == "time"@ {
        match text_member(j, "time"@) {
            Some(s) => Some(RuleModel::Time(s)),
            None => None,
        }
    } else if kind == "date"@ {
        match text_member(j, "date"@) {
            Some(s) => Some(RuleModel::Date(s)),
            None => None,
        }
    } else if kind == "include"@ {
        match text_member(j, "value"@) {
            Some(s) => Some(RuleModel::Include(s)),
            None => None,
        }
    } else if kind == "number"@ {
        Some(RuleModel::Number)
    } else if kind == "integer"@ {
        Some(RuleModel::Integer)
    } else if kind == "decimal"@ || kind == "real"@ {
        Some(RuleModel::Decimal)
    } else if kind == "null"@ {
        Some(RuleModel::Null)
    } else if kind == "boolean"@ {
        Some(RuleModel::Boolean)
    } else if kind == "arrayContains"@ {
        match member(j, "variants"@) {
            Some(v) => Some(RuleModel::ArrayContains(v)),
            None => None,
        }
    } else {
        None
    }
}

/// The rule that a JSON object writes. Its member `match` names the rule;
/// without that member, a member `regex` makes it a regular expression, a
/// member `min` or `max` a rule on the type, and a member `timestamp`,
/// `time` or `date` a rule on the format. Anything else writes no rule.
pub open spec fn rule_of_json(j: JsonModel) -> Option<RuleModel> {
    match member(j, "match"@) {
        Some(JsonModel::String(kind)) => named_rule(j, kind),
        Some(_) => None,
        None => if text_member(j, "regex"@) is Some {
            Some(RuleModel::Regex(text_member(j, "regex"@)->0))
        } else if count_member(j, "min"@) is Some || count_member(j, "max"@) is Some {
            Some(type_rule(j))
        } else if text_member(j, "timestamp"@) is Some {
            Some(RuleModel::Timestamp(text_member(j, "timestamp"@)->0))
        } else if text_member(j, "time"@) is Some {
            Some(RuleModel::Time(text_member(j, "time"@)->0))
        } else if text_member(j, "date"@) is Some {
            Some(RuleModel::Date(text_member(j, "date"@)->0))
        } else {
            None
        },
    }
}

/// An object with the member `match` and, where `extra` is given, one more
/// member.
fn tagged_object(kind: &str, extra: Option<(&str, Json)>) -> (r: SortedMap<Json>)
    ensures
        r.deep_view() == tagged(
            kind@,
            match extra {
                Some((k, v)) => Some((k@, v.deep_view())),
                None => None,
            },
        ),
{
    let mut members: SortedMap<Json> = SortedMap::new();
    members.insert("match".to_owned(), Json::String(kind.to_owned()));
    match extra {
        Some((k, v)) => {
            members.insert(k.to_owned(), v);
        },
        None => {},
    }
    members
}

/// The number under the member `key`, where it is written as decimal digits
/// and fits a machine word.
fn get_count(j: &Json, key: &str) -> (r: Option<usize>)
    ensures
        r == count_member(j.deep_view(), key@),
{
    match j.get(key) {
        Some(v) => v.as_usize(),
        None => None,
    }
}

/// The rule on the type of a value that the members `min` and `max` give.
fn type_rule_of(j: &Json) -> (r: MatchingRule)
    ensures
        r.deep_view() == type_rule(j.deep_view()),
{
    match (get_count(j, "min"), get_count(j, "max")) {
        (Some(a), Some(b)) => MatchingRule::MinMaxType(a, b),
        (Some(a), None) => MatchingRule::MinType(a),
        (None, Some(b)) => MatchingRule::MaxType(b),
        (None, None) => MatchingRule::Type,
    }
}

impl MatchingRule {
    /// Writes the rule as a JSON object.
    pub fn to_json(&self) -> (r: Json)
        ensures
            r.deep_view() == JsonModel::Object(rule_members(self.deep_view())),
    {
        let members = match self {
            MatchingRule::Equality => tagged_object("equality", None),
            MatchingRule::Regex(s) => tagged_object("regex", Some(("regex", Json::String(s.clone())))),
            MatchingRule::Type => tagged_object("type", None),
            MatchingRule::MinType(n) => tagged_object("type", Some(("min", Json::number(*n)))),
            MatchingRule::MaxType(n) => tagged_object("type", Some(("max", Json::number(*n)))),
            MatchingRule::MinMaxType(a, b) => {
                let mut members = tagged_object("type", Some(("min", Json::number(*a))));
                members.insert("max".to_owned(), Json::number(*b));
                members
            },
            MatchingRule::Timestamp(s) => tagged_object(
                "timestamp",
                Some(("timestamp", Json::String(s.clone()))),
            ),
            MatchingRule::Time(s) => tagged_object("time", Some(("time", Json::String(s.clone())))),
            MatchingRule::Date(s) => tagged_object("date", Some(("date", Json::String(s.clone())))),
            MatchingRule::Include(s) => tagged_object(
                "include",
                Some(("value", Json::String(s.clone()))),
            ),
            MatchingRule::Number => tagged_object("number", None),
            MatchingRule::Integer => tagged_object("integer", None),
            MatchingRule::Decimal => tagged_object("decimal", None),
            MatchingRule::Null => tagged_object("null", None),
            MatchingRule::Boolean => tagged_object("boolean", None),
            MatchingRule::ArrayContains(v) => tagged_object(
                "arrayContains",
                Some(("variants", v.duplicate())),
            ),
        };
        Json::object(members)
    }

    /// Reads the rule that a JSON object writes and that `kind` names.
    fn named(j: &Json, kind: &str) -> (r: Option<MatchingRule>)
        ensures
            r.deep_view() == named_rule(j.deep_view(), kind@),
    {
        if str_eq(kind, "equality") {
            Some(MatchingRule::Equality)
        } else if str_eq(kind, "regex") {
            match j.get_text("regex") {
                Some(s) => Some(MatchingRule::Regex(s.clone())),
                None => None,
            }
        } else if str_eq(kind, "type") {
            Some(type_rule_of(j))
        } else if str_eq(kind, "timestamp") {
            match j.get_text("timestamp") {
                Some(s) => Some(MatchingRule::Timestamp(s.clone())),
                None => None,
            }
        } else if str_eq(kind, "time") {
            match j.get_text("time") {
                Some(s) => Some(MatchingRule::Time(s.clone())),
                None => None,
            }
        } else if str_eq(kind, "date") {
            match j.get_text("date") {
                Some(s) => Some(MatchingRule::Date(s.clone())),
                None => None,
            }
        } else if str_eq(kind, "include") {
            match j.get_text("value") {
                Some(s) => Some(MatchingRule::Include(s.clone())),
                None => None,
            }
        } else if str_eq(kind, "number") {
            Some(MatchingRule::Number)
        } else if str_eq(kind, "integer") {
            Some(MatchingRule::Integer)
        } else if str_eq(kind, "decimal") || str_eq(kind, "real") {
            Some(MatchingRule::Decimal)
        } else if str_eq(kind, "null") {
            Some(MatchingRule::Null)
        } else if str_eq(kind, "boolean") {
            Some(MatchingRule::Boolean)
        } else if str_eq(kind, "arrayContains") {
            match j.get("variants") {
                Some(v) => Some(MatchingRule::ArrayContains(v.duplicate())),
                None => None,
            }
        } else {
            None
        }
    }

    /// Reads the rule that a JSON object writes, if it writes one.
    pub fn from_json(j: &Json) -> (r: Option<MatchingRule>)
        ensures
            r.deep_view() == rule_of_json(j.deep_view()),
    {
        match j.get("match") {
            Some(Json::String(kind)) => MatchingRule::named(j, kind.as_str()),
            Some(_) => None,
            None => {
                if let Some(s) = j.get_text("regex") {
                    Some(MatchingRule::Regex(s.clone()))
                } else if get_count(j, "min").is_some() || get_count(j, "max").is_some() {
                    Some(type_rule_of(j))
                } else if let Some(s) = j.get_text("timestamp") {
                    Some(MatchingRule::Timestamp(s.clone()))
                } else if let Some(s) = j.get_text("time") {
                    Some(MatchingRule::Time(s.clone()))
                } else if let Some(s) = j.get_text("date") {
                    Some(MatchingRule::Date(s.clone()))
                } else {
                    None
                }
            },
        }
    }
}

/// The rules that apply at one path, and how they combine.
#[derive(Debug, PartialEq, Eq, Hash)]
pub struct RuleList {
    pub rules: Vec<MatchingRule>,
    pub rule_logic: RuleLogic,
}

/// The mathematical value of a `RuleList`.
pub struct RuleListModel {
    pub rules: Seq<RuleModel>,
    pub rule_logic: RuleLogic,
}

impl DeepView for RuleList {
    type V = RuleListModel;

    open spec fn deep_view(&self) -> RuleListModel {
        RuleListModel { rules: self.rules.deep_view(), rule_logic: self.rule_logic }
    }
}

impl Duplicate for RuleList {
    fn duplicate(&self) -> (r: RuleList) {
        RuleList { rules: self.rules.duplicate(), rule_logic: self.rule_logic }
    }
}

/// The JSON values by which rules are written, in their order.
pub open spec fn rules_json(rules: Seq<RuleModel>) -> Seq<JsonModel> {
    Seq::new(rules.len(), |i: int| JsonModel::Object(rule_members(rules[i])))
}

/// The members by which a list of rules is written: `combine` with the
/// word of its logic, and `matchers` with its rules.
pub open spec fn rule_list_members(list: RuleListModel) -> Entries<JsonModel> {
    put(
        put(Seq::empty(), "combine"@, JsonModel::String(logic_text(list.rule_logic))),
        "matchers"@,
        JsonModel::Array(rules_json(list.rules)),
    )
}

/// The value by which a list of rules is written where a path can have but
/// one rule: its first rule, or an object without members where it has
/// none.
pub open spec fn first_rule_json(list: RuleListModel) -> JsonModel {
    if list.rules.len() > 0 {
        JsonModel::Object(rule_members(list.rules[0]))
    } else {
        JsonModel::Object(Seq::empty())
    }
}

/// The rules that the JSON values write, without the values that write
/// none.
pub open spec fn rules_of(items: Seq<JsonModel>) -> Seq<RuleModel>
    decreases items.len(),
{
    if items.len() == 0 {
        seq![]
    } else {
        match rule_of_json(items.last()) {
            Some(rule) => rules_of(items.drop_last()).push(rule),
            None => rules_of(items.drop_last()),
        }
    }
}

/// The list of rules that a JSON object writes: the rules of its member
/// `matchers`, where that is an array, with the logic of its member
/// `combine`.
pub open spec fn rule_list_of(j: JsonModel) -> RuleListModel {
    RuleListModel {
        rules: match member(j, "matchers"@) {
            Some(JsonModel::Array(items)) => rules_of(items),
            _ => seq![],
        },
        rule_logic: logic_of(text_member(j, "combine"@)),
    }
}

/// The list of the one rule that a JSON object writes, or of none.
pub open spec fn single_rule_list(j: JsonModel) -> RuleListModel {
    RuleListModel {
        rules: match rule_of_json(j) {
            Some(rule) => seq![rule],
            None => seq![],
        },
        rule_logic: RuleLogic::And,
    }
}

impl RuleList {
    /// A list of one rule.
    pub fn new(rule: MatchingRule) -> (r: RuleList)
        ensures
            r.deep_view() == (RuleListModel {
                rules: seq![rule.deep_view()],
                rule_logic: RuleLogic::And,
            }),
    {
        let mut rules: Vec<MatchingRule> = Vec::new();
        rules.push(rule);
        let r = RuleList { rules, rule_logic: RuleLogic::And };
        assert(r.deep_view().rules =~= seq![rule.deep_view()]);
        r
    }

    /// Whether the list holds no rule.
    pub fn is_empty(&self) -> (b: bool)
        ensures
            b == (self.deep_view().rules.len() == 0),
    {
        self.rules.len() == 0
    }

    /// Writes the list with all its rules and its logic.
    pub fn to_v3_json(&self) -> (r: Json)
        ensures
            r.deep_view() == JsonModel::Object(rule_list_members(self.deep_view())),
    {
        let mut items: Vec<Json> = Vec::new();
        let ghost all = rules_json(self.deep_view().rules);
        let mut i: usize = 0;
        while i < self.rules.len()
            invariant
                i <= self.rules.len(),
                all == rules_json(self.deep_view().rules),
                items.deep_view() == all.take(i as int),
            decreases self.rules.len() - i,
        {
            let item = self.rules[i].to_json();
            let ghost before = items.deep_view();
            items.push(item);
            proof {
                assert(items.deep_view() =~= before.push(item.deep_view()));
                assert(all.take(i + 1) == all.take(i as int).push(all[i as int]));
            }
            i += 1;
        }
        proof {
            assert(all.take(self.rules.len() as int) == all);
        }
        let mut members: SortedMap<Json> = SortedMap::new();
        members.insert("combine".to_owned(), Json::String(self.rule_logic.to_text()));
        members.insert("matchers".to_owned(), Json::array(items));
        Json::object(members)
    }

    /// Writes the list where a path can have but one rule.
    pub fn to_v2_json(&self) -> (r: Json)
        ensures
            r.deep_view() == first_rule_json(self.deep_view()),
    {
        if self.rules.len() > 0 {
            self.rules[0].to_json()
        } else {
            Json::object(SortedMap::new())
        }
    }

    /// Reads the list that a JSON object with `matchers` and `combine`
    /// writes.
    pub fn from_v3_json(j: &Json) -> (r: RuleList)
        ensures
            r.deep_view() == rule_list_of(j.deep_view()),
    {
        let rule_logic = match j.get_text("combine") {
            Some(word) => {
                let upper = to_uppercase(word.as_str());
                if str_eq(upper.as_str(), "OR") {
                    RuleLogic::Or
                } else {
                    RuleLogic::And
                }
            },
            None => RuleLogic::And,
        };
        let mut rules: Vec<MatchingRule> = Vec::new();
        assert(rules.deep_view() =~= Seq::<RuleModel>::empty());
        match j.get("matchers") {
            Some(m) => {
                proof {
                    lemma_json_model(*m);
                }
                match m {
                    Json::Array(items) => {
                        let ghost all = items.deep_view();
                        let mut i: usize = 0;
                        while i < items.len()
                            invariant
                                i <= items.len(),
                                all == items.deep_view(),
                                rules.deep_view() == rules_of(all.take(i as int)),
                            decreases items.len() - i,
                        {
                            proof {
                                let next = all.take(i + 1);
                                assert(next.drop_last() == all.take(i as int));
                                assert(next.last() == items@[i as int].deep_view());
                            }
                            match MatchingRule::from_json(&items[i]) {
                                Some(rule) => {
                                    let ghost before = rules.deep_view();
                                    rules.push(rule);
                                    assert(rules.deep_view() =~= before.push(rule.deep_view()));
                                },
                                None => {},
                            }
                            i += 1;
                        }
                        proof {
                            assert(all.take(items.len() as int) == all);
                        }
                    },
                    _ => {},
                }
            },
            None => {},
        }
        RuleList { rules, rule_logic }
    }

    /// Reads the list of the one rule that a JSON object writes.
    pub fn from_v2_json(j: &Json) -> (r: RuleList)
        ensures
            r.deep_view() == single_rule_list(j.deep_view()),
    {
        let mut rules: Vec<MatchingRule> = Vec::new();
        assert(rules.deep_view() =~= Seq::<RuleModel>::empty());
        match MatchingRule::from_json(j) {
            Some(rule) => {
                rules.push(rule);
                assert(rules.deep_view() =~= seq![rule.deep_view()]);
            },
            None => {},
        }
        RuleList { rules, rule_logic: RuleLogic::And }
    }
}

/// The rules of one category, such as `body` or `header`: for each path
/// expression, written as a text, the list of rules that applies there. The
/// empty text is the path of a category without paths.
#[derive(Debug, PartialEq, Eq, Hash)]
pub struct MatchingRuleCategory {
    pub name: String,
    pub rules: SortedMap<RuleList>,
}

/// The mathematical value of a `MatchingRuleCategory`.
pub struct CategoryModel {
    pub name: Seq<char>,
    pub rules: Entries<RuleListModel>,
}

impl DeepView for MatchingRuleCategory {
    type V = CategoryModel;

    open spec fn deep_view(&self) -> CategoryModel {
        CategoryModel { name: self.name@, rules: self.rules.deep_view() }
    }
}

impl Duplicate for MatchingRuleCategory {
    fn duplicate(&self) -> (r: MatchingRuleCategory) {
        MatchingRuleCategory { name: self.name.clone(), rules: self.rules.duplicate() }
    }
}

/// Whether the weight `a` is better than the weight `b`: a higher score, or
/// the same score with more tokens.
pub open spec fn better(a: (usize, usize), b: (usize, usize)) -> bool {
    a.0 > b.0 || (a.0 == b.0 && a.1 > b.1)
}

/// Among the first `n` entries, the position of the one whose path
/// expression has the best weight for `path`, if any has a score above 0;
/// of several with the best weight, the first.
pub open spec fn best_position<T>(rules: Entries<T>, path: Seq<Seq<char>>, n: nat) -> Option<int>
    decreases n,
{
    if n == 0 {
        None
    } else {
        let before = best_position(rules, path, (n - 1) as nat);
        let weight = text_weight(rules[n - 1].0, path);
        if weight.0 > 0 && (before is None || better(
            weight,
            text_weight(rules[before->0].0, path),
        )) {
            Some(n - 1)
        } else {
            before
        }
    }
}

/// The best position is one of the first `n`, its score is above 0, and no
/// entry among the first `n` has a better weight; and where there is none,
/// no entry among the first `n` has a score above 0.
pub proof fn lemma_best_position<T>(rules: Entries<T>, path: Seq<Seq<char>>, n: nat)
    requires
        n <= rules.len(),
    ensures
        match best_position(rules, path, n) {
            Some(b) => 0 <= b < n && text_weight(rules[b].0, path).0 > 0 && forall|j: int|
                0 <= j < n ==> !better(
                    text_weight(#[trigger] rules[j].0, path),
                    text_weight(rules[b].0, path),
                ),
            None => forall|j: int| 0 <= j < n ==> text_weight(#[trigger] rules[j].0, path).0 == 0,
        },
    decreases n,
{
    if n > 0 {
        lemma_best_position(rules, path, (n - 1) as nat);
        let before = best_position(rules, path, (n - 1) as nat);
        let weight = text_weight(rules[n - 1].0, path);
        match best_position(rules, path, n) {
            Some(b) => {
                let best = text_weight(rules[b].0, path);
                assert forall|j: int| 0 <= j < n implies !better(
                    text_weight(#[trigger] rules[j].0, path),
                    best,
                ) by {
                    let w = text_weight(rules[j].0, path);
                    if j < n - 1 {
                        match before {
                            Some(older) => {
                                let old_best = text_weight(rules[older].0, path);
                                assert(!better(w, old_best));
                                assert(best == old_best || better(best, old_best));
                            },
                            None => {
                                assert(w.0 == 0);
                            },
                        }
                    }
                }
            },
            None => {
                assert(before is None);
                assert forall|j: int| 0 <= j < n implies text_weight(
                    #[trigger] rules[j].0,
                    path,
                ).0 == 0 by {
                    if j == n - 1 {
                        assert(weight.0 == 0);
                    }
                }
            },
        }
    }
}

impl MatchingRuleCategory {
    /// A category without rules.
    pub fn empty(name: &str) -> (r: MatchingRuleCategory)
        ensures
            r.deep_view() == (CategoryModel { name: name@, rules: Seq::empty() }),
    {
        MatchingRuleCategory { name: name.to_owned(), rules: SortedMap::new() }
    }

    /// A category that asks for equality everywhere: one rule at the empty
    /// path.
    pub fn equality(name: &str) -> (r: MatchingRuleCategory)
        ensures
            r.deep_view() == (CategoryModel {
                name: name@,
                rules: put(
                    Seq::empty(),
                    Seq::empty(),
                    RuleListModel { rules: seq![RuleModel::Equality], rule_logic: RuleLogic::And },
                ),
            }),
    {
        let mut rules: SortedMap<RuleList> = SortedMap::new();
        rules.insert(String::new(), RuleList::new(MatchingRule::Equality));
        MatchingRuleCategory { name: name.to_owned(), rules }
    }

    /// Whether the category holds no rules.
    pub fn is_empty(&self) -> (b: bool)
        ensures
            b == (self.deep_view().rules.len() == 0),
    {
        self.rules.is_empty()
    }

    /// Whether the category holds rules.
    pub fn is_not_empty(&self) -> (b: bool)
        ensures
            b == (self.deep_view().rules.len() > 0),
    {
        !self.rules.is_empty()
    }

    /// The list of rules that applies at the concrete path `path`: that of
    /// the path expression with the highest score for it, and among those
    /// with the same score the one with the most tokens. No list applies
    /// where every score is 0.
    pub fn select_best_matcher(&self, path: &[&str]) -> (r: Option<&RuleList>)
        ensures
            match best_position(
                self.deep_view().rules,
                fragments(path@),
                self.deep_view().rules.len(),
            ) {
                Some(b) => r.deep_view() == Some(self.deep_view().rules[b].1),
                None => r is None,
            },
    {
        match best_entry(&self.rules, path) {
            Some(b) => Some(&self.rules.entries[b].1),
            None => None,
        }
    }
}

/// Finds among the entries of a map the one whose key, read as a path
/// expression, has the best weight for the concrete path `path`.
pub fn best_entry<V: DeepView>(map: &SortedMap<V>, path: &[&str]) -> (r: Option<usize>)
    ensures
        match r {
            Some(b) => b < map.entries.len() && best_position(
                map.deep_view(),
                fragments(path@),
                map.deep_view().len(),
            ) == Some(b as int),
            None => best_position(map.deep_view(), fragments(path@), map.deep_view().len())
                is None,
        },
{
    let ghost rules = map.deep_view();
    let ghost segments = fragments(path@);
    let mut best: Option<usize> = None;
    let mut best_weight: (usize, usize) = (0, 0);
    let mut i: usize = 0;
    while i < map.entries.len()
        invariant
            i <= map.entries.len(),
            rules == map.deep_view(),
            segments == fragments(path@),
            match best {
                Some(b) => b < i && best_position(rules, segments, i as nat) == Some(b as int)
                    && best_weight == text_weight(rules[b as int].0, segments),
                None => best_position(rules, segments, i as nat) is None,
            },
        decreases map.entries.len() - i,
    {
        let weight = calc_path_weight(map.entries[i].0.as_str(), path);
        let take = weight.0 > 0 && (best.is_none() || weight.0 > best_weight.0 || (weight.0
            == best_weight.0 && weight.1 > best_weight.1));
        if take {
            best = Some(i);
            best_weight = weight;
        }
        i += 1;
    }
    best
}

/// Whether a list of rules accepts a value, where `accepted` says of each
/// rule whether it accepts the value: with `And` every rule must accept it,
/// with `Or` at least one.
pub open spec fn combined(logic: RuleLogic, accepted: Seq<bool>) -> bool {
    match logic {
        RuleLogic::And => forall|i: int| 0 <= i < accepted.len() ==> #[trigger] accepted[i],
        RuleLogic::Or => exists|i: int| 0 <= i < accepted.len() && #[trigger] accepted[i],
    }
}

impl RuleLogic {
    /// Combines what the rules of a list say of a value.
    pub fn combine(&self, accepted: &Vec<bool>) -> (b: bool)
        ensures
            b == combined(*self, accepted@),
    {
        let mut i: usize = 0;
        match self {
            RuleLogic::And => {
                while i < accepted.len()
                    invariant
                        i <= accepted.len(),
                        self is And,
                        forall|k: int| 0 <= k < i ==> #[trigger] accepted@[k],
                    decreases accepted.len() - i,
                {
                    if !accepted[i] {
                        assert(!accepted@[i as int]);
                        return false;
                    }
                    i += 1;
                }
                true
            },
            RuleLogic::Or => {
                while i < accepted.len()
                    invariant
                        i <= accepted.len(),
                        self is Or,
                        forall|k: int| 0 <= k < i ==> !#[trigger] accepted@[k],
                    decreases accepted.len() - i,
                {
                    if accepted[i] {
                        assert(accepted@[i as int]);
                        return true;
                    }
                    i += 1;
                }
                false
            },
        }
    }
}

/// The matching rules of a part: its categories by their names.
#[derive(Debug, PartialEq, Eq, Hash)]
pub struct MatchingRules {
    pub rules: SortedMap<MatchingRuleCategory>,
}

impl DeepView for MatchingRules {
    type V = Entries<CategoryModel>;

    open spec fn deep_view(&self) -> Entries<CategoryModel> {
        self.rules.deep_view()
    }
}

impl Duplicate for MatchingRules {
    fn duplicate(&self) -> (r: MatchingRules) {
        MatchingRules { rules: self.rules.duplicate() }
    }
}

/// Whether every category is without rules.
pub open spec fn no_rules(cats: Entries<CategoryModel>) -> bool {
    forall|i: int| 0 <= i < cats.len() ==> (#[trigger] cats[i]).1.rules.len() == 0
}

/// The members by which the rules of a category are written: for each path
/// its list of rules.
pub open spec fn category_members(rules: Entries<RuleListModel>) -> Entries<JsonModel>
    decreases rules.len(),
{
    if rules.len() == 0 {
        seq![]
    } else {
        put(
            category_members(rules.drop_last()),
            rules.last().0,
            JsonModel::Object(rule_list_members(rules.last().1)),
        )
    }
}

/// The value by which a category is written: the list of rules itself for
/// the category `path` with rules at the empty path, else an object with a
/// member for each path.
pub open spec fn category_json(name: Seq<char>, rules: Entries<RuleListModel>) -> JsonModel {
    if name == "path"@ && crate::collections::lookup(rules, Seq::empty()) is Some {
        JsonModel::Object(
            rule_list_members(crate::collections::lookup(rules, Seq::empty())->0),
        )
    } else {
        JsonModel::Object(category_members(rules))
    }
}

/// The members by which matching rules are written in the nested form: for
/// each category its rules.
pub open spec fn nested_members(cats: Entries<CategoryModel>) -> Entries<JsonModel>
    decreases cats.len(),
{
    if cats.len() == 0 {
        seq![]
    } else {
        put(
            nested_members(cats.drop_last()),
            cats.last().0,
            category_json(cats.last().0, cats.last().1.rules),
        )
    }
}

/// The key under which the rule at `path` in `category` is written in the
/// flat form.
pub open spec fn flat_key(category: Seq<char>, path: Seq<char>) -> Seq<char> {
    if category == "path"@ {
        "$.path"@
    } else if category == "body"@ {
        if path.len() > 0 && path[0] == '$' {
            "$.body"@ + path.skip(1)
        } else {
            "$.body."@ + path
        }
    } else {
        "$."@ + category + seq!['.'] + path
    }
}

/// The flat members `acc` with those of one category added.
pub open spec fn flat_category(
    acc: Entries<JsonModel>,
    category: Seq<char>,
    rules: Entries<RuleListModel>,
) -> Entries<JsonModel>
    decreases rules.len(),
{
    if rules.len() == 0 {
        acc
    } else {
        put(
            flat_category(acc, category, rules.drop_last()),
            flat_key(category, rules.last().0),
            first_rule_json(rules.last().1),
        )
    }
}

/// The members by which matching rules are written in the flat form: one
/// member for each path of each category, with the first rule there.
pub open spec fn flat_members(cats: Entries<CategoryModel>) -> Entries<JsonModel>
    decreases cats.len(),
{
    if cats.len() == 0 {
        seq![]
    } else {
        flat_category(flat_members(cats.drop_last()), cats.last().0, cats.last().1.rules)
    }
}

/// The `n`-th piece of `s` between the separators `sep`, or the empty text
/// where `s` has fewer pieces.
pub open spec fn nth_piece(s: Seq<char>, sep: char, n: nat) -> Seq<char>
    decreases n,
{
    let e = find_char(s, sep, 0);
    if n == 0 {
        s.take(e)
    } else if e < s.len() {
        nth_piece(s.skip(e + 1), sep, (n - 1) as nat)
    } else {
        seq![]
    }
}

/// Whether `s` starts with `prefix`.
pub open spec fn starts_with(s: Seq<char>, prefix: Seq<char>) -> bool {
    s.len() >= prefix.len() && s.take(prefix.len() as int) == prefix
}

/// The category and the path that a key of the flat form stands for.
pub open spec fn split_flat_key(key: Seq<char>) -> (Seq<char>, Seq<char>) {
    if starts_with(key, "$.body"@) {
        ("body"@, seq!['$'] + key.skip(6))
    } else if starts_with(key, "$.headers"@) {
        ("header"@, nth_piece(key, '.', 2))
    } else {
        (nth_piece(key, '.', 1), nth_piece(key, '.', 2))
    }
}

/// The categories `acc` with `list` at `path` in `category`.
pub open spec fn with_rule(
    acc: Entries<CategoryModel>,
    category: Seq<char>,
    path: Seq<char>,
    list: RuleListModel,
) -> Entries<CategoryModel> {
    let rules = match crate::collections::lookup(acc, category) {
        Some(c) => c.rules,
        None => seq![],
    };
    put(acc, category, CategoryModel { name: category, rules: put(rules, path, list) })
}

/// The rules of the paths that are the members of a JSON object, or the
/// message for the first of them that is no path expression.
pub open spec fn paths_of(m: Entries<JsonModel>) -> Result<Entries<RuleListModel>, Seq<char>>
    decreases m.len(),
{
    if m.len() == 0 {
        Ok(seq![])
    } else {
        match paths_of(m.drop_last()) {
            Err(e) => Err(e),
            Ok(acc) => match parse_path(m.last().0) {
                Err(x) => Err(error_text(m.last().0, x)),
                Ok(_) => Ok(put(acc, m.last().0, rule_list_of(m.last().1))),
            },
        }
    }
}

/// The rules that the value of one category writes in the nested form.
pub open spec fn category_of(name: Seq<char>, value: JsonModel) -> Result<
    Entries<RuleListModel>,
    Seq<char>,
> {
    if name == "path"@ && member(value, "matchers"@) is Some {
        Ok(put(Seq::empty(), Seq::empty(), rule_list_of(value)))
    } else {
        match value {
            JsonModel::Object(paths) => paths_of(paths),
            _ => Ok(seq![]),
        }
    }
}

/// The categories that the members of a JSON object write in the nested
/// form, or the message for the first path that is no path expression.
pub open spec fn nested_rules(m: Entries<JsonModel>) -> Result<Entries<CategoryModel>, Seq<char>>
    decreases m.len(),
{
    if m.len() == 0 {
        Ok(seq![])
    } else {
        match nested_rules(m.drop_last()) {
            Err(e) => Err(e),
            Ok(acc) => match category_of(m.last().0, m.last().1) {
                Err(e) => Err(e),
                Ok(rules) => Ok(put(acc, m.last().0, CategoryModel { name: m.last().0, rules })),
            },
        }
    }
}

/// The categories that the members of a JSON object write in the flat form,
/// or the message for the first path that is no path expression.
pub open spec fn flat_rules(m: Entries<JsonModel>) -> Result<Entries<CategoryModel>, Seq<char>>
    decreases m.len(),
{
    if m.len() == 0 {
        Ok(seq![])
    } else {
        match flat_rules(m.drop_last()) {
            Err(e) => Err(e),
            Ok(acc) => {
                let (category, path) = split_flat_key(m.last().0);
                match parse_path(path) {
                    Err(x) => Err(error_text(path, x)),
                    Ok(_) => Ok(with_rule(acc, category, path, single_rule_list(m.last().1))),
                }
            },
        }
    }
}

/// Whether some member has a name that starts with `$`: the sign of the
/// flat form.
pub open spec fn is_flat(m: Entries<JsonModel>) -> bool {
    exists|i: int| 0 <= i < m.len() && (#[trigger] m[i]).0.len() > 0 && m[i].0[0] == '$'
}

/// The matching rules that a JSON object holds under `matchingRules`, or
/// else under the older name `deprecated_name`: none where there is no such
/// member or it is no object; else its rules in the flat or the nested
/// form.
pub open spec fn matchers_from(json: JsonModel, deprecated_name: Option<Seq<char>>) -> Result<
    Entries<CategoryModel>,
    Seq<char>,
> {
    let source = match member(json, "matchingRules"@) {
        Some(v) => Some(v),
        None => match deprecated_name {
            Some(name) => member(json, name),
            None => None,
        },
    };
    match source {
        Some(JsonModel::Object(m)) => if is_flat(m) {
            flat_rules(m)
        } else {
            nested_rules(m)
        },
        _ => Ok(seq![]),
    }
}

/// The members by which matching rules are written for a version of the
/// specification: nested from version 3 on, flat before.
pub open spec fn matchers_json(cats: Entries<CategoryModel>, nested: bool) -> JsonModel {
    if nested {
        JsonModel::Object(nested_members(cats))
    } else {
        JsonModel::Object(flat_members(cats))
    }
}

/// The `n`-th piece of `chars` between dots.
fn piece_of(chars: &Vec<char>, n: usize) -> (r: String)
    ensures
        r@ == nth_piece(chars@, '.', n as nat),
{
    let mut from: usize = 0;
    let mut k: usize = n;
    proof {
        assert(chars@.skip(0) == chars@);
    }
    loop
        invariant
            from <= chars.len(),
            k <= n,
            nth_piece(chars@, '.', n as nat) == nth_piece(chars@.skip(from as int), '.', k as nat),
        decreases k,
    {
        let ghost rest = chars@.skip(from as int);
        let mut end: usize = from;
        while end < chars.len() && chars[end] != '.'
            invariant
                from <= end <= chars.len(),
                rest == chars@.skip(from as int),
                find_char(rest, '.', 0) == find_char(rest, '.', end - from),
            decreases chars.len() - end,
        {
            proof {
                assert(rest[end - from] == chars@[end as int]);
            }
            end += 1;
        }
        proof {
            if end < chars.len() {
                assert(rest[end - from] == chars@[end as int]);
            }
        }
        if k == 0 {
            proof {
                assert(rest.take(end - from) == chars@.subrange(from as int, end as int));
            }
            return string_of_range(chars, from, end);
        }
        if end >= chars.len() {
            return String::new();
        }
        proof {
            assert(rest.skip(end - from + 1) == chars@.skip(end + 1));
        }
        from = end + 1;
        k -= 1;
    }
}

/// Whether `chars` starts with the text `prefix`.
fn has_prefix(chars: &Vec<char>, prefix: &str) -> (b: bool)
    ensures
        b == starts_with(chars@, prefix@),
{
    let p = chars_of(prefix);
    if chars.len() < p.len() {
        return false;
    }
    let mut i: usize = 0;
    while i < p.len()
        invariant
            i <= p.len() <= chars.len(),
            p@ == prefix@,
            chars@.take(i as int) == p@.take(i as int),
        decreases p.len() - i,
    {
        if chars[i] != p[i] {
            proof {
                assert(chars@.take(p.len() as int)[i as int] != p@[i as int]);
            }
            return false;
        }
        proof {
            assert(chars@.take(i + 1) == chars@.take(i as int).push(chars@[i as int]));
            assert(p@.take(i + 1) == p@.take(i as int).push(p@[i as int]));
        }
        i += 1;
    }
    proof {
        assert(p@.take(p.len() as int) == p@);
    }
    true
}

/// The category and the path that a key of the flat form stands for.
fn split_key(key: &str) -> (r: (String, String))
    ensures
        (r.0@, r.1@) == split_flat_key(key@),
{
    let chars = chars_of(key);
    if has_prefix(&chars, "$.body") {
        let mut path = String::new();
        push_char(&mut path, '$');
        proof {
            reveal_strlit("$.body");
            assert(chars@.skip(6) == chars@.subrange(6, chars.len() as int));
        }
        let rest = string_of_range(&chars, 6, chars.len());
        path.append(rest.as_str());
        ("body".to_owned(), path)
    } else if has_prefix(&chars, "$.headers") {
        ("header".to_owned(), piece_of(&chars, 2))
    } else {
        (piece_of(&chars, 1), piece_of(&chars, 2))
    }
}

/// Writes the key under which the rule at `path` in `category` stands in
/// the flat form.
fn flat_key_of(category: &str, path: &str) -> (r: String)
    ensures
        r@ == flat_key(category@, path@),
{
    if str_eq(category, "path") {
        "$.path".to_owned()
    } else if str_eq(category, "body") {
        let chars = chars_of(path);
        if chars.len() > 0 && chars[0] == '$' {
            let mut r = "$.body".to_owned();
            proof {
                assert(chars@.skip(1) == chars@.subrange(1, chars.len() as int));
            }
            let rest = string_of_range(&chars, 1, chars.len());
            r.append(rest.as_str());
            r
        } else {
            let mut r = "$.body.".to_owned();
            r.append(path);
            r
        }
    } else {
        let mut r = "$.".to_owned();
        r.append(category);
        push_char(&mut r, '.');
        r.append(path);
        r
    }
}

impl MatchingRules {
    /// Matching rules without any category.
    pub fn default() -> (r: MatchingRules)
        ensures
            r.deep_view() == Seq::<(Seq<char>, CategoryModel)>::empty(),
    {
        MatchingRules { rules: SortedMap::new() }
    }

    /// Whether no category holds a rule.
    pub fn is_empty(&self) -> (b: bool)
        ensures
            b == no_rules(self.deep_view()),
    {
        let ghost cats = self.deep_view();
        let mut i: usize = 0;
        while i < self.rules.entries.len()
            invariant
                i <= self.rules.entries.len(),
                cats == self.deep_view(),
                forall|k: int| 0 <= k < i ==> (#[trigger] cats[k]).1.rules.len() == 0,
            decreases self.rules.entries.len() - i,
        {
            if !self.rules.entries[i].1.is_empty() {
                assert(cats[i as int].1.rules.len() != 0);
                return false;
            }
            i += 1;
        }
        true
    }

    /// Whether some category holds a rule.
    pub fn is_not_empty(&self) -> (b: bool)
        ensures
            b == !no_rules(self.deep_view()),
    {
        !self.is_empty()
    }

    /// The category with the given name, if there is one.
    pub fn rules_for_category(&self, category: &str) -> (r: Option<&MatchingRuleCategory>)
        ensures
            r.deep_view() == crate::collections::lookup(self.deep_view(), category@),
    {
        self.rules.get(category)
    }

    /// Puts `list` at `path` in the category `category`, which is made if it
    /// is not there.
    pub fn add_rule_list(&mut self, category: &str, path: &str, list: RuleList)
        ensures
            final(self).deep_view() == with_rule(
                old(self).deep_view(),
                category@,
                path@,
                list.deep_view(),
            ),
    {
        let mut rules: SortedMap<RuleList> = match self.rules.get(category) {
            Some(c) => c.rules.duplicate(),
            None => SortedMap::new(),
        };
        rules.insert(path.to_owned(), list);
        self.rules.insert(
            category.to_owned(),
            MatchingRuleCategory { name: category.to_owned(), rules },
        );
    }

    /// Writes the rules in the nested form: for each category an object with
    /// a list of rules for each path.
    pub fn to_v3_json(&self) -> (r: Json)
        ensures
            r.deep_view() == JsonModel::Object(nested_members(self.deep_view())),
    {
        let mut members: SortedMap<Json> = SortedMap::new();
        let ghost cats = self.deep_view();
        let mut i: usize = 0;
        while i < self.rules.entries.len()
            invariant
                i <= self.rules.entries.len(),
                cats == self.deep_view(),
                members.deep_view() == nested_members(cats.take(i as int)),
            decreases self.rules.entries.len() - i,
        {
            let name = &self.rules.entries[i].0;
            let category = &self.rules.entries[i].1;
            proof {
                let next = cats.take(i + 1);
                assert(next.drop_last() == cats.take(i as int));
                assert(next.last() == cats[i as int]);
                assert(cats[i as int] == (name@, category.deep_view()));
            }
            let direct = if str_eq(name.as_str(), "path") {
                category.rules.get("")
            } else {
                None
            };
            proof {
                reveal_strlit("");
                assert(""@ =~= Seq::<char>::empty());
            }
            let value = match direct {
                Some(list) => list.to_v3_json(),
                None => {
                    let mut paths: SortedMap<Json> = SortedMap::new();
                    let ghost rules = category.rules.deep_view();
                    let mut j: usize = 0;
                    while j < category.rules.entries.len()
                        invariant
                            j <= category.rules.entries.len(),
                            rules == category.rules.deep_view(),
                            paths.deep_view() == category_members(rules.take(j as int)),
                        decreases category.rules.entries.len() - j,
                    {
                        proof {
                            let next = rules.take(j + 1);
                            assert(next.drop_last() == rules.take(j as int));
                            assert(next.last() == rules[j as int]);
                        }
                        paths.insert(
                            category.rules.entries[j].0.clone(),
                            category.rules.entries[j].1.to_v3_json(),
                        );
                        j += 1;
                    }
                    proof {
                        assert(rules.take(category.rules.entries.len() as int) == rules);
                    }
                    Json::object(paths)
                },
            };
            members.insert(name.clone(), value);
            i += 1;
        }
        proof {
            assert(cats.take(self.rules.entries.len() as int) == cats);
        }
        Json::object(members)
    }

    /// Writes the rules in the flat form: one member for each path of each
    /// category, with the first rule there.
    pub fn to_v2_json(&self) -> (r: Json)
        ensures
            r.deep_view() == JsonModel::Object(flat_members(self.deep_view())),
    {
        let mut members: SortedMap<Json> = SortedMap::new();
        let ghost cats = self.deep_view();
        let mut i: usize = 0;
        while i < self.rules.entries.len()
            invariant
                i <= self.rules.entries.len(),
                cats == self.deep_view(),
                members.deep_view() == flat_members(cats.take(i as int)),
            decreases self.rules.entries.len() - i,
        {
            let name = &self.rules.entries[i].0;
            let category = &self.rules.entries[i].1;
            let ghost rules = category.rules.deep_view();
            let ghost before = members.deep_view();
            proof {
                let next = cats.take(i + 1);
                assert(next.drop_last() == cats.take(i as int));
                assert(next.last() == cats[i as int]);
                assert(cats[i as int] == (name@, category.deep_view()));
            }
            let mut j: usize = 0;
            while j < category.rules.entries.len()
                invariant
                    j <= category.rules.entries.len(),
                    rules == category.rules.deep_view(),
                    members.deep_view() == flat_category(before, name@, rules.take(j as int)),
                decreases category.rules.entries.len() - j,
            {
                proof {
                    let next = rules.take(j + 1);
                    assert(next.drop_last() == rules.take(j as int));
                    assert(next.last() == rules[j as int]);
                }
                members.insert(
                    flat_key_of(name.as_str(), category.rules.entries[j].0.as_str()),
                    category.rules.entries[j].1.to_v2_json(),
                );
                j += 1;
            }
            proof {
                assert(rules.take(category.rules.entries.len() as int) == rules);
            }
            i += 1;
        }
        proof {
            assert(cats.take(self.rules.entries.len() as int) == cats);
        }
        Json::object(members)
    }
}

/// Reads the rules of the paths that are the members of a JSON object.
fn paths_from_json(paths: &SortedMap<Json>) -> (r: Result<SortedMap<RuleList>, String>)
    ensures
        match r {
            Ok(rules) => paths_of(paths.deep_view()) == Ok::<Entries<RuleListModel>, Seq<char>>(
                rules.deep_view(),
            ),
            Err(e) => paths_of(paths.deep_view()) == Err::<Entries<RuleListModel>, Seq<char>>(e@),
        },
{
    let mut rules: SortedMap<RuleList> = SortedMap::new();
    let ghost m = paths.deep_view();
    let mut i: usize = 0;
    while i < paths.entries.len()
        invariant
            i <= paths.entries.len(),
            m == paths.deep_view(),
            paths_of(m.take(i as int)) == Ok::<Entries<RuleListModel>, Seq<char>>(
                rules.deep_view(),
            ),
        decreases paths.entries.len() - i,
    {
        let key = &paths.entries[i].0;
        proof {
            let next = m.take(i + 1);
            assert(next.drop_last() == m.take(i as int));
            assert(next.last() == m[i as int]);
        }
        match parse_path_exp(key.as_str()) {
            Err(message) => {
                proof {
                    lemma_paths_error(m, i + 1);
                }
                return Err(message);
            },
            Ok(_) => {
                rules.insert(key.clone(), RuleList::from_v3_json(&paths.entries[i].1));
            },
        }
        i += 1;
    }
    proof {
        assert(m.take(paths.entries.len() as int) == m);
    }
    Ok(rules)
}

/// An error among the first `n` members is the error of all of them.
proof fn lemma_paths_error(m: Entries<JsonModel>, n: int)
    requires
        0 <= n <= m.len(),
        paths_of(m.take(n)) is Err,
    ensures
        paths_of(m) == paths_of(m.take(n)),
    decreases m.len() - n,
{
    if n == m.len() {
        assert(m.take(n) == m);
    } else {
        let next = m.take(n + 1);
        assert(next.drop_last() == m.take(n));
        lemma_paths_error(m, n + 1);
    }
}

/// An error among the first `n` members is the error of all of them.
proof fn lemma_nested_error(m: Entries<JsonModel>, n: int)
    requires
        0 <= n <= m.len(),
        nested_rules(m.take(n)) is Err,
    ensures
        nested_rules(m) == nested_rules(m.take(n)),
    decreases m.len() - n,
{
    if n == m.len() {
        assert(m.take(n) == m);
    } else {
        let next = m.take(n + 1);
        assert(next.drop_last() == m.take(n));
        lemma_nested_error(m, n + 1);
    }
}

/// An error among the first `n` members is the error of all of them.
proof fn lemma_flat_error(m: Entries<JsonModel>, n: int)
    requires
        0 <= n <= m.len(),
        flat_rules(m.take(n)) is Err,
    ensures
        flat_rules(m) == flat_rules(m.take(n)),
    decreases m.len() - n,
{
    if n == m.len() {
        assert(m.take(n) == m);
    } else {
        let next = m.take(n + 1);
        assert(next.drop_last() == m.take(n));
        lemma_flat_error(m, n + 1);
    }
}

/// Reads the matching rules that the members of a JSON object write in the
/// nested form.
fn nested_from_json(source: &SortedMap<Json>) -> (r: Result<MatchingRules, String>)
    ensures
        match r {
            Ok(rules) => nested_rules(source.deep_view()) == Ok::<
                Entries<CategoryModel>,
                Seq<char>,
            >(rules.deep_view()),
            Err(e) => nested_rules(source.deep_view()) == Err::<Entries<CategoryModel>, Seq<char>>(
                e@,
            ),
        },
{
    let mut cats: SortedMap<MatchingRuleCategory> = SortedMap::new();
    let ghost m = source.deep_view();
    let mut i: usize = 0;
    while i < source.entries.len()
        invariant
            i <= source.entries.len(),
            m == source.deep_view(),
            nested_rules(m.take(i as int)) == Ok::<Entries<CategoryModel>, Seq<char>>(
                cats.deep_view(),
            ),
        decreases source.entries.len() - i,
    {
        let name = &source.entries[i].0;
        let value = &source.entries[i].1;
        proof {
            let next = m.take(i + 1);
            assert(next.drop_last() == m.take(i as int));
            assert(next.last() == m[i as int]);
            lemma_json_model(*value);
            reveal_strlit("");
            assert(""@ =~= Seq::<char>::empty());
        }
        let rules = if str_eq(name.as_str(), "path") && value.get("matchers").is_some() {
            let mut rules: SortedMap<RuleList> = SortedMap::new();
            rules.insert(String::new(), RuleList::from_v3_json(value));
            rules
        } else {
            match value {
                Json::Object(paths) => match paths_from_json(paths) {
                    Ok(rules) => rules,
                    Err(e) => {
                        proof {
                            lemma_nested_error(m, i + 1);
                        }
                        return Err(e);
                    },
                },
                _ => SortedMap::new(),
            }
        };
        cats.insert(name.clone(), MatchingRuleCategory { name: name.clone(), rules });
        i += 1;
    }
    proof {
        assert(m.take(source.entries.len() as int) == m);
    }
    Ok(MatchingRules { rules: cats })
}

/// Reads the matching rules that the members of a JSON object write in the
/// flat form.
fn flat_from_json(source: &SortedMap<Json>) -> (r: Result<MatchingRules, String>)
    ensures
        match r {
            Ok(rules) => flat_rules(source.deep_view()) == Ok::<Entries<CategoryModel>, Seq<char>>(
                rules.deep_view(),
            ),
            Err(e) => flat_rules(source.deep_view()) == Err::<Entries<CategoryModel>, Seq<char>>(
                e@,
            ),
        },
{
    let mut rules = MatchingRules::default();
    let ghost m = source.deep_view();
    let mut i: usize = 0;
    while i < source.entries.len()
        invariant
            i <= source.entries.len(),
            m == source.deep_view(),
            flat_rules(m.take(i as int)) == Ok::<Entries<CategoryModel>, Seq<char>>(
                rules.deep_view(),
            ),
        decreases source.entries.len() - i,
    {
        proof {
            let next = m.take(i + 1);
            assert(next.drop_last() == m.take(i as int));
            assert(next.last() == m[i as int]);
        }
        let (category, path) = split_key(source.entries[i].0.as_str());
        match parse_path_exp(path.as_str()) {
            Err(message) => {
                proof {
                    lemma_flat_error(m, i + 1);
                }
                return Err(message);
            },
            Ok(_) => {
                rules.add_rule_list(
                    category.as_str(),
                    path.as_str(),
                    RuleList::from_v2_json(&source.entries[i].1),
                );
            },
        }
        i += 1;
    }
    proof {
        assert(m.take(source.entries.len() as int) == m);
    }
    Ok(rules)
}

/// Whether some member has a name that starts with `$`.
fn has_flat_key(source: &SortedMap<Json>) -> (b: bool)
    ensures
        b == is_flat(source.deep_view()),
{
    let ghost m = source.deep_view();
    let mut i: usize = 0;
    while i < source.entries.len()
        invariant
            i <= source.entries.len(),
            m == source.deep_view(),
            forall|k: int| 0 <= k < i ==> !((#[trigger] m[k]).0.len() > 0 && m[k].0[0] == '$'),
        decreases source.entries.len() - i,
    {
        let chars = chars_of(source.entries[i].0.as_str());
        if chars.len() > 0 && chars[0] == '$' {
            assert(m[i as int].0.len() > 0 && m[i as int].0[0] == '$');
            return true;
        }
        i += 1;
    }
    false
}

/// Reads the matching rules of a part from its JSON form: those under
/// `matchingRules`, or else under the older name `deprecated_name`. A path
/// that is no path expression is an error.
pub fn matchers_from_json(value: &Json, deprecated_name: &Option<String>) -> (r: Result<
    MatchingRules,
    String,
>)
    ensures
        match r {
            Ok(rules) => matchers_from(value.deep_view(), deprecated_name.deep_view()) == Ok::<
                Entries<CategoryModel>,
                Seq<char>,
            >(rules.deep_view()),
            Err(e) => matchers_from(value.deep_view(), deprecated_name.deep_view()) == Err::<
                Entries<CategoryModel>,
                Seq<char>,
            >(e@),
        },
{
    let source = match value.get("matchingRules") {
        Some(v) => Some(v),
        None => match deprecated_name {
            Some(name) => value.get(name.as_str()),
            None => None,
        },
    };
    match source {
        Some(v) => {
            proof {
                lemma_json_model(*v);
            }
            match v {
                Json::Object(m) => if has_flat_key(m) {
                    flat_from_json(m)
                } else {
                    nested_from_json(m)
                },
                _ => Ok(MatchingRules::default()),
            }
        },
        None => Ok(MatchingRules::default()),
    }
}

/// Writes the matching rules of a part: nested where `nested` holds, as from
/// version 3 of the specification on, else flat.
pub fn matchers_to_json(rules: &MatchingRules, nested: bool) -> (r: Json)
    ensures
        r.deep_view() == matchers_json(rules.deep_view(), nested),
{
    if nested {
        rules.to_v3_json()
    } else {
        rules.to_v2_json()
    }
}

impl Same for MatchingRule {
    fn same(&self, other: &MatchingRule) -> (b: bool) {
        match (self, other) {
            (MatchingRule::Equality, MatchingRule::Equality) => true,
            (MatchingRule::Regex(a), MatchingRule::Regex(b)) => *a == *b,
            (MatchingRule::Type, MatchingRule::Type) => true,
            (MatchingRule::MinType(a), MatchingRule::MinType(b)) => *a == *b,
            (MatchingRule::MaxType(a), MatchingRule::MaxType(b)) => *a == *b,
            (MatchingRule::MinMaxType(a, c), MatchingRule::MinMaxType(b, d)) => *a == *b && *c
                == *d,
            (MatchingRule::Timestamp(a), MatchingRule::Timestamp(b)) => *a == *b,
            (MatchingRule::Time(a), MatchingRule::Time(b)) => *a == *b,
            (MatchingRule::Date(a), MatchingRule::Date(b)) => *a == *b,
            (MatchingRule::Include(a), MatchingRule::Include(b)) => *a == *b,
            (MatchingRule::Number, MatchingRule::Number) => true,
            (MatchingRule::Integer, MatchingRule::Integer) => true,
            (MatchingRule::Decimal, MatchingRule::Decimal) => true,
            (MatchingRule::Null, MatchingRule::Null) => true,
            (MatchingRule::Boolean, MatchingRule::Boolean) => true,
            (MatchingRule::ArrayContains(a), MatchingRule::ArrayContains(b)) => a.same(b),
            _ => false,
        }
    }
}

impl Same for RuleList {
    fn same(&self, other: &RuleList) -> (b: bool) {
        let logic = match (self.rule_logic, other.rule_logic) {
            (RuleLogic::And, RuleLogic::And) => true,
            (RuleLogic::Or, RuleLogic::Or) => true,
            _ => false,
        };
        logic && self.rules.same(&other.rules)
    }
}

impl Same for MatchingRuleCategory {
    fn same(&self, other: &MatchingRuleCategory) -> (b: bool) {
        self.name == other.name && self.rules.same(&other.rules)
    }
}

impl Same for MatchingRules {
    fn same(&self, other: &MatchingRules) -> (b: bool) {
        self.rules.same(&other.rules)
    }
}

/// The categories with the name `old` changed to `new`.
pub open spec fn renamed(cats: Entries<CategoryModel>, old: Seq<char>, new: Seq<char>) -> Entries<
    CategoryModel,
>
    decreases cats.len(),
{
    if cats.len() == 0 {
        seq![]
    } else {
        let name = if cats.last().0 == old {
            new
        } else {
            cats.last().0
        };
        put(
            renamed(cats.drop_last(), old, new),
            name,
            CategoryModel { name, rules: cats.last().1.rules },
        )
    }
}

impl MatchingRules {
    /// The same rules with the category `old_name` under the name
    /// `new_name`.
    pub fn rename(&self, old_name: &str, new_name: &str) -> (r: MatchingRules)
        ensures
            r.deep_view() == renamed(self.deep_view(), old_name@, new_name@),
    {
        let mut cats: SortedMap<MatchingRuleCategory> = SortedMap::new();
        let ghost all = self.deep_view();
        let mut i: usize = 0;
        while i < self.rules.entries.len()
            invariant
                i <= self.rules.entries.len(),
                all == self.deep_view(),
                cats.deep_view() == renamed(all.take(i as int), old_name@, new_name@),
            decreases self.rules.entries.len() - i,
        {
            proof {
                let next = all.take(i + 1);
                assert(next.drop_last() == all.take(i as int));
                assert(next.last() == all[i as int]);
            }
            let name = if str_eq(self.rules.entries[i].0.as_str(), old_name) {
                new_name.to_owned()
            } else {
                self.rules.entries[i].0.clone()
            };
            cats.insert(
                name.clone(),
                MatchingRuleCategory { name, rules: self.rules.entries[i].1.rules.duplicate() },
            );
            i += 1;
        }
        proof {
            assert(all.take(self.rules.entries.len() as int) == all);
        }
        MatchingRules { rules: cats }
    }
}

} // verus!
