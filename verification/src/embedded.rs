//! The generators of a category of a part: those that the part names
//! itself, together with those that its matching rules hold.

use vstd::prelude::*;
use crate::collections::{has_key, lookup, put, Duplicate, Entries, SortedMap};
use crate::generators::{generator_of, Generator, GeneratorModel, Generators, GeneratorsModel};
use crate::json::{lemma_json_model, member, Json, JsonModel};
use crate::matchingrules::{
    CategoryModel, MatchingRule, MatchingRuleCategory, MatchingRules, RuleListModel, RuleModel,
};

verus! {

/// A generator with the path that it is for.
pub type Placed = (Seq<char>, GeneratorModel);

/// The generators that the members of a JSON object write, each with its
/// name, without the members that write none.
pub open spec fn generators_in(m: Entries<JsonModel>) -> Seq<Placed>
    decreases m.len(),
{
    if m.len() == 0 {
        seq![]
    } else {
        match generator_of(m.last().1) {
            Some(g) => generators_in(m.drop_last()).push((m.last().0, g)),
            None => generators_in(m.drop_last()),
        }
    }
}

/// The generators that one variant of a rule on the items of an array
/// holds under `generators`.
pub open spec fn variant_generators(variant: JsonModel) -> Seq<Placed> {
    match member(variant, "generators"@) {
        Some(JsonModel::Object(m)) => generators_in(m),
        _ => seq![],
    }
}

/// The generators that the variants hold, in the order of the variants.
pub open spec fn variants_generators(variants: Seq<JsonModel>) -> Seq<Placed>
    decreases variants.len(),
{
    if variants.len() == 0 {
        seq![]
    } else {
        variants_generators(variants.drop_last()) + variant_generators(variants.last())
    }
}

/// The generators that a rule holds: those of its variants where it is a
/// rule on the items of an array.
pub open spec fn rule_generators(rule: RuleModel) -> Seq<Placed> {
    match rule {
        RuleModel::ArrayContains(JsonModel::Array(variants)) => variants_generators(variants),
        _ => seq![],
    }
}

/// The generators that rules hold, in the order of the rules.
pub open spec fn rules_generators(rules: Seq<RuleModel>) -> Seq<Placed>
    decreases rules.len(),
{
    if rules.len() == 0 {
        seq![]
    } else {
        rules_generators(rules.drop_last()) + rule_generators(rules.last())
    }
}

/// The generators that the rules of a category hold, in the order of its
/// paths.
pub open spec fn embedded_generators(rules: Entries<RuleListModel>) -> Seq<Placed>
    decreases rules.len(),
{
    if rules.len() == 0 {
        seq![]
    } else {
        embedded_generators(rules.drop_last()) + rules_generators(rules.last().1.rules)
    }
}

/// The generators `acc` with those of `more` whose paths have none yet:
/// a generator that is there is never replaced.
pub open spec fn with_missing(acc: Entries<GeneratorModel>, more: Seq<Placed>) -> Entries<
    GeneratorModel,
>
    decreases more.len(),
{
    if more.len() == 0 {
        acc
    } else {
        let before = with_missing(acc, more.drop_last());
        if has_key(before, more.last().0) {
            before
        } else {
            put(before, more.last().0, more.last().1)
        }
    }
}

/// The generators of the category `category` of a part: those that the part
/// names for it, and those that its matching rules for it hold, for the
/// paths that the part names none for.
pub open spec fn built_generators(
    generators: GeneratorsModel,
    matching_rules: Entries<CategoryModel>,
    category: Seq<char>,
) -> Entries<GeneratorModel> {
    let explicit = match lookup(generators, category) {
        Some(g) => g,
        None => seq![],
    };
    match lookup(matching_rules, category) {
        Some(c) => with_missing(explicit, embedded_generators(c.rules)),
        None => explicit,
    }
}

/// Adds to `acc` those of the generators `more` whose paths have none yet.
fn add_missing(acc: &mut SortedMap<Generator>, more: &Vec<(String, Generator)>)
    ensures
        final(acc).deep_view() == with_missing(old(acc).deep_view(), more.deep_view()),
{
    let ghost start = acc.deep_view();
    let ghost all = more.deep_view();
    let mut i: usize = 0;
    while i < more.len()
        invariant
            i <= more.len(),
            all == more.deep_view(),
            acc.deep_view() == with_missing(start, all.take(i as int)),
        decreases more.len() - i,
    {
        proof {
            let next = all.take(i + 1);
            assert(next.drop_last() == all.take(i as int));
            assert(next.last() == all[i as int]);
            assert(all[i as int] == (more@[i as int].0@, more@[i as int].1.deep_view()));
        }
        if !acc.contains_key(more[i].0.as_str()) {
            acc.insert(more[i].0.clone(), more[i].1.duplicate());
        }
        i += 1;
    }
    proof {
        assert(all.take(more.len() as int) == all);
    }
}

/// Appends to `found` the generators that one variant holds.
fn collect_variant(found: &mut Vec<(String, Generator)>, variant: &Json)
    ensures
        final(found).deep_view() == old(found).deep_view() + variant_generators(
            variant.deep_view(),
        ),
{
    let ghost start = found.deep_view();
    match variant.get("generators") {
        Some(v) => {
            proof {
                lemma_json_model(*v);
            }
            match v {
                Json::Object(m) => {
                    let ghost all = m.deep_view();
                    let mut i: usize = 0;
                    proof {
                        assert(start + generators_in(all.take(0)) == start);
                    }
                    while i < m.entries.len()
                        invariant
                            i <= m.entries.len(),
                            all == m.deep_view(),
                            found.deep_view() == start + generators_in(all.take(i as int)),
                        decreases m.entries.len() - i,
                    {
                        proof {
                            let next = all.take(i + 1);
                            assert(next.drop_last() == all.take(i as int));
                            assert(next.last() == all[i as int]);
                        }
                        match Generator::from_json(&m.entries[i].1) {
                            Some(g) => {
                                let ghost before = found.deep_view();
                                let key = m.entries[i].0.clone();
                                found.push((key, g));
                                proof {
                                    assert(found.deep_view() =~= before.push(
                                        (key@, g.deep_view()),
                                    ));
                                    assert(start + generators_in(all.take(i as int)).push(
                                        (key@, g.deep_view()),
                                    ) == (start + generators_in(all.take(i as int))).push(
                                        (key@, g.deep_view()),
                                    ));
                                }
                            },
                            None => {},
                        }
                        i += 1;
                    }
                    proof {
                        assert(all.take(m.entries.len() as int) == all);
                    }
                },
                _ => {
                    assert(start + Seq::<Placed>::empty() == start);
                },
            }
        },
        None => {
            assert(start + Seq::<Placed>::empty() == start);
        },
    }
}

/// Appends to `found` the generators that one rule holds.
fn collect_rule(found: &mut Vec<(String, Generator)>, rule: &MatchingRule)
    ensures
        final(found).deep_view() == old(found).deep_view() + rule_generators(rule.deep_view()),
{
    let ghost start = found.deep_view();
    proof {
        assert(start + Seq::<Placed>::empty() == start);
    }
    match rule {
        MatchingRule::ArrayContains(value) => {
            proof {
                lemma_json_model(*value);
            }
            match value {
                Json::Array(variants) => {
                    let ghost all = variants.deep_view();
                    let mut i: usize = 0;
                    proof {
                        assert(start + variants_generators(all.take(0)) == start);
                    }
                    while i < variants.len()
                        invariant
                            i <= variants.len(),
                            all == variants.deep_view(),
                            found.deep_view() == start + variants_generators(all.take(i as int)),
                        decreases variants.len() - i,
                    {
                        proof {
                            let next = all.take(i + 1);
                            assert(next.drop_last() == all.take(i as int));
                            assert(next.last() == variants@[i as int].deep_view());
                            assert(start + (variants_generators(all.take(i as int))
                                + variant_generators(next.last())) == (start
                                + variants_generators(all.take(i as int))) + variant_generators(
                                next.last(),
                            ));
                        }
                        collect_variant(found, &variants[i]);
                        i += 1;
                    }
                    proof {
                        assert(all.take(variants.len() as int) == all);
                    }
                },
                _ => {},
            }
        },
        _ => {},
    }
}

/// The generators that the rules of a category hold.
pub fn generators_of_rules(category: &MatchingRuleCategory) -> (r: Vec<(String, Generator)>)
    ensures
        r.deep_view() == embedded_generators(category.deep_view().rules),
{
    let mut found: Vec<(String, Generator)> = Vec::new();
    assert(found.deep_view() =~= Seq::<Placed>::empty());
    let ghost all = category.rules.deep_view();
    let mut i: usize = 0;
    while i < category.rules.entries.len()
        invariant
            i <= category.rules.entries.len(),
            all == category.rules.deep_view(),
            found.deep_view() == embedded_generators(all.take(i as int)),
        decreases category.rules.entries.len() - i,
    {
        let list = &category.rules.entries[i].1;
        let ghost start = found.deep_view();
        let ghost rules = list.deep_view().rules;
        proof {
            let next = all.take(i + 1);
            assert(next.drop_last() == all.take(i as int));
            assert(next.last() == all[i as int]);
            assert(all[i as int].1 == list.deep_view());
            assert(start + rules_generators(rules.take(0)) == start);
        }
        let mut k: usize = 0;
        while k < list.rules.len()
            invariant
                k <= list.rules.len(),
                rules == list.rules.deep_view(),
                found.deep_view() == start + rules_generators(rules.take(k as int)),
            decreases list.rules.len() - k,
        {
            proof {
                let next = rules.take(k + 1);
                assert(next.drop_last() == rules.take(k as int));
                assert(next.last() == list.rules@[k as int].deep_view());
                assert(start + (rules_generators(rules.take(k as int)) + rule_generators(
                    next.last(),
                )) == (start + rules_generators(rules.take(k as int))) + rule_generators(
                    next.last(),
                ));
            }
            collect_rule(&mut found, &list.rules[k]);
            k += 1;
        }
        proof {
            assert(rules.take(list.rules.len() as int) == rules);
        }
        i += 1;
    }
    proof {
        assert(all.take(category.rules.entries.len() as int) == all);
    }
    found
}

/// Builds the generators of the category `category` of a part from its
/// generators and its matching rules.
pub fn build_generators(generators: &Generators, matching_rules: &MatchingRules, category: &str) -> (r:
    SortedMap<Generator>)
    ensures
        r.deep_view() == built_generators(
            generators.deep_view(),
            matching_rules.deep_view(),
            category@,
        ),
{
    let mut built: SortedMap<Generator> = match generators.categories.get(category) {
        Some(g) => g.duplicate(),
        None => SortedMap::new(),
    };
    match matching_rules.rules_for_category(category) {
        Some(rules) => {
            let more = generators_of_rules(rules);
            add_missing(&mut built, &more);
        },
        None => {},
    }
    built
}

} // verus!
