//! What holds of every generator and of the generators of a part: they
//! are read back as they were written.

use vstd::prelude::*;
use crate::collections::{
    keys_increasing, lemma_position, lemma_put, lemma_put_last, lookup, position, Entries,
};
use crate::generators::{
    all_generators, attributes_of, category_generators, generator_members, generator_of,
    generators_category_json, generators_from, generators_members, path_generators,
    path_members, single_category, GeneratorModel, GeneratorsModel,
};
use crate::json::{member, JsonModel};
use crate::path_exp::parse_path;
use crate::text::text_order;

verus! {

/// Whether a generator is in a form that is written without loss: the
/// names of its attributes are increasing, and none is `type`, under which
/// its kind is written.
pub open spec fn generator_form(g: GeneratorModel) -> bool {
    &&& keys_increasing(g.attributes)
    &&& forall|i: int| 0 <= i < g.attributes.len() ==> (#[trigger] g.attributes[i]).0 != "type"@
}

/// Members with increasing names of which none is `type` are all
/// attributes.
proof fn lemma_all_attributes(m: Entries<JsonModel>)
    requires
        keys_increasing(m),
        forall|i: int| 0 <= i < m.len() ==> (#[trigger] m[i]).0 != "type"@,
    ensures
        attributes_of(m) == m,
    decreases m.len(),
{
    if m.len() == 0 {
        assert(m =~= Seq::<(Seq<char>, JsonModel)>::empty());
    } else {
        let init = m.drop_last();
        let last = m.last();
        assert forall|i: int, j: int| 0 <= i < j < init.len() implies text_order(
            #[trigger] init[i].0,
            #[trigger] init[j].0,
        ) < 0 by {
            assert(init[i] == m[i] && init[j] == m[j]);
        }
        assert forall|i: int| 0 <= i < init.len() implies (#[trigger] init[i]).0 != "type"@ by {
            assert(init[i] == m[i]);
        }
        lemma_all_attributes(init);
        assert(m[m.len() - 1].0 != "type"@);
        assert forall|i: int| 0 <= i < init.len() implies text_order(
            #[trigger] init[i].0,
            last.0,
        ) < 0 by {
            assert(init[i] == m[i]);
            assert(text_order(m[i].0, m[m.len() - 1].0) < 0);
        }
        lemma_put_last(init, last.0, last.1);
        assert(init.push((last.0, last.1)) =~= m);
    }
}

/// Among members with increasing names of which none is `type`, a member
/// `type` that is put at any place leaves the attributes as they were.
proof fn lemma_attributes_without_type(m: Entries<JsonModel>, p: int, v: JsonModel)
    requires
        keys_increasing(m),
        forall|i: int| 0 <= i < m.len() ==> (#[trigger] m[i]).0 != "type"@,
        0 <= p <= m.len(),
    ensures
        attributes_of(m.insert(p, ("type"@, v))) == m,
    decreases m.len(),
{
    let all = m.insert(p, ("type"@, v));
    if p == m.len() {
        assert(all.drop_last() =~= m);
        assert(all.last() == ("type"@, v));
        lemma_all_attributes(m);
    } else {
        let init = m.drop_last();
        let last = m.last();
        assert forall|i: int, j: int| 0 <= i < j < init.len() implies text_order(
            #[trigger] init[i].0,
            #[trigger] init[j].0,
        ) < 0 by {
            assert(init[i] == m[i] && init[j] == m[j]);
        }
        assert forall|i: int| 0 <= i < init.len() implies (#[trigger] init[i]).0 != "type"@ by {
            assert(init[i] == m[i]);
        }
        lemma_attributes_without_type(init, p, v);
        assert(all.drop_last() =~= init.insert(p, ("type"@, v)));
        assert(all.last() == last);
        assert(m[m.len() - 1].0 != "type"@);
        assert forall|i: int| 0 <= i < init.len() implies text_order(
            #[trigger] init[i].0,
            last.0,
        ) < 0 by {
            assert(init[i] == m[i]);
            assert(text_order(m[i].0, m[m.len() - 1].0) < 0);
        }
        lemma_put_last(init, last.0, last.1);
        assert(init.push((last.0, last.1)) =~= m);
    }
}

/// A generator in such a form is read back from the JSON object that it is
/// written as, with its kind and its attributes.
pub proof fn lemma_generator_round_trip(g: GeneratorModel)
    requires
        generator_form(g),
    ensures
        generator_of(JsonModel::Object(generator_members(g))) == Some(g),
{
    let v = JsonModel::String(g.kind);
    lemma_put(g.attributes, "type"@, v);
    lemma_position(g.attributes, "type"@);
    let p = position(g.attributes, "type"@);
    if p < g.attributes.len() {
        assert(g.attributes[p].0 != "type"@);
    }
    lemma_attributes_without_type(g.attributes, p, v);
}

/// Whether the generators of the category `name` are in a form that is
/// written without loss: the paths are increasing and are all path
/// expressions, every generator is in such a form, and a category whose
/// generator stands for the whole of it has at most that one, at the empty
/// path.
pub open spec fn generators_category_form(name: Seq<char>, generators: Entries<GeneratorModel>) -> bool {
    &&& keys_increasing(generators)
    &&& forall|i: int|
        0 <= i < generators.len() ==> parse_path((#[trigger] generators[i]).0) is Ok
            && generator_form(generators[i].1)
    &&& single_category(name) ==> generators.len() == 0 || (generators.len() == 1
        && generators[0].0.len() == 0)
}

/// The generators of paths that are increasing and are all path
/// expressions are read back from the members that they are written as,
/// path by path.
pub proof fn lemma_path_generators_round_trip(generators: Entries<GeneratorModel>)
    requires
        keys_increasing(generators),
        forall|i: int|
            0 <= i < generators.len() ==> parse_path((#[trigger] generators[i]).0) is Ok
                && generator_form(generators[i].1),
    ensures
        path_members(generators) == Seq::new(
            generators.len(),
            |i: int| (generators[i].0, JsonModel::Object(generator_members(generators[i].1))),
        ),
        path_generators(path_members(generators)) == Ok::<Entries<GeneratorModel>, Seq<char>>(
            generators,
        ),
    decreases generators.len(),
{
    let written = Seq::new(
        generators.len(),
        |i: int| (generators[i].0, JsonModel::Object(generator_members(generators[i].1))),
    );
    if generators.len() == 0 {
        assert(path_members(generators) =~= written);
        assert(generators =~= Seq::<(Seq<char>, GeneratorModel)>::empty());
    } else {
        let init = generators.drop_last();
        let last = generators.last();
        assert forall|i: int, j: int| 0 <= i < j < init.len() implies text_order(
            #[trigger] init[i].0,
            #[trigger] init[j].0,
        ) < 0 by {
            assert(init[i] == generators[i] && init[j] == generators[j]);
        }
        assert forall|i: int| 0 <= i < init.len() implies parse_path((#[trigger] init[i]).0) is Ok
            && generator_form(init[i].1) by {
            assert(init[i] == generators[i]);
        }
        lemma_path_generators_round_trip(init);
        let before = path_members(init);
        let v = JsonModel::Object(generator_members(last.1));
        assert forall|i: int| 0 <= i < before.len() implies text_order(
            #[trigger] before[i].0,
            last.0,
        ) < 0 by {
            assert(init[i] == generators[i]);
            assert(text_order(generators[i].0, generators[generators.len() - 1].0) < 0);
        }
        lemma_put_last(before, last.0, v);
        assert(path_members(generators) =~= written);
        assert(written.drop_last() =~= before);
        assert(written.last() == (last.0, v));
        assert(generator_form(generators[generators.len() - 1].1));
        lemma_generator_round_trip(last.1);
        assert forall|i: int| 0 <= i < init.len() implies text_order(
            #[trigger] init[i].0,
            last.0,
        ) < 0 by {
            assert(init[i] == generators[i]);
            assert(text_order(generators[i].0, generators[generators.len() - 1].0) < 0);
        }
        lemma_put_last(init, last.0, last.1);
        assert(init.push((last.0, last.1)) =~= generators);
    }
}

/// The generators of a category in such a form are read back from the
/// value that they are written as.
pub proof fn lemma_generators_category_round_trip(
    name: Seq<char>,
    generators: Entries<GeneratorModel>,
)
    requires
        generators_category_form(name, generators),
    ensures
        category_generators(name, generators_category_json(name, generators)) == Ok::<
            Entries<GeneratorModel>,
            Seq<char>,
        >(generators),
{
    let nothing = Seq::<char>::empty();
    if single_category(name) {
        if generators.len() == 0 {
            assert(generators =~= Seq::<(Seq<char>, GeneratorModel)>::empty());
            assert(path_members(generators) =~= Seq::<(Seq<char>, JsonModel)>::empty());
        } else {
            assert(generators[0].0 =~= nothing);
            assert(generators.drop_first().len() == 0);
            assert(lookup(generators, nothing) == Some(generators[0].1));
            let g = generators[0].1;
            lemma_generator_round_trip(g);
            lemma_put_last(Seq::<(Seq<char>, GeneratorModel)>::empty(), nothing, g);
            assert(Seq::<(Seq<char>, GeneratorModel)>::empty().push((nothing, g)) =~= generators);
        }
    } else {
        lemma_path_generators_round_trip(generators);
    }
}

/// Whether generators are in a form that is written without loss: the
/// names of the categories are increasing, and the generators of each
/// category are in such a form.
pub open spec fn generators_form(cats: GeneratorsModel) -> bool {
    &&& keys_increasing(cats)
    &&& forall|i: int|
        0 <= i < cats.len() ==> generators_category_form((#[trigger] cats[i]).0, cats[i].1)
}

/// Generators in such a form are written category by category, in their
/// order, and are read back as they were.
pub proof fn lemma_all_generators_round_trip(cats: GeneratorsModel)
    requires
        generators_form(cats),
    ensures
        generators_members(cats) == Seq::new(
            cats.len(),
            |i: int| (cats[i].0, generators_category_json(cats[i].0, cats[i].1)),
        ),
        all_generators(generators_members(cats)) == Ok::<GeneratorsModel, Seq<char>>(cats),
    decreases cats.len(),
{
    let written = Seq::new(
        cats.len(),
        |i: int| (cats[i].0, generators_category_json(cats[i].0, cats[i].1)),
    );
    if cats.len() == 0 {
        assert(generators_members(cats) =~= written);
        assert(cats =~= Seq::<(Seq<char>, Entries<GeneratorModel>)>::empty());
    } else {
        let init = cats.drop_last();
        let last = cats.last();
        assert forall|i: int, j: int| 0 <= i < j < init.len() implies text_order(
            #[trigger] init[i].0,
            #[trigger] init[j].0,
        ) < 0 by {
            assert(init[i] == cats[i] && init[j] == cats[j]);
        }
        assert forall|i: int| 0 <= i < init.len() implies generators_category_form(
            (#[trigger] init[i]).0,
            init[i].1,
        ) by {
            assert(init[i] == cats[i]);
        }
        lemma_all_generators_round_trip(init);
        let before = generators_members(init);
        let v = generators_category_json(last.0, last.1);
        assert forall|i: int| 0 <= i < before.len() implies text_order(
            #[trigger] before[i].0,
            last.0,
        ) < 0 by {
            assert(init[i] == cats[i]);
            assert(text_order(cats[i].0, cats[cats.len() - 1].0) < 0);
        }
        lemma_put_last(before, last.0, v);
        assert(generators_members(cats) =~= written);
        assert(written.drop_last() =~= before);
        assert(written.last() == (last.0, v));
        assert(generators_category_form(cats[cats.len() - 1].0, cats[cats.len() - 1].1));
        lemma_generators_category_round_trip(last.0, last.1);
        assert forall|i: int| 0 <= i < init.len() implies text_order(
            #[trigger] init[i].0,
            last.0,
        ) < 0 by {
            assert(init[i] == cats[i]);
            assert(text_order(cats[i].0, cats[cats.len() - 1].0) < 0);
        }
        lemma_put_last(init, last.0, last.1);
        assert(init.push((last.0, last.1)) =~= cats);
    }
}

/// Generators in such a form are read back from a JSON object that holds,
/// under `generators`, what is written for them.
pub proof fn lemma_generators_round_trip(cats: GeneratorsModel, json: JsonModel)
    requires
        generators_form(cats),
        member(json, "generators"@) == Some(JsonModel::Object(generators_members(cats))),
    ensures
        generators_from(json) == Ok::<GeneratorsModel, Seq<char>>(cats),
{
    lemma_all_generators_round_trip(cats);
}

} // verus!
