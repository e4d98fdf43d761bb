//! Generators: the rules that produce a value for a path when a pact is
//! replayed.

use vstd::prelude::*;
use crate::collections::{lookup, put, Duplicate, Entries, Same, SortedMap};
use crate::json::{lemma_json_model, member, text_member, Json, JsonModel};
use crate::path_exp::{error_text, parse_path, parse_path_exp};
use crate::matchingrules::{best_entry, best_position};
use crate::path_exp::fragments;
use crate::text::str_eq;

verus! {

/// A generator: its kind, such as `Uuid` or `RandomInt`, and the values
/// that configure it.
#[derive(Debug, PartialEq, Eq, Hash)]
pub struct Generator {
    pub kind: String,
    pub attributes: SortedMap<Json>,
}

/// The mathematical value of a `Generator`.
pub struct GeneratorModel {
    pub kind: Seq<char>,
    pub attributes: Entries<JsonModel>,
}

impl DeepView for Generator {
    type V = GeneratorModel;

    open spec fn deep_view(&self) -> GeneratorModel {
        GeneratorModel { kind: self.kind@, attributes: self.attributes.deep_view() }
    }
}

impl Duplicate for Generator {
    fn duplicate(&self) -> (r: Generator) {
        Generator { kind: self.kind.clone(), attributes: self.attributes.duplicate() }
    }
}

/// The members other than `type`, put together in their order.
pub open spec fn attributes_of(m: Entries<JsonModel>) -> Entries<JsonModel>
    decreases m.len(),
{
    if m.len() == 0 {
        seq![]
    } else if m.last().0 == "type"@ {
        attributes_of(m.drop_last())
    } else {
        put(attributes_of(m.drop_last()), m.last().0, m.last().1)
    }
}

/// The generator that a JSON value writes: an object whose member `type` is
/// a string, which is the kind; its other members are the attributes.
pub open spec fn generator_of(j: JsonModel) -> Option<GeneratorModel> {
    match j {
        JsonModel::Object(m) => match text_member(j, "type"@) {
            Some(kind) => Some(GeneratorModel { kind, attributes: attributes_of(m) }),
            None => None,
        },
        _ => None,
    }
}

/// The members by which a generator is written: its attributes, and `type`
/// with its kind.
pub open spec fn generator_members(g: GeneratorModel) -> Entries<JsonModel> {
    put(g.attributes, "type"@, JsonModel::String(g.kind))
}

impl Generator {
    /// Reads the generator that a JSON value writes, if it writes one.
    pub fn from_json(j: &Json) -> (r: Option<Generator>)
        ensures
            r.deep_view() == generator_of(j.deep_view()),
    {
        proof {
            lemma_json_model(*j);
        }
        match j {
            Json::Object(m) => match j.get_text("type") {
                Some(kind) => {
                    let mut attributes: SortedMap<Json> = SortedMap::new();
                    let ghost all = m.deep_view();
                    let mut i: usize = 0;
                    while i < m.entries.len()
                        invariant
                            i <= m.entries.len(),
                            all == m.deep_view(),
                            attributes.deep_view() == attributes_of(all.take(i as int)),
                        decreases m.entries.len() - i,
                    {
                        proof {
                            let next = all.take(i + 1);
                            assert(next.drop_last() == all.take(i as int));
                            assert(next.last() == all[i as int]);
                        }
                        if !str_eq(m.entries[i].0.as_str(), "type") {
                            attributes.insert(m.entries[i].0.clone(), m.entries[i].1.duplicate());
                        }
                        i += 1;
                    }
                    proof {
                        assert(all.take(m.entries.len() as int) == all);
                    }
                    Some(Generator { kind: kind.clone(), attributes })
                },
                None => None,
            },
            _ => None,
        }
    }

    /// Writes the generator as a JSON object.
    pub fn to_json(&self) -> (r: Json)
        ensures
            r.deep_view() == JsonModel::Object(generator_members(self.deep_view())),
    {
        let mut members = self.attributes.duplicate();
        members.insert("type".to_owned(), Json::String(self.kind.clone()));
        Json::object(members)
    }
}

/// The generators of a part: for each category, such as `body` or
/// `header`, the generator of each path, written as a text. The empty text
/// is the path of a category without paths.
#[derive(Debug, PartialEq, Eq, Hash)]
pub struct Generators {
    pub categories: SortedMap<SortedMap<Generator>>,
}

/// The mathematical value of `Generators`.
pub type GeneratorsModel = Entries<Entries<GeneratorModel>>;

impl DeepView for Generators {
    type V = GeneratorsModel;

    open spec fn deep_view(&self) -> GeneratorsModel {
        self.categories.deep_view()
    }
}

impl Duplicate for Generators {
    fn duplicate(&self) -> (r: Generators) {
        Generators { categories: self.categories.duplicate() }
    }
}

/// Whether every category is without generators.
pub open spec fn no_generators(cats: GeneratorsModel) -> bool {
    forall|i: int| 0 <= i < cats.len() ==> (#[trigger] cats[i]).1.len() == 0
}

/// A category whose generator stands for the whole of it, without paths.
pub open spec fn single_category(name: Seq<char>) -> bool {
    name == "path"@ || name == "method"@ || name == "status"@
}

/// The generators of the paths that are the members of a JSON object,
/// without the members that write no generator, or the message for the
/// first path that is no path expression.
pub open spec fn path_generators(m: Entries<JsonModel>) -> Result<
    Entries<GeneratorModel>,
    Seq<char>,
>
    decreases m.len(),
{
    if m.len() == 0 {
        Ok(seq![])
    } else {
        match path_generators(m.drop_last()) {
            Err(e) => Err(e),
            Ok(acc) => match parse_path(m.last().0) {
                Err(x) => Err(error_text(m.last().0, x)),
                Ok(_) => match generator_of(m.last().1) {
                    Some(g) => Ok(put(acc, m.last().0, g)),
                    None => Ok(acc),
                },
            },
        }
    }
}

/// The generators that the value of one category writes.
pub open spec fn category_generators(name: Seq<char>, value: JsonModel) -> Result<
    Entries<GeneratorModel>,
    Seq<char>,
> {
    if single_category(name) {
        match generator_of(value) {
            Some(g) => Ok(put(Seq::empty(), Seq::empty(), g)),
            None => Ok(seq![]),
        }
    } else {
        match value {
            JsonModel::Object(paths) => path_generators(paths),
            _ => Ok(seq![]),
        }
    }
}

/// The generators that the members of a JSON object write, category by
/// category, or the message for the first path that is no path expression.
pub open spec fn all_generators(m: Entries<JsonModel>) -> Result<GeneratorsModel, Seq<char>>
    decreases m.len(),
{
    if m.len() == 0 {
        Ok(seq![])
    } else {
        match all_generators(m.drop_last()) {
            Err(e) => Err(e),
            Ok(acc) => match category_generators(m.last().0, m.last().1) {
                Err(e) => Err(e),
                Ok(generators) => Ok(put(acc, m.last().0, generators)),
            },
        }
    }
}

/// The generators that a JSON object holds under `generators`: none where
/// there is no such member or it is no object.
pub open spec fn generators_from(json: JsonModel) -> Result<GeneratorsModel, Seq<char>> {
    match member(json, "generators"@) {
        Some(JsonModel::Object(m)) => all_generators(m),
        _ => Ok(seq![]),
    }
}

/// The members by which the generators of the paths of a category are
/// written.
pub open spec fn path_members(generators: Entries<GeneratorModel>) -> Entries<JsonModel>
    decreases generators.len(),
{
    if generators.len() == 0 {
        seq![]
    } else {
        put(
            path_members(generators.drop_last()),
            generators.last().0,
            JsonModel::Object(generator_members(generators.last().1)),
        )
    }
}

/// The value by which the generators of a category are written: the
/// generator itself for a category without paths that has one at the empty
/// path, else an object with a member for each path.
pub open spec fn generators_category_json(name: Seq<char>, generators: Entries<GeneratorModel>) -> JsonModel {
    if single_category(name) && lookup(generators, Seq::empty()) is Some {
        JsonModel::Object(generator_members(lookup(generators, Seq::empty())->0))
    } else {
        JsonModel::Object(path_members(generators))
    }
}

/// The members by which generators are written: for each category its
/// generators.
pub open spec fn generators_members(cats: GeneratorsModel) -> Entries<JsonModel>
    decreases cats.len(),
{
    if cats.len() == 0 {
        seq![]
    } else {
        put(
            generators_members(cats.drop_last()),
            cats.last().0,
            generators_category_json(cats.last().0, cats.last().1),
        )
    }
}

/// An error among the first `n` members is the error of all of them.
proof fn lemma_path_generators_error(m: Entries<JsonModel>, n: int)
    requires
        0 <= n <= m.len(),
        path_generators(m.take(n)) is Err,
    ensures
        path_generators(m) == path_generators(m.take(n)),
    decreases m.len() - n,
{
    if n == m.len() {
        assert(m.take(n) == m);
    } else {
        let next = m.take(n + 1);
        assert(next.drop_last() == m.take(n));
        lemma_path_generators_error(m, n + 1);
    }
}

/// An error among the first `n` members is the error of all of them.
proof fn lemma_all_generators_error(m: Entries<JsonModel>, n: int)
    requires
        0 <= n <= m.len(),
        all_generators(m.take(n)) is Err,
    ensures
        all_generators(m) == all_generators(m.take(n)),
    decreases m.len() - n,
{
    if n == m.len() {
        assert(m.take(n) == m);
    } else {
        let next = m.take(n + 1);
        assert(next.drop_last() == m.take(n));
        lemma_all_generators_error(m, n + 1);
    }
}

/// Whether a category has one generator for the whole of it.
fn is_single_category(name: &str) -> (b: bool)
    ensures
        b == single_category(name@),
{
    str_eq(name, "path") || str_eq(name, "method") || str_eq(name, "status")
}

/// Reads the generators of the paths that are the members of a JSON object.
fn path_generators_from_json(paths: &SortedMap<Json>) -> (r: Result<SortedMap<Generator>, String>)
    ensures
        match r {
            Ok(g) => path_generators(paths.deep_view()) == Ok::<
                Entries<GeneratorModel>,
                Seq<char>,
            >(g.deep_view()),
            Err(e) => path_generators(paths.deep_view()) == Err::<
                Entries<GeneratorModel>,
                Seq<char>,
            >(e@),
        },
{
    let mut generators: SortedMap<Generator> = SortedMap::new();
    let ghost m = paths.deep_view();
    let mut i: usize = 0;
    while i < paths.entries.len()
        invariant
            i <= paths.entries.len(),
            m == paths.deep_view(),
            path_generators(m.take(i as int)) == Ok::<Entries<GeneratorModel>, Seq<char>>(
                generators.deep_view(),
            ),
        decreases paths.entries.len() - i,
    {
        let key = &paths.entries[i].0;
        proof {
            let next = m.take(i + 1);
            assert(next.drop_last() == m.take(i as int));
            assert(next.last() == m[i as int]);
        }
        match parse_path_exp(key.as_str()) {
            Err(message) => {
                proof {
                    lemma_path_generators_error(m, i + 1);
                }
                return Err(message);
            },
            Ok(_) => match Generator::from_json(&paths.entries[i].1) {
                Some(g) => {
                    generators.insert(key.clone(), g);
                },
                None => {},
            },
        }
        i += 1;
    }
    proof {
        assert(m.take(paths.entries.len() as int) == m);
    }
    Ok(generators)
}

impl Generators {
    /// No generators at all.
    pub fn default() -> (r: Generators)
        ensures
            r.deep_view() == Seq::<(Seq<char>, Entries<GeneratorModel>)>::empty(),
    {
        Generators { categories: SortedMap::new() }
    }

    /// Whether no category holds a generator.
    pub fn is_empty(&self) -> (b: bool)
        ensures
            b == no_generators(self.deep_view()),
    {
        let ghost cats = self.deep_view();
        let mut i: usize = 0;
        while i < self.categories.entries.len()
            invariant
                i <= self.categories.entries.len(),
                cats == self.deep_view(),
                forall|k: int| 0 <= k < i ==> (#[trigger] cats[k]).1.len() == 0,
            decreases self.categories.entries.len() - i,
        {
            if !self.categories.entries[i].1.is_empty() {
                assert(cats[i as int].1.len() != 0);
                return false;
            }
            i += 1;
        }
        true
    }

    /// Whether some category holds a generator.
    pub fn is_not_empty(&self) -> (b: bool)
        ensures
            b == !no_generators(self.deep_view()),
    {
        !self.is_empty()
    }
}

/// Reads the generators of a part from the member `generators` of its JSON
/// form. A path that is no path expression is an error.
pub fn generators_from_json(value: &Json) -> (r: Result<Generators, String>)
    ensures
        match r {
            Ok(g) => generators_from(value.deep_view()) == Ok::<GeneratorsModel, Seq<char>>(
                g.deep_view(),
            ),
            Err(e) => generators_from(value.deep_view()) == Err::<GeneratorsModel, Seq<char>>(e@),
        },
{
    match value.get("generators") {
        Some(v) => {
            proof {
                lemma_json_model(*v);
            }
            match v {
                Json::Object(source) => {
                    let mut cats: SortedMap<SortedMap<Generator>> = SortedMap::new();
                    let ghost m = source.deep_view();
                    let mut i: usize = 0;
                    while i < source.entries.len()
                        invariant
                            i <= source.entries.len(),
                            m == source.deep_view(),
                            generators_from(value.deep_view()) == all_generators(m),
                            all_generators(m.take(i as int)) == Ok::<GeneratorsModel, Seq<char>>(
                                cats.deep_view(),
                            ),
                        decreases source.entries.len() - i,
                    {
                        let name = &source.entries[i].0;
                        let item = &source.entries[i].1;
                        proof {
                            let next = m.take(i + 1);
                            assert(next.drop_last() == m.take(i as int));
                            assert(next.last() == m[i as int]);
                            lemma_json_model(*item);
                        }
                        let generators = if is_single_category(name.as_str()) {
                            let mut one: SortedMap<Generator> = SortedMap::new();
                            match Generator::from_json(item) {
                                Some(g) => {
                                    one.insert(String::new(), g);
                                },
                                None => {},
                            }
                            one
                        } else {
                            match item {
                                Json::Object(paths) => match path_generators_from_json(paths) {
                                    Ok(g) => g,
                                    Err(e) => {
                                        proof {
                                            lemma_all_generators_error(m, i + 1);
                                        }
                                        return Err(e);
                                    },
                                },
                                _ => SortedMap::new(),
                            }
                        };
                        cats.insert(name.clone(), generators);
                        i += 1;
                    }
                    proof {
                        assert(m.take(source.entries.len() as int) == m);
                    }
                    Ok(Generators { categories: cats })
                },
                _ => Ok(Generators::default()),
            }
        },
        None => Ok(Generators::default()),
    }
}

/// Writes the generators of a part as a JSON object.
pub fn generators_to_json(generators: &Generators) -> (r: Json)
    ensures
        r.deep_view() == JsonModel::Object(generators_members(generators.deep_view())),
{
    let mut members: SortedMap<Json> = SortedMap::new();
    let ghost cats = generators.deep_view();
    let mut i: usize = 0;
    while i < generators.categories.entries.len()
        invariant
            i <= generators.categories.entries.len(),
            cats == generators.deep_view(),
            members.deep_view() == generators_members(cats.take(i as int)),
        decreases generators.categories.entries.len() - i,
    {
        let name = &generators.categories.entries[i].0;
        let category = &generators.categories.entries[i].1;
        proof {
            let next = cats.take(i + 1);
            assert(next.drop_last() == cats.take(i as int));
            assert(next.last() == cats[i as int]);
            reveal_strlit("");
            assert(""@ =~= Seq::<char>::empty());
        }
        let direct = if is_single_category(name.as_str()) {
            category.get("")
        } else {
            None
        };
        let value = match direct {
            Some(g) => g.to_json(),
            None => {
                let mut paths: SortedMap<Json> = SortedMap::new();
                let ghost all = category.deep_view();
                let mut j: usize = 0;
                while j < category.entries.len()
                    invariant
                        j <= category.entries.len(),
                        all == category.deep_view(),
                        paths.deep_view() == path_members(all.take(j as int)),
                    decreases category.entries.len() - j,
                {
                    proof {
                        let next = all.take(j + 1);
                        assert(next.drop_last() == all.take(j as int));
                        assert(next.last() == all[j as int]);
                    }
                    paths.insert(category.entries[j].0.clone(), category.entries[j].1.to_json());
                    j += 1;
                }
                proof {
                    assert(all.take(category.entries.len() as int) == all);
                }
                Json::object(paths)
            },
        };
        members.insert(name.clone(), value);
        i += 1;
    }
    proof {
        assert(cats.take(generators.categories.entries.len() as int) == cats);
    }
    Json::object(members)
}

impl Same for Generator {
    fn same(&self, other: &Generator) -> (b: bool) {
        self.kind == other.kind && self.attributes.same(&other.attributes)
    }
}

impl Same for Generators {
    fn same(&self, other: &Generators) -> (b: bool) {
        self.categories.same(&other.categories)
    }
}

/// The generator that applies at the concrete path `path` among those of a
/// category: that of the path expression with the highest score for it, and
/// among those with the same score the one with the most tokens. None
/// applies where every score is 0.
pub fn select_best_generator<'a>(category: &'a SortedMap<Generator>, path: &[&str]) -> (r: Option<
    &'a Generator,
>)
    ensures
        match best_position(category.deep_view(), fragments(path@), category.deep_view().len()) {
            Some(b) => r.deep_view() == Some(category.deep_view()[b].1),
            None => r is None,
        },
{
    match best_entry(category, path) {
        Some(b) => Some(&category.entries[b].1),
        None => None,
    }
}

} // verus!
