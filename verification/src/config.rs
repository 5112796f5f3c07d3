//! Layered configuration: four layers, the stronger one winning key by key.
//!
//! A layer is a TOML table. Resolving the layers gives every leaf that no stronger layer masks
//! under its dotted key, with its value and a note of which layer it is from. A leaf is masked
//! by a leaf of a stronger layer that stands in its place, above it or below it.
use crate::dotted::{
    dotted, is_leaf, keys_have_no_dots, law_set_value_reads_back, lemma_dotted_from_the_front,
    lemma_dotted_splits, lemma_parts_join, node_at, parts_of, set_path, text_models,
};
use crate::effective::{EffectiveConfig, ResolvedModel};
use crate::error::{ConfigError, ConfigErrorModel, ConfigErrorOf};
use crate::text::same_text;
use crate::toml_table::{
    entries_of, no_entries, node_of, parse_table, table_clone, table_insert, table_is_empty,
    table_items, table_new, toml_document, value_as_table, value_from_table, value_from_text,
    NodeModel,
};
use vstd::prelude::*;

verus! {

/// The reserved key of the address that observed traffic is sent to.
pub const METERING_BASE_URL_KEY: &'static str = "metering.base_url";

/// The layer a value comes from, weakest first.
#[derive(Clone, Copy, Debug, PartialEq, Eq, Structural)]
pub enum SourceLayer {
    /// Built into the engine.
    EngineDefault,
    /// Built in per adapter kind.
    KindDefault,
    /// The instance's own config file.
    Instance,
    /// Given with one invocation.
    InvocationOverride,
}

impl SourceLayer {
    /// The stable label.
    pub open spec fn label(self) -> Seq<char> {
        match self {
            SourceLayer::EngineDefault => "engine-default"@,
            SourceLayer::KindDefault => "kind-default"@,
            SourceLayer::Instance => "instance"@,
            SourceLayer::InvocationOverride => "invocation-override"@,
        }
    }

    /// The stable label.
    pub fn as_str(&self) -> (r: &'static str)
        ensures
            r@ == self.label(),
    {
        match self {
            SourceLayer::EngineDefault => "engine-default",
            SourceLayer::KindDefault => "kind-default",
            SourceLayer::Instance => "instance",
            SourceLayer::InvocationOverride => "invocation-override",
        }
    }
}

/// One layer of the configuration.
pub struct ConfigLayer {
    table: toml::map::Map<String, toml::Value>,
}

impl View for ConfigLayer {
    type V = Map<Seq<char>, NodeModel>;

    closed spec fn view(&self) -> Map<Seq<char>, NodeModel> {
        entries_of(self.table)
    }
}

impl ConfigLayer {
    /// The layer that says nothing.
    pub fn empty() -> (r: Self)
        ensures
            r@ == no_entries(),
    {
        ConfigLayer { table: table_new() }
    }

    /// The layer that says what a table says.
    pub fn from_table(table: toml::map::Map<String, toml::Value>) -> (r: Self)
        ensures
            r@ == entries_of(table),
    {
        ConfigLayer { table }
    }

    /// The layer in a TOML document. `path` says where the document is from.
    pub fn parse(layer: SourceLayer, path: &str, text: &str) -> (r: Result<Self, ConfigError>)
        ensures
            match r {
                Ok(parsed) => toml_document(text@) matches Ok(entries) && parsed@ == entries,
                Err(e) => toml_document(text@) matches Err(detail) && e@
                    == (ConfigErrorModel::MalformedLayer { layer, path: path@, detail }),
            },
    {
        match parse_table(text) {
            Ok(table) => Ok(ConfigLayer { table }),
            Err(detail) => Err(
                ConfigErrorOf::MalformedLayer { layer, path: path.to_owned(), detail },
            ),
        }
    }

    /// Whether the layer says nothing.
    pub fn is_empty(&self) -> (r: bool)
        ensures
            r == (self@ == no_entries()),
    {
        table_is_empty(&self.table)
    }

    /// The table of the layer.
    pub fn as_table(&self) -> (r: &toml::map::Map<String, toml::Value>)
        ensures
            entries_of(*r) == self@,
    {
        &self.table
    }

    /// A copy of the table of the layer.
    pub fn to_table(&self) -> (r: toml::map::Map<String, toml::Value>)
        ensures
            entries_of(r) == self@,
    {
        table_clone(&self.table)
    }
}

/// What the layer says that only sets the address that observed traffic is sent to.
pub open spec fn base_url_entries(base_url: Seq<char>) -> Map<Seq<char>, NodeModel> {
    no_entries().insert(
        "metering"@,
        NodeModel::Table(no_entries().insert("base_url"@, NodeModel::Text(base_url))),
    )
}

/// The layer that only sets the address that observed traffic is sent to.
pub fn base_url_override(base_url: &str) -> (r: ConfigLayer)
    ensures
        r@ == base_url_entries(base_url@),
{
    let mut metering = table_new();
    table_insert(&mut metering, "base_url".to_owned(), value_from_text(base_url.to_owned()));
    let mut table = table_new();
    table_insert(&mut table, "metering".to_owned(), value_from_table(metering));
    ConfigLayer::from_table(table)
}

/// Whether the leaf at a path is the only one of a table under its dotted key. (A table can
/// hold one dotted key twice only where a key itself has a dot in it.)
pub open spec fn only_leaf(entries: Map<Seq<char>, NodeModel>, path: Seq<Seq<char>>) -> bool {
    forall|other: Seq<Seq<char>>, node: NodeModel| #[trigger]
        is_leaf(entries, other, node) && dotted(other) == dotted(path) ==> other == path
}

/// Whether leaves at two paths cannot both stand: the paths are the same, or one leads through
/// the other, or they have one dotted key.
pub open spec fn collide(path: Seq<Seq<char>>, other: Seq<Seq<char>>) -> bool {
    ||| path.is_prefix_of(other)
    ||| other.is_prefix_of(path)
    ||| dotted(path) == dotted(other)
}

/// Whether a stronger layer masks what a layer has at a path: it has a leaf there, above, or
/// below.
pub open spec fn masked(
    layers: Seq<Map<Seq<char>, NodeModel>>,
    n: int,
    path: Seq<Seq<char>>,
) -> bool {
    exists|m: int, other: Seq<Seq<char>>, node: NodeModel|
        n < m < layers.len() && #[trigger] is_leaf(layers[m], other, node) && collide(path, other)
}

/// A leaf of a table.
struct Leaf<'a> {
    path: Vec<String>,
    value: &'a toml::Value,
}

spec fn leaf_models(leaves: Seq<Leaf>) -> Seq<(Seq<Seq<char>>, NodeModel)> {
    leaves.map(|i: int, leaf: Leaf| (text_models(leaf.path@), node_of(*leaf.value)))
}

/// Whether a path leads through another to a leaf of a table that stands there.
spec fn leaf_below(
    entries: Map<Seq<char>, NodeModel>,
    above: Seq<Seq<char>>,
    path: Seq<Seq<char>>,
    node: NodeModel,
) -> bool {
    &&& above.is_prefix_of(path)
    &&& is_leaf(entries, path.skip(above.len() as int), node)
}

proof fn lemma_leaf_in_table(
    entries: Map<Seq<char>, NodeModel>,
    above: Seq<Seq<char>>,
    first: Seq<char>,
    inner: Map<Seq<char>, NodeModel>,
    path: Seq<Seq<char>>,
    node: NodeModel,
)
    requires
        entries.contains_key(first),
        entries[first] == NodeModel::Table(inner),
    ensures
        leaf_below(inner, above.push(first), path, node) <==> leaf_below(
            entries,
            above,
            path,
            node,
        ) && path[above.len() as int] == first,
{
    let n = above.len() as int;
    let deeper = above.push(first);
    if above.is_prefix_of(path) && path.len() > n {
        let rest = path.skip(n);
        assert(rest.drop_first() =~= path.skip(n + 1));
        assert(rest[0] == path[n]);
        if path[n] == first {
            assert forall|i: int| 0 <= i < deeper.len() implies deeper[i] == path[i] by {
                if i < n {
                    assert(above[i] == path.subrange(0, n)[i]);
                }
            }
            assert(deeper =~= path.subrange(0, n + 1));
            assert(node_at(NodeModel::Table(entries), rest) == node_at(
                NodeModel::Table(inner),
                rest.drop_first(),
            ));
        }
    }
    if deeper.is_prefix_of(path) {
        assert(deeper =~= path.subrange(0, n + 1));
        assert(path[n] == deeper[n]);
        assert forall|i: int| 0 <= i < n implies above[i] == path[i] by {
            assert(deeper[i] == path.subrange(0, n + 1)[i]);
        }
        assert(above =~= path.subrange(0, n));
    }
    if above.is_prefix_of(path) && path.len() == n {
        assert(path.skip(n) =~= Seq::empty());
    }
}

proof fn lemma_leaf_in_place(
    entries: Map<Seq<char>, NodeModel>,
    above: Seq<Seq<char>>,
    first: Seq<char>,
    path: Seq<Seq<char>>,
    node: NodeModel,
)
    requires
        entries.contains_key(first),
        !(entries[first] is Table),
    ensures
        leaf_below(entries, above, path, node) && path[above.len() as int] == first <==> path
            == above.push(first) && node == entries[first],
{
    let n = above.len() as int;
    if above.is_prefix_of(path) && path.len() == n {
        assert(path.skip(n) =~= Seq::empty());
    }
    if leaf_below(entries, above, path, node) && path[n] == first {
        let rest = path.skip(n);
        assert(rest[0] == first);
        if rest.len() > 1 {
            assert(node_at(entries[first], rest.drop_first()) is None);
        }
        assert(rest.drop_first() =~= Seq::empty());
        assert(path =~= above.push(first)) by {
            assert forall|i: int| 0 <= i < n implies path[i] == above[i] by {
                assert(above[i] == path.subrange(0, n)[i]);
            }
        }
    }
    if path == above.push(first) {
        assert(above =~= path.subrange(0, n));
        let rest = path.skip(n);
        assert(rest =~= seq![first]);
        assert(rest.drop_first() =~= Seq::empty());
        assert(node_at(entries[first], rest.drop_first()) == Some(entries[first]));
    }
}

fn longer(above: &Vec<String>, first: &str) -> (r: Vec<String>)
    ensures
        text_models(r@) == text_models(above@).push(first@),
{
    let mut path: Vec<String> = Vec::new();
    let mut i: usize = 0;
    while i < above.len()
        invariant
            i <= above@.len(),
            text_models(path@) == text_models(above@).take(i as int),
        decreases above@.len() - i,
    {
        let ghost before = path@;
        path.push(above[i].clone());
        assert(text_models(path@) =~= text_models(above@).take(i + 1)) by {
            assert(text_models(path@).drop_last() =~= text_models(before));
        }
        i = i + 1;
    }
    let ghost before = text_models(path@);
    assert(before =~= text_models(above@));
    path.push(first.to_owned());
    assert(text_models(path@) =~= before.push(first@));
    path
}

/// Add every leaf of the table at a path.
fn add_leaves<'a>(
    out: &mut Vec<Leaf<'a>>,
    table: &'a toml::map::Map<String, toml::Value>,
    above: &Vec<String>,
)
    ensures
        forall|path: Seq<Seq<char>>, node: NodeModel| #[trigger]
            leaf_models(final(out)@).contains((path, node)) <==> leaf_models(old(out)@).contains(
                (path, node),
            ) || leaf_below(entries_of(*table), text_models(above@), path, node),
    decreases entries_of(*table),
{
    let ghost start = leaf_models(out@);
    let ghost entries = entries_of(*table);
    let ghost top = text_models(above@);
    let items = table_items(table);
    let ghost keys = items@.map(|i: int, item: (&String, &toml::Value)| item.0@);
    proof {
        assert forall|key: Seq<char>| #[trigger] entries.contains_key(key) implies keys.contains(
            key,
        ) by {
            let i = choose|i: int| 0 <= i < items@.len() && #[trigger] items@[i].0@ == key;
            assert(keys[i] == key);
        }
        crate::writable::lemma_listed_keys_are_finite(entries, keys);
        assert(keys.take(0) =~= Seq::empty());
    }
    let mut i: usize = 0;
    while i < items.len()
        invariant
            i <= items@.len(),
            entries == entries_of(*table),
            entries.dom().finite(),
            top == text_models(above@),
            keys == items@.map(|i: int, item: (&String, &toml::Value)| item.0@),
            forall|j: int|
                0 <= j < items@.len() ==> entries.contains_key(#[trigger] items@[j].0@)
                    && entries[items@[j].0@] == node_of(*items@[j].1),
            forall|path: Seq<Seq<char>>, node: NodeModel| #[trigger]
                leaf_models(out@).contains((path, node)) <==> start.contains((path, node)) || (
                leaf_below(entries, top, path, node) && keys.take(i as int).contains(
                    path[top.len() as int],
                )),
        decreases items@.len() - i,
    {
        let ghost before = leaf_models(out@);
        let ghost first = items@[i as int].0@;
        let ghost node_here = node_of(*items@[i as int].1);
        let path = longer(above, items[i].0.as_str());
        let value: &'a toml::Value = items[i].1;
        proof {
            assert(keys[i as int] == first);
            assert forall|k: Seq<char>| #[trigger] keys.take(i + 1).contains(k) <==> keys.take(
                i as int,
            ).contains(k) || k == first by {
                if keys.take(i as int).contains(k) {
                    let j = choose|j: int|
                        0 <= j < i && #[trigger] keys.take(i as int)[j] == k;
                    assert(keys.take(i + 1)[j] == k);
                }
                if k == first {
                    assert(keys.take(i + 1)[i as int] == k);
                }
                if keys.take(i + 1).contains(k) && k != first {
                    let j = choose|j: int|
                        0 <= j < i + 1 && #[trigger] keys.take(i + 1)[j] == k;
                    assert(keys.take(i as int)[j] == k);
                }
            }
        }
        match value_as_table(value) {
            Some(inner) => {
                assert(decreases_to!(entries => entries[first]));
                assert(decreases_to!(entries[first] => entries[first]->Table_0));
                add_leaves(out, inner, &path);
                proof {
                    assert forall|p: Seq<Seq<char>>, node: NodeModel| #[trigger]
                        leaf_models(out@).contains((p, node)) <==> start.contains((p, node)) || (
                    leaf_below(entries, top, p, node) && keys.take(i + 1).contains(
                        p[top.len() as int],
                    )) by {
                        lemma_leaf_in_table(entries, top, first, entries_of(*inner), p, node);
                        assert(before.contains((p, node)) <==> start.contains((p, node)) || (
                        leaf_below(entries, top, p, node) && keys.take(i as int).contains(
                            p[top.len() as int],
                        )));
                    }
                }
            },
            None => {
                let ghost here = text_models(path@);
                out.push(Leaf { path, value });
                proof {
                    let after = leaf_models(out@);
                    assert(after =~= before.push((here, node_here)));
                    assert forall|p: Seq<Seq<char>>, node: NodeModel| #[trigger]
                        after.contains((p, node)) <==> start.contains((p, node)) || (leaf_below(
                        entries,
                        top,
                        p,
                        node,
                    ) && keys.take(i + 1).contains(p[top.len() as int])) by {
                        lemma_leaf_in_place(entries, top, first, p, node);
                        lemma_pushed(before, (here, node_here), (p, node));
                        assert(before.contains((p, node)) <==> start.contains((p, node)) || (
                        leaf_below(entries, top, p, node) && keys.take(i as int).contains(
                            p[top.len() as int],
                        )));
                    }
                }
            },
        }
        i = i + 1;
    }
    proof {
        assert(keys.take(keys.len() as int) =~= keys);
        assert forall|path: Seq<Seq<char>>, node: NodeModel| #[trigger]
            leaf_models(out@).contains((path, node)) <==> start.contains((path, node))
            || leaf_below(entries, top, path, node) by {
            if leaf_below(entries, top, path, node) {
                let rest = path.skip(top.len() as int);
                if path.len() == top.len() {
                    assert(rest =~= Seq::empty());
                }
                assert(rest[0] == path[top.len() as int]);
                assert(entries.contains_key(rest[0]));
            }
        }
    }
}

proof fn lemma_pushed<A>(items: Seq<A>, last: A, item: A)
    ensures
        items.push(last).contains(item) <==> items.contains(item) || item == last,
{
    let after = items.push(last);
    if items.contains(item) {
        let i = choose|i: int| 0 <= i < items.len() && items[i] == item;
        assert(after[i] == item);
    }
    if item == last {
        assert(after[items.len() as int] == item);
    }
    if after.contains(item) && item != last {
        let i = choose|i: int| 0 <= i < after.len() && after[i] == item;
        assert(items[i] == item);
    }
}

fn dotted_text(path: &Vec<String>) -> (r: String)
    ensures
        r@ == dotted(text_models(path@)),
{
    let ghost models = text_models(path@);
    let mut out: String = "".to_owned();
    let mut i: usize = 0;
    proof {
        reveal_strlit("");
        assert(out@ =~= Seq::empty());
        assert(models.take(0) =~= Seq::empty());
    }
    while i < path.len()
        invariant
            i <= path@.len(),
            models == text_models(path@),
            out@ == dotted(models.take(i as int)),
        decreases path@.len() - i,
    {
        let ghost after = models.take(i + 1);
        assert(after.drop_last() =~= models.take(i as int));
        assert(after.last() == path@[i as int]@);
        if i == 0 {
            out = path[i].clone();
        } else {
            out.append(".");
            out.append(path[i].as_str());
        }
        i = i + 1;
    }
    assert(models.take(models.len() as int) =~= models);
    out
}

fn paths_collide(path: &Vec<String>, other: &Vec<String>) -> (r: bool)
    ensures
        r == collide(text_models(path@), text_models(other@)),
{
    let ghost p = text_models(path@);
    let ghost o = text_models(other@);
    let mut i: usize = 0;
    while i < path.len() && i < other.len()
        invariant
            i <= path@.len(),
            i <= other@.len(),
            p == text_models(path@),
            o == text_models(other@),
            forall|j: int| 0 <= j < i ==> #[trigger] p[j] == o[j],
        decreases path@.len() - i,
    {
        if !same_text(path[i].as_str(), other[i].as_str()) {
            proof {
                assert(p[i as int] != o[i as int]);
                if p.is_prefix_of(o) {
                    assert(p[i as int] == o.subrange(0, p.len() as int)[i as int]);
                }
                if o.is_prefix_of(p) {
                    assert(o[i as int] == p.subrange(0, o.len() as int)[i as int]);
                }
            }
            return same_text(dotted_text(path).as_str(), dotted_text(other).as_str());
        }
        i = i + 1;
    }
    proof {
        if p.len() <= o.len() {
            assert(p =~= o.subrange(0, p.len() as int));
        } else {
            assert(o =~= p.subrange(0, o.len() as int));
        }
    }
    true
}

/// Whether none of some leaves masks what stands at a path.
spec fn clear_of(
    strong: Seq<(Seq<Seq<char>>, NodeModel)>,
    path: Seq<Seq<char>>,
) -> bool {
    forall|i: int| 0 <= i < strong.len() ==> !collide(path, (#[trigger] strong[i]).0)
}

fn is_clear(strong: &Vec<Leaf>, path: &Vec<String>) -> (r: bool)
    ensures
        r == clear_of(leaf_models(strong@), text_models(path@)),
{
    let ghost models = leaf_models(strong@);
    let mut i: usize = 0;
    while i < strong.len()
        invariant
            i <= strong@.len(),
            models == leaf_models(strong@),
            forall|j: int|
                0 <= j < i ==> !collide(text_models(path@), (#[trigger] models[j]).0),
        decreases strong@.len() - i,
    {
        assert(models[i as int].0 == text_models(strong@[i as int].path@));
        if paths_collide(path, &strong[i].path) {
            return false;
        }
        i = i + 1;
    }
    true
}

/// Whether some leaves have been entered among what was resolved, as far as nothing masks them.
spec fn entered(
    before: Map<Seq<char>, ResolvedModel>,
    after: Map<Seq<char>, ResolvedModel>,
    strong: Seq<(Seq<Seq<char>>, NodeModel)>,
    leaves: Seq<(Seq<Seq<char>>, NodeModel)>,
    source: SourceLayer,
) -> bool {
    &&& forall|key: Seq<char>| #[trigger]
        before.contains_key(key) ==> after.contains_key(key) && after[key] == before[key]
    &&& forall|i: int|
        0 <= i < leaves.len() && clear_of(strong, (#[trigger] leaves[i]).0) ==> after.contains_key(
            dotted(leaves[i].0),
        )
    &&& forall|key: Seq<char>| #[trigger]
        after.contains_key(key) && !before.contains_key(key) ==> after[key].source == source
            && exists|i: int|
            0 <= i < leaves.len() && clear_of(strong, (#[trigger] leaves[i]).0) && dotted(
                leaves[i].0,
            ) == key && leaves[i].1 == after[key].node
}

/// Enter the leaves that nothing masks.
fn enter_leaves(
    into: &mut EffectiveConfig,
    strong: &Vec<Leaf>,
    leaves: &Vec<Leaf>,
    source: SourceLayer,
)
    requires
        old(into).wf(),
        forall|i: int| 0 <= i < leaves@.len() ==> !((#[trigger] leaf_models(leaves@)[i]).1 is Table),
    ensures
        final(into).wf(),
        entered(
            old(into)@,
            final(into)@,
            leaf_models(strong@),
            leaf_models(leaves@),
            source,
        ),
{
    let ghost start = into@;
    let ghost models = leaf_models(leaves@);
    let ghost masks = leaf_models(strong@);
    let mut i: usize = 0;
    assert(models.take(0) =~= Seq::empty());
    while i < leaves.len()
        invariant
            i <= leaves@.len(),
            into.wf(),
            models == leaf_models(leaves@),
            masks == leaf_models(strong@),
            forall|i: int| 0 <= i < leaves@.len() ==> !((#[trigger] models[i]).1 is Table),
            entered(start, into@, masks, models.take(i as int), source),
        decreases leaves@.len() - i,
    {
        let ghost before = into@;
        let leaf = &leaves[i];
        assert(models[i as int] == (text_models(leaf.path@), node_of(*leaf.value)));
        if is_clear(strong, &leaf.path) {
            into.enter(dotted_text(&leaf.path), leaf.value, source);
        }
        proof {
            lemma_entered_next(start, before, into@, masks, models, i as int, source);
        }
        i = i + 1;
    }
    assert(models.take(models.len() as int) =~= models);
}

proof fn lemma_entered_next(
    start: Map<Seq<char>, ResolvedModel>,
    before: Map<Seq<char>, ResolvedModel>,
    after: Map<Seq<char>, ResolvedModel>,
    strong: Seq<(Seq<Seq<char>>, NodeModel)>,
    leaves: Seq<(Seq<Seq<char>>, NodeModel)>,
    n: int,
    source: SourceLayer,
)
    requires
        0 <= n < leaves.len(),
        entered(start, before, strong, leaves.take(n), source),
        ({
            let key = dotted(leaves[n].0);
            after == if clear_of(strong, leaves[n].0) && !before.contains_key(key) {
                before.insert(key, ResolvedModel { node: leaves[n].1, source })
            } else {
                before
            }
        }),
    ensures
        entered(start, after, strong, leaves.take(n + 1), source),
{
    let some = leaves.take(n);
    let more = leaves.take(n + 1);
    assert(more[n] == leaves[n]);
    assert forall|i: int|
        0 <= i < more.len() && clear_of(strong, (#[trigger] more[i]).0) implies after.contains_key(
        dotted(more[i].0),
    ) by {
        if i < n {
            assert(some[i] == more[i]);
        }
    }
    assert forall|key: Seq<char>| #[trigger]
        after.contains_key(key) && !start.contains_key(key) implies after[key].source == source
        && exists|i: int|
        0 <= i < more.len() && clear_of(strong, (#[trigger] more[i]).0) && dotted(more[i].0) == key
            && more[i].1 == after[key].node by {
        if before.contains_key(key) {
            let i = choose|i: int|
                0 <= i < some.len() && clear_of(strong, (#[trigger] some[i]).0) && dotted(some[i].0)
                    == key && some[i].1 == before[key].node;
            assert(more[i] == some[i]);
        } else {
            assert(more[n] == leaves[n]);
        }
    }
}

/// How strong a layer is: the place of the layer among the four.
pub open spec fn strength(source: SourceLayer) -> int {
    match source {
        SourceLayer::EngineDefault => 0,
        SourceLayer::KindDefault => 1,
        SourceLayer::Instance => 2,
        SourceLayer::InvocationOverride => 3,
    }
}

/// What the four layers resolve to: a leaf of a layer is there, under its dotted key and noted
/// as that layer's, exactly where no stronger layer masks it; and nothing else is there.
pub open spec fn resolves_to(
    layers: Seq<Map<Seq<char>, NodeModel>>,
    resolved: Map<Seq<char>, ResolvedModel>,
) -> bool {
    &&& forall|n: int, path: Seq<Seq<char>>, node: NodeModel|
        0 <= n < layers.len() && #[trigger] is_leaf(layers[n], path, node) && !masked(
            layers,
            n,
            path,
        ) ==> resolved.contains_key(dotted(path)) && strength(resolved[dotted(path)].source) == n
    &&& forall|key: Seq<char>| #[trigger]
        resolved.contains_key(key) ==> unmasked_leaf(
            layers,
            strength(resolved[key].source),
            key,
            resolved[key].node,
        )
}

/// Whether a layer has a leaf of some value under a dotted key that no stronger layer masks.
pub open spec fn unmasked_leaf(
    layers: Seq<Map<Seq<char>, NodeModel>>,
    n: int,
    key: Seq<char>,
    node: NodeModel,
) -> bool {
    exists|path: Seq<Seq<char>>| #[trigger]
        is_leaf(layers[n], path, node) && dotted(path) == key && !masked(layers, n, path)
}

/// The models of some layers.
pub open spec fn layer_models(layers: Seq<ConfigLayer>) -> Seq<Map<Seq<char>, NodeModel>> {
    layers.map(|i: int, layer: ConfigLayer| layer@)
}

/// What is resolved once the layers from `m` on have been gone through.
spec fn resolves_above(
    layers: Seq<Map<Seq<char>, NodeModel>>,
    resolved: Map<Seq<char>, ResolvedModel>,
    m: int,
) -> bool {
    &&& forall|n: int, path: Seq<Seq<char>>, node: NodeModel|
        m <= n < 4 && #[trigger] is_leaf(layers[n], path, node) && !masked(layers, n, path)
            ==> resolved.contains_key(dotted(path)) && strength(resolved[dotted(path)].source) == n
    &&& forall|key: Seq<char>| #[trigger]
        resolved.contains_key(key) ==> strength(resolved[key].source) >= m && unmasked_leaf(
            layers,
            strength(resolved[key].source),
            key,
            resolved[key].node,
        )
}

/// Whether some leaves are those of the layers from `m` on.
spec fn leaves_above(
    layers: Seq<Map<Seq<char>, NodeModel>>,
    leaves: Seq<(Seq<Seq<char>>, NodeModel)>,
    m: int,
) -> bool {
    forall|path: Seq<Seq<char>>, node: NodeModel| #[trigger]
        leaves.contains((path, node)) <==> exists|n: int|
            m <= n < 4 && #[trigger] is_leaf(layers[n], path, node)
}

proof fn lemma_clear_is_unmasked(
    layers: Seq<Map<Seq<char>, NodeModel>>,
    strong: Seq<(Seq<Seq<char>>, NodeModel)>,
    m: int,
    path: Seq<Seq<char>>,
)
    requires
        layers.len() == 4,
        leaves_above(layers, strong, m + 1),
    ensures
        clear_of(strong, path) <==> !masked(layers, m, path),
{
    if masked(layers, m, path) {
        let (n, other, node) = choose|n: int, other: Seq<Seq<char>>, node: NodeModel|
            m < n < layers.len() && #[trigger] is_leaf(layers[n], other, node) && collide(
                path,
                other,
            );
        assert(strong.contains((other, node)));
        let i = choose|i: int| 0 <= i < strong.len() && strong[i] == (other, node);
        assert(strong[i].0 == other);
    }
    if !clear_of(strong, path) {
        let i = choose|i: int| 0 <= i < strong.len() && collide(path, (#[trigger] strong[i]).0);
        let (other, node) = strong[i];
        assert(strong.contains((other, node)));
        let n = choose|n: int| m + 1 <= n < 4 && #[trigger] is_leaf(layers[n], other, node);
        assert(is_leaf(layers[n], other, node));
    }
}

proof fn lemma_next_layer(
    layers: Seq<Map<Seq<char>, NodeModel>>,
    before: Map<Seq<char>, ResolvedModel>,
    after: Map<Seq<char>, ResolvedModel>,
    strong: Seq<(Seq<Seq<char>>, NodeModel)>,
    leaves: Seq<(Seq<Seq<char>>, NodeModel)>,
    source: SourceLayer,
)
    requires
        layers.len() == 4,
        resolves_above(layers, before, strength(source) + 1),
        leaves_above(layers, strong, strength(source) + 1),
        forall|path: Seq<Seq<char>>, node: NodeModel| #[trigger]
            leaves.contains((path, node)) <==> is_leaf(layers[strength(source)], path, node),
        entered(before, after, strong, leaves, source),
    ensures
        resolves_above(layers, after, strength(source)),
{
    let m = strength(source);
    assert forall|n: int, path: Seq<Seq<char>>, node: NodeModel|
        m <= n < 4 && #[trigger] is_leaf(layers[n], path, node) && !masked(
            layers,
            n,
            path,
        ) implies after.contains_key(dotted(path)) && strength(after[dotted(path)].source) == n by {
        let key = dotted(path);
        if n == m {
            lemma_clear_is_unmasked(layers, strong, m, path);
            assert(leaves.contains((path, node)));
            let i = choose|i: int| 0 <= i < leaves.len() && leaves[i] == (path, node);
            assert(clear_of(strong, leaves[i].0));
            assert(after.contains_key(dotted(leaves[i].0)));
            if before.contains_key(key) {
                let s = strength(before[key].source);
                let found = before[key].node;
                let other = choose|other: Seq<Seq<char>>| #[trigger]
                    is_leaf(layers[s], other, found) && dotted(other) == key && !masked(
                        layers,
                        s,
                        other,
                    );
                assert(collide(path, other));
                assert(masked(layers, n, path));
            }
        } else {
            assert(before.contains_key(key));
            assert(after[key] == before[key]);
        }
    }
    assert forall|key: Seq<char>| #[trigger] after.contains_key(key) implies strength(
        after[key].source,
    ) >= m && unmasked_leaf(
        layers,
        strength(after[key].source),
        key,
        after[key].node,
    ) by {
        if before.contains_key(key) {
            assert(after[key] == before[key]);
        } else {
            let i = choose|i: int|
                0 <= i < leaves.len() && clear_of(strong, (#[trigger] leaves[i]).0) && dotted(
                    leaves[i].0,
                ) == key && leaves[i].1 == after[key].node;
            let (path, node) = leaves[i];
            assert(leaves.contains((path, node)));
            lemma_clear_is_unmasked(layers, strong, m, path);
            assert(is_leaf(layers[m], path, node));
        }
    }
}

/// Go through one layer: enter its leaves that nothing stronger masks, and count them all
/// among those that mask what is weaker.
fn take_layer<'a>(
    into: &mut EffectiveConfig,
    strong: &mut Vec<Leaf<'a>>,
    layer: &'a ConfigLayer,
    source: SourceLayer,
    Ghost(layers): Ghost<Seq<Map<Seq<char>, NodeModel>>>,
)
    requires
        old(into).wf(),
        layers.len() == 4,
        layers[strength(source)] == layer@,
        resolves_above(layers, old(into)@, strength(source) + 1),
        leaves_above(layers, leaf_models(old(strong)@), strength(source) + 1),
    ensures
        final(into).wf(),
        resolves_above(layers, final(into)@, strength(source)),
        leaves_above(layers, leaf_models(final(strong)@), strength(source)),
{
    let ghost m = strength(source);
    let ghost entries = layer@;
    let ghost before = into@;
    let ghost masks = leaf_models(strong@);
    let mut leaves: Vec<Leaf<'a>> = Vec::new();
    let top: Vec<String> = Vec::new();
    add_leaves(&mut leaves, layer.as_table(), &top);
    let ghost models = leaf_models(leaves@);
    proof {
        assert(text_models(top@) =~= Seq::empty());
        assert forall|path: Seq<Seq<char>>, node: NodeModel| #[trigger]
            models.contains((path, node)) <==> is_leaf(entries, path, node) by {
            assert(path.skip(0) =~= path);
            assert(text_models(top@) =~= path.subrange(0, 0));
            assert(text_models(top@).is_prefix_of(path));
        }
        assert forall|i: int| 0 <= i < leaves@.len() implies !((#[trigger] models[i]).1 is Table) by {
            let (path, node) = models[i];
            assert(models.contains((path, node)));
        }
    }
    enter_leaves(into, strong, &leaves, source);
    proof {
        lemma_next_layer(layers, before, into@, masks, models, source);
    }
    add_leaves(strong, layer.as_table(), &top);
    proof {
        let after = leaf_models(strong@);
        assert forall|path: Seq<Seq<char>>, node: NodeModel| #[trigger]
            after.contains((path, node)) <==> exists|n: int|
            m <= n < 4 && #[trigger] is_leaf(layers[n], path, node) by {
            assert(path.skip(0) =~= path);
            assert(text_models(top@) =~= path.subrange(0, 0));
            assert(text_models(top@).is_prefix_of(path));
            assert(after.contains((path, node)) <==> masks.contains((path, node)) || is_leaf(
                entries,
                path,
                node,
            ));
            if is_leaf(entries, path, node) {
                assert(is_leaf(layers[m], path, node));
            }
        }
    }
}

/// Resolve the four layers, which come weakest first.
pub fn resolve(layers: [ConfigLayer; 4]) -> (r: EffectiveConfig)
    ensures
        r.wf(),
        resolves_to(layer_models(layers@), r@),
{
    let ghost models = layer_models(layers@);
    let mut resolved = EffectiveConfig::none();
    let mut strong: Vec<Leaf> = Vec::new();
    proof {
        assert(models[0] == layers@[0]@ && models[1] == layers@[1]@ && models[2] == layers@[2]@
            && models[3] == layers@[3]@);
        assert(leaf_models(strong@) =~= Seq::empty());
    }
    take_layer(
        &mut resolved,
        &mut strong,
        &layers[3],
        SourceLayer::InvocationOverride,
        Ghost(models),
    );
    take_layer(&mut resolved, &mut strong, &layers[2], SourceLayer::Instance, Ghost(models));
    take_layer(&mut resolved, &mut strong, &layers[1], SourceLayer::KindDefault, Ghost(models));
    take_layer(&mut resolved, &mut strong, &layers[0], SourceLayer::EngineDefault, Ghost(models));
    resolved
}

/// The strongest layer wins: a key is resolved just where some layer has a leaf under it that
/// no stronger layer masks, and then its value is that of such a leaf, of the layer noted.
pub proof fn law_the_strongest_layer_wins(
    layers: Seq<Map<Seq<char>, NodeModel>>,
    resolved: Map<Seq<char>, ResolvedModel>,
    key: Seq<char>,
)
    requires
        layers.len() == 4,
        resolves_to(layers, resolved),
    ensures
        resolved.contains_key(key) <==> exists|n: int, node: NodeModel|
            0 <= n < 4 && #[trigger] unmasked_leaf(layers, n, key, node),
        resolved.contains_key(key) ==> unmasked_leaf(
            layers,
            strength(resolved[key].source),
            key,
            resolved[key].node,
        ),
{
    assert forall|n: int, node: NodeModel|
        0 <= n < 4 && #[trigger] unmasked_leaf(
            layers,
            n,
            key,
            node,
        ) implies resolved.contains_key(key) by {
        let path = choose|path: Seq<Seq<char>>| #[trigger]
            is_leaf(layers[n], path, node) && dotted(path) == key && !masked(layers, n, path);
        assert(is_leaf(layers[n], path, node));
    }
    if resolved.contains_key(key) {
        assert(unmasked_leaf(layers, strength(resolved[key].source), key, resolved[key].node));
    }
}

/// A collision across layers is masked: where a stronger layer has a leaf in the place of a
/// leaf, above it or below it, the weaker leaf is not resolved. (What may be resolved under
/// its dotted key is then another layer's.)
pub proof fn law_a_collision_is_masked(
    layers: Seq<Map<Seq<char>, NodeModel>>,
    resolved: Map<Seq<char>, ResolvedModel>,
    weak: int,
    path: Seq<Seq<char>>,
    node: NodeModel,
    strong: int,
    other: Seq<Seq<char>>,
    stronger: NodeModel,
)
    requires
        layers.len() == 4,
        resolves_to(layers, resolved),
        0 <= weak < strong < 4,
        is_leaf(layers[weak], path, node),
        only_leaf(layers[weak], path),
        is_leaf(layers[strong], other, stronger),
        path.is_prefix_of(other) || other.is_prefix_of(path),
    ensures
        resolved.contains_key(dotted(path)) ==> strength(resolved[dotted(path)].source) != weak,
{
    let key = dotted(path);
    if resolved.contains_key(key) && strength(resolved[key].source) == weak {
        let found = choose|found: Seq<Seq<char>>| #[trigger]
            is_leaf(layers[weak], found, resolved[key].node) && dotted(found) == key && !masked(
                layers,
                weak,
                found,
            );
        assert(found == path);
        assert(collide(path, other));
        assert(masked(layers, weak, path));
    }
}

/// No two values that were resolved from different layers collide: neither stands in the place
/// of the other, above it or below it.
pub proof fn law_what_is_resolved_does_not_collide(
    layers: Seq<Map<Seq<char>, NodeModel>>,
    resolved: Map<Seq<char>, ResolvedModel>,
    key: Seq<char>,
    other: Seq<char>,
)
    requires
        layers.len() == 4,
        resolves_to(layers, resolved),
        resolved.contains_key(key),
        resolved.contains_key(other),
        resolved[key].source != resolved[other].source,
    ensures
        exists|p: Seq<Seq<char>>, q: Seq<Seq<char>>|
            #![trigger dotted(p), dotted(q)]
            dotted(p) == key && dotted(q) == other && is_leaf(
                layers[strength(resolved[key].source)],
                p,
                resolved[key].node,
            ) && is_leaf(
                layers[strength(resolved[other].source)],
                q,
                resolved[other].node,
            ) && !collide(p, q),
{
    let n = strength(resolved[key].source);
    let m = strength(resolved[other].source);
    let p = choose|p: Seq<Seq<char>>| #[trigger]
        is_leaf(layers[n], p, resolved[key].node) && dotted(p) == key && !masked(layers, n, p);
    let q = choose|q: Seq<Seq<char>>| #[trigger]
        is_leaf(layers[m], q, resolved[other].node) && dotted(q) == other && !masked(layers, m, q);
    if collide(p, q) {
        assert(collide(q, p));
        if n < m {
            assert(masked(layers, n, p));
        } else {
            assert(masked(layers, m, q));
        }
    }
}

/// Where no key of a table holds a dot, every leaf of it is the only one under its dotted key.
pub proof fn law_keys_without_dots_name_one_leaf(
    entries: Map<Seq<char>, NodeModel>,
    path: Seq<Seq<char>>,
    node: NodeModel,
)
    requires
        keys_have_no_dots(entries),
        is_leaf(entries, path, node),
    ensures
        only_leaf(entries, path),
{
    lemma_leaf_path_splits(entries, path, node);
    assert forall|other: Seq<Seq<char>>, n: NodeModel| #[trigger]
        is_leaf(entries, other, n) && dotted(other) == dotted(path) implies other == path by {
        lemma_leaf_path_splits(entries, other, n);
    }
}

proof fn lemma_leaf_path_splits(
    entries: Map<Seq<char>, NodeModel>,
    path: Seq<Seq<char>>,
    node: NodeModel,
)
    requires
        keys_have_no_dots(entries),
        is_leaf(entries, path, node),
    ensures
        parts_of(dotted(path)) == path,
{
    assert(path.len() > 0);
    assert forall|i: int| 0 <= i < path.len() implies !(#[trigger] path[i]).contains('.') by {
        assert(node_at(NodeModel::Table(entries), path) is Some);
    }
    lemma_dotted_splits(path);
}

/// What is set in the instance layer is what is resolved: a text set under a key of that
/// layer comes out under the key, noted as the instance's, unless an override masks it.
pub proof fn law_set_value_is_resolved(
    layers: Seq<Map<Seq<char>, NodeModel>>,
    before: Map<Seq<char>, NodeModel>,
    key: Seq<char>,
    node: NodeModel,
    resolved: Map<Seq<char>, ResolvedModel>,
)
    requires
        layers.len() == 4,
        !(node is Table),
        set_path(before, parts_of(key), node) == Some(layers[2]),
        only_leaf(layers[2], parts_of(key)),
        !masked(layers, 2, parts_of(key)),
        resolves_to(layers, resolved),
    ensures
        resolved.contains_key(key),
        resolved[key] == (ResolvedModel { node, source: SourceLayer::Instance }),
{
    let path = parts_of(key);
    lemma_parts_join(key);
    law_set_value_reads_back(before, path, node, layers[2]);
    assert(is_leaf(layers[2], path, node));
    assert(resolved.contains_key(dotted(path)));
    let found = resolved[key];
    assert(unmasked_leaf(layers, strength(found.source), key, found.node));
    let other = choose|other: Seq<Seq<char>>| #[trigger]
        is_leaf(layers[2], other, found.node) && dotted(other) == key && !masked(
            layers,
            2,
            other,
        );
    assert(other == path);
}

/// The address that observed traffic is sent to is the one that the override sets, whatever
/// any weaker layer says.
pub proof fn law_the_base_url_override_wins(
    layers: Seq<Map<Seq<char>, NodeModel>>,
    base_url: Seq<char>,
    resolved: Map<Seq<char>, ResolvedModel>,
)
    requires
        layers.len() == 4,
        layers[3] == base_url_entries(base_url),
        resolves_to(layers, resolved),
    ensures
        resolved.contains_key(METERING_BASE_URL_KEY@),
        resolved[METERING_BASE_URL_KEY@] == (ResolvedModel {
            node: NodeModel::Text(base_url),
            source: SourceLayer::InvocationOverride,
        }),
{
    reveal_strlit("metering");
    reveal_strlit("base_url");
    reveal_strlit(".");
    reveal_strlit("metering.base_url");
    let entries = layers[3];
    let inner = no_entries().insert("base_url"@, NodeModel::Text(base_url));
    let path = seq!["metering"@, "base_url"@];
    let node = NodeModel::Text(base_url);
    lemma_dotted_from_the_front("metering"@, seq!["base_url"@]);
    assert(seq!["metering"@] + seq!["base_url"@] =~= path);
    assert(dotted(seq!["base_url"@]) == "base_url"@);
    assert(dotted(path) =~= METERING_BASE_URL_KEY@);
    assert(path.drop_first() =~= seq!["base_url"@]);
    assert(path.drop_first().drop_first() =~= Seq::empty());
    assert(node_at(node, Seq::empty()) == Some(node));
    assert(node_at(NodeModel::Table(inner), path.drop_first()) == Some(node));
    assert(is_leaf(layers[3], path, node));
    assert(!masked(layers, 3, path));
    let found = resolved[METERING_BASE_URL_KEY@];
    assert(unmasked_leaf(layers, strength(found.source), METERING_BASE_URL_KEY@, found.node));
    let other = choose|other: Seq<Seq<char>>| #[trigger]
        is_leaf(layers[3], other, found.node) && dotted(other) == METERING_BASE_URL_KEY@
            && !masked(layers, 3, other);
    let rest = other.drop_first();
    assert(other.len() > 0 && other[0] == "metering"@);
    assert(node_at(NodeModel::Table(inner), rest) == Some(found.node));
    assert(rest.len() > 0 && rest[0] == "base_url"@);
    assert(node_at(node, rest.drop_first()) == Some(found.node));
}

/// A leaf of any layer that no stronger layer has a leaf in place of, above or below is resolved as
/// it is, and noted as that layer's: the engine's defaults are the weakest, then come those of
/// the kind, then the instance's, and the overrides of an invocation are the strongest.
pub proof fn law_a_leaf_without_a_stronger_one_is_resolved(
    layers: Seq<Map<Seq<char>, NodeModel>>,
    resolved: Map<Seq<char>, ResolvedModel>,
    n: int,
    path: Seq<Seq<char>>,
    node: NodeModel,
)
    requires
        layers.len() == 4,
        resolves_to(layers, resolved),
        0 <= n < 4,
        is_leaf(layers[n], path, node),
        only_leaf(layers[n], path),
        forall|m: int, other: Seq<Seq<char>>, stronger: NodeModel|
            n < m < 4 && #[trigger] is_leaf(layers[m], other, stronger) ==> !path.is_prefix_of(
                other,
            ) && !other.is_prefix_of(path) && dotted(other) != dotted(path),
    ensures
        resolved.contains_key(dotted(path)),
        resolved[dotted(path)].node == node,
        resolved[dotted(path)].source == if n == 0 {
            SourceLayer::EngineDefault
        } else if n == 1 {
            SourceLayer::KindDefault
        } else if n == 2 {
            SourceLayer::Instance
        } else {
            SourceLayer::InvocationOverride
        },
{
    let key = dotted(path);
    assert(!masked(layers, n, path));
    let found = resolved[key];
    assert(strength(found.source) == n);
    assert(unmasked_leaf(layers, n, key, found.node));
    let other = choose|other: Seq<Seq<char>>| #[trigger]
        is_leaf(layers[n], other, found.node) && dotted(other) == key && !masked(layers, n, other);
    assert(other == path);
}

} // verus!
