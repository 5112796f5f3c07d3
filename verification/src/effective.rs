//! A resolved configuration: every value under its dotted key, with the layer it comes from.
use crate::config::SourceLayer;
use crate::text::same_text;
use crate::toml_table::{
    inline_form, node_of, value_as_str, value_clone, value_render, writable, NodeModel,
};
use crate::writable::{value_is_writable, UNWRITABLE};
use vstd::prelude::*;

verus! {

/// What a reference to a secret begins with.
pub const SECRET_PREFIX: &'static str = "secret:";

/// What is shown in place of a reference to a secret.
pub const SECRET_MASK: &'static str = "secret:****";

/// Whether one text comes before another in the order of characters.
pub open spec fn text_before(a: Seq<char>, b: Seq<char>) -> bool
    decreases a.len(),
{
    if b.len() == 0 {
        false
    } else if a.len() == 0 {
        true
    } else if a[0] != b[0] {
        a[0] < b[0]
    } else {
        text_before(a.drop_first(), b.drop_first())
    }
}

pub proof fn lemma_text_order(a: Seq<char>, b: Seq<char>)
    ensures
        !text_before(a, a),
        a == b || text_before(a, b) || text_before(b, a),
        !(text_before(a, b) && text_before(b, a)),
    decreases a.len(),
{
    if a.len() > 0 {
        if b.len() > 0 && a[0] == b[0] {
            lemma_text_order(a.drop_first(), b.drop_first());
            if a.drop_first() == b.drop_first() {
                assert(a =~= seq![a[0]] + a.drop_first());
                assert(b =~= seq![b[0]] + b.drop_first());
            }
        } else {
            lemma_text_order(a.drop_first(), a.drop_first());
        }
    } else if b.len() == 0 {
        assert(a =~= b);
    }
}

proof fn lemma_text_order_chains(a: Seq<char>, b: Seq<char>, c: Seq<char>)
    requires
        text_before(a, b),
        text_before(b, c),
    ensures
        text_before(a, c),
    decreases a.len(),
{
    if a.len() > 0 && a[0] == b[0] && b[0] == c[0] {
        lemma_text_order_chains(a.drop_first(), b.drop_first(), c.drop_first());
    }
}

fn comes_before(a: &str, b: &str) -> (r: bool)
    ensures
        r == text_before(a@, b@),
{
    let n: usize = a.unicode_len();
    let m: usize = b.unicode_len();
    let mut i: usize = 0;
    assert(a@.skip(0) =~= a@);
    assert(b@.skip(0) =~= b@);
    while i < n && i < m
        invariant
            n == a@.len(),
            m == b@.len(),
            i <= n,
            i <= m,
            text_before(a@, b@) == text_before(a@.skip(i as int), b@.skip(i as int)),
        decreases n - i,
    {
        let x = a.get_char(i);
        let y = b.get_char(i);
        let ghost p = a@.skip(i as int);
        let ghost q = b@.skip(i as int);
        assert(p[0] == x && q[0] == y);
        assert(p.drop_first() =~= a@.skip(i + 1));
        assert(q.drop_first() =~= b@.skip(i + 1));
        if x != y {
            return x < y;
        }
        i = i + 1;
    }
    i < m
}

/// A resolved value and the layer it comes from.
pub struct ResolvedValue {
    /// The value.
    pub value: toml::Value,
    /// The layer.
    pub source: SourceLayer,
}

/// The model of a [`ResolvedValue`].
pub struct ResolvedModel {
    /// The value.
    pub node: NodeModel,
    /// The layer.
    pub source: SourceLayer,
}

impl View for ResolvedValue {
    type V = ResolvedModel;

    open spec fn view(&self) -> ResolvedModel {
        ResolvedModel { node: node_of(self.value), source: self.source }
    }
}

/// What a text refers to as a secret, if it does.
pub open spec fn secret_name_of(text: Seq<char>) -> Option<Seq<char>> {
    if SECRET_PREFIX@.is_prefix_of(text) {
        Some(text.skip(SECRET_PREFIX@.len() as int))
    } else {
        None
    }
}

/// What a text refers to as a secret, if it does: what follows the prefix.
pub fn secret_name(text: &str) -> (r: Option<String>)
    ensures
        match r {
            Some(name) => secret_name_of(text@) == Some(name@),
            None => secret_name_of(text@) is None,
        },
{
    let n: usize = text.unicode_len();
    let m: usize = SECRET_PREFIX.unicode_len();
    if n >= m && same_text(text.substring_char(0, m), SECRET_PREFIX) {
        assert(SECRET_PREFIX@ =~= text@.subrange(0, m as int));
        let rest = text.substring_char(m, n).to_owned();
        assert(rest@ =~= text@.skip(m as int));
        Some(rest)
    } else {
        proof {
            if SECRET_PREFIX@.is_prefix_of(text@) {
                assert(text@.subrange(0, m as int) =~= SECRET_PREFIX@);
            }
        }
        None
    }
}

/// How a resolved value is shown: a text as it is, a reference to a secret masked, anything
/// else in its inline form where it can be written.
pub open spec fn shown(node: NodeModel) -> Seq<char> {
    match node {
        NodeModel::Text(text) => if secret_name_of(text) is Some {
            SECRET_MASK@
        } else {
            text
        },
        _ => if writable(node) {
            inline_form(node)
        } else {
            UNWRITABLE@
        },
    }
}

impl ResolvedValue {
    /// How the value is shown.
    pub fn display(&self) -> (r: String)
        ensures
            r@ == shown(self@.node),
    {
        match value_as_str(&self.value) {
            Some(text) => match secret_name(text) {
                Some(_) => SECRET_MASK.to_owned(),
                None => text.to_owned(),
            },
            None => if value_is_writable(&self.value) {
                value_render(&self.value)
            } else {
                UNWRITABLE.to_owned()
            },
        }
    }
}

/// References to different secrets are shown the same: the mask gives away nothing.
pub proof fn law_secret_references_are_masked(text: Seq<char>, other: Seq<char>)
    requires
        secret_name_of(text) is Some,
        secret_name_of(other) is Some,
    ensures
        shown(NodeModel::Text(text)) == shown(NodeModel::Text(other)),
        shown(NodeModel::Text(text)) == SECRET_MASK@,
{
}

/// A leaf that refers to a secret.
pub struct SecretLeafOf<S> {
    /// The dotted key of the leaf.
    pub key: S,
    /// The name of the secret.
    pub secret: S,
}

/// A leaf that refers to a secret.
pub type SecretLeaf = SecretLeafOf<String>;

/// The model of a [`SecretLeaf`].
pub type SecretLeafModel = SecretLeafOf<Seq<char>>;

impl View for SecretLeafOf<String> {
    type V = SecretLeafModel;

    open spec fn view(&self) -> SecretLeafModel {
        SecretLeafOf { key: self.key@, secret: self.secret@ }
    }
}

/// The models of some leaves.
pub open spec fn secret_leaf_models(leaves: Seq<SecretLeaf>) -> Seq<SecretLeafModel> {
    leaves.map(|i: int, leaf: SecretLeaf| leaf@)
}

/// What a resolved value refers to as a secret, if it does.
pub open spec fn secret_of(node: NodeModel) -> Option<Seq<char>> {
    match node {
        NodeModel::Text(text) => secret_name_of(text),
        _ => None,
    }
}

/// The leaves among some keys that refer to a secret.
pub open spec fn secret_leaves_of(
    keys: Seq<Seq<char>>,
    resolved: Map<Seq<char>, ResolvedModel>,
) -> Seq<SecretLeafModel>
    decreases keys.len(),
{
    if keys.len() == 0 {
        Seq::empty()
    } else {
        let before = secret_leaves_of(keys.drop_last(), resolved);
        match secret_of(resolved[keys.last()].node) {
            Some(secret) => before.push(SecretLeafOf { key: keys.last(), secret }),
            None => before,
        }
    }
}

/// The leaves whose secrets are delivered are exactly those that are shown masked: every
/// one of them refers to its secret, and every key that refers to a secret is among them.
pub proof fn law_delivered_leaves_are_masked(
    keys: Seq<Seq<char>>,
    resolved: Map<Seq<char>, ResolvedModel>,
)
    ensures
        forall|i: int|
            0 <= i < secret_leaves_of(keys, resolved).len() ==> ({
                let leaf = #[trigger] secret_leaves_of(keys, resolved)[i];
                &&& keys.contains(leaf.key)
                &&& secret_of(resolved[leaf.key].node) == Some(leaf.secret)
                &&& shown(resolved[leaf.key].node) == SECRET_MASK@
            }),
        forall|key: Seq<char>| #[trigger]
            keys.contains(key) && secret_of(resolved[key].node) is Some ==> secret_leaves_of(
                keys,
                resolved,
            ).contains(SecretLeafOf { key, secret: secret_of(resolved[key].node)->0 }),
    decreases keys.len(),
{
    if keys.len() > 0 {
        let front = keys.drop_last();
        let before = secret_leaves_of(front, resolved);
        let leaves = secret_leaves_of(keys, resolved);
        law_delivered_leaves_are_masked(front, resolved);
        assert forall|i: int| 0 <= i < leaves.len() implies ({
            let leaf = #[trigger] leaves[i];
            &&& keys.contains(leaf.key)
            &&& secret_of(resolved[leaf.key].node) == Some(leaf.secret)
            &&& shown(resolved[leaf.key].node) == SECRET_MASK@
        }) by {
            if i < before.len() {
                assert(leaves[i] == before[i]);
                let j = choose|j: int| 0 <= j < front.len() && front[j] == before[i].key;
                assert(keys[j] == before[i].key);
            } else {
                assert(keys[keys.len() - 1] == leaves[i].key);
            }
        }
        assert forall|key: Seq<char>| #[trigger]
            keys.contains(key) && secret_of(resolved[key].node) is Some implies leaves.contains(
            SecretLeafOf { key, secret: secret_of(resolved[key].node)->0 },
        ) by {
            let leaf = SecretLeafOf { key, secret: secret_of(resolved[key].node)->0 };
            let j = choose|j: int| 0 <= j < keys.len() && keys[j] == key;
            if j < front.len() {
                assert(front[j] == key);
                assert(front.contains(key));
                let i = choose|i: int| 0 <= i < before.len() && before[i] == leaf;
                assert(leaves[i] == leaf);
            } else {
                assert(leaves[leaves.len() - 1] == leaf);
            }
        }
    }
}

/// The resolved configuration: every leaf under its dotted key, in the order of the keys.
pub struct EffectiveConfig {
    entries: Vec<(String, ResolvedValue)>,
}

spec fn resolved_at(entries: Seq<(String, ResolvedValue)>, key: Seq<char>, i: int) -> bool {
    0 <= i < entries.len() && entries[i].0@ == key
}

spec fn resolved_map(entries: Seq<(String, ResolvedValue)>) -> Map<Seq<char>, ResolvedModel> {
    Map::new(
        |key: Seq<char>| exists|i: int| resolved_at(entries, key, i),
        |key: Seq<char>| entries[choose|i: int| resolved_at(entries, key, i)].1@,
    )
}

spec fn ordered(entries: Seq<(String, ResolvedValue)>) -> bool {
    forall|i: int, j: int|
        0 <= i < j < entries.len() ==> text_before(
            #[trigger] entries[i].0@,
            #[trigger] entries[j].0@,
        )
}

proof fn lemma_resolved_entry(entries: Seq<(String, ResolvedValue)>, i: int)
    requires
        ordered(entries),
        0 <= i < entries.len(),
    ensures
        resolved_map(entries).contains_key(entries[i].0@),
        resolved_map(entries)[entries[i].0@] == entries[i].1@,
{
    assert(resolved_at(entries, entries[i].0@, i));
    let j = choose|j: int| resolved_at(entries, entries[i].0@, j);
    lemma_text_order(entries[i].0@, entries[j].0@);
    if i < j {
        assert(text_before(entries[i].0@, entries[j].0@));
    }
    if j < i {
        assert(text_before(entries[j].0@, entries[i].0@));
    }
}

impl View for EffectiveConfig {
    type V = Map<Seq<char>, ResolvedModel>;

    closed spec fn view(&self) -> Map<Seq<char>, ResolvedModel> {
        resolved_map(self.entries@)
    }
}

/// The keys of some entries.
spec fn entry_keys(entries: Seq<(String, ResolvedValue)>) -> Seq<Seq<char>> {
    entries.map(|i: int, entry: (String, ResolvedValue)| entry.0@)
}

/// Whether some keys are in the order of characters, each once.
pub open spec fn keys_in_order(keys: Seq<Seq<char>>) -> bool {
    forall|i: int, j: int|
        0 <= i < j < keys.len() ==> text_before(#[trigger] keys[i], #[trigger] keys[j])
}

impl EffectiveConfig {
    /// The keys in their order.
    pub closed spec fn keys(&self) -> Seq<Seq<char>> {
        entry_keys(self.entries@)
    }

    /// The keys are in order, each once, and no value is a table.
    pub closed spec fn wf(&self) -> bool {
        &&& ordered(self.entries@)
        &&& forall|i: int| 0 <= i < self.entries@.len() ==> !(#[trigger] self.entries@[i].1@.node is Table)
    }

    /// The keys come in order, each once, and are exactly those that hold a value; and no
    /// value is a table.
    pub proof fn law_keys_come_in_order(&self)
        requires
            self.wf(),
        ensures
            keys_in_order(self.keys()),
            forall|key: Seq<char>| self@.contains_key(key) <==> #[trigger] self.keys().contains(key),
            forall|key: Seq<char>| #[trigger] self@.contains_key(key) ==> !(self@[key].node is Table),
    {
        let keys = self.keys();
        assert forall|i: int, j: int| 0 <= i < j < keys.len() implies text_before(
            #[trigger] keys[i],
            #[trigger] keys[j],
        ) by {
            assert(text_before(self.entries@[i].0@, self.entries@[j].0@));
        }
        assert forall|key: Seq<char>| self@.contains_key(key) <==> #[trigger] keys.contains(key) by {
            if self@.contains_key(key) {
                let i = choose|i: int| resolved_at(self.entries@, key, i);
                assert(keys[i] == key);
            }
            if keys.contains(key) {
                let i = choose|i: int| 0 <= i < keys.len() && keys[i] == key;
                assert(resolved_at(self.entries@, key, i));
            }
        }
        assert forall|key: Seq<char>| #[trigger] self@.contains_key(key) implies !(self@[key].node is Table) by {
            let i = choose|i: int| resolved_at(self.entries@, key, i);
            lemma_resolved_entry(self.entries@, i);
        }
    }

    pub(crate) fn none() -> (r: Self)
        ensures
            r.wf(),
            r@ == Map::<Seq<char>, ResolvedModel>::empty(),
    {
        let r = EffectiveConfig { entries: Vec::new() };
        assert(resolved_map(r.entries@) =~= Map::<Seq<char>, ResolvedModel>::empty());
        r
    }

    /// Whether nothing is configured.
    pub fn is_empty(&self) -> (r: bool)
        requires
            self.wf(),
        ensures
            r == (self@ == Map::<Seq<char>, ResolvedModel>::empty()),
    {
        if self.entries.len() == 0 {
            assert(self@ =~= Map::<Seq<char>, ResolvedModel>::empty());
            true
        } else {
            proof {
                lemma_resolved_entry(self.entries@, 0);
            }
            false
        }
    }

    fn position(&self, key: &str) -> (r: Option<usize>)
        ensures
            match r {
                Some(i) => resolved_at(self.entries@, key@, i as int),
                None => forall|i: int| !resolved_at(self.entries@, key@, i),
            },
    {
        let mut i: usize = 0;
        while i < self.entries.len()
            invariant
                i <= self.entries@.len(),
                forall|j: int| 0 <= j < i ==> !resolved_at(self.entries@, key@, j),
            decreases self.entries@.len() - i,
        {
            if same_text(self.entries[i].0.as_str(), key) {
                return Some(i);
            }
            i = i + 1;
        }
        None
    }

    /// The resolved value of a key and where it comes from.
    pub fn get(&self, key: &str) -> (r: Option<&ResolvedValue>)
        requires
            self.wf(),
        ensures
            match r {
                Some(found) => self@.contains_key(key@) && self@[key@] == found@ && !(found@.node is
                    Table),
                None => !self@.contains_key(key@),
            },
    {
        match self.position(key) {
            Some(i) => {
                proof {
                    lemma_resolved_entry(self.entries@, i as int);
                }
                Some(&self.entries[i].1)
            },
            None => None,
        }
    }

    /// The resolved value of a key.
    pub fn value(&self, key: &str) -> (r: Option<&toml::Value>)
        requires
            self.wf(),
        ensures
            match r {
                Some(value) => self@.contains_key(key@) && self@[key@].node == node_of(*value),
                None => !self@.contains_key(key@),
            },
    {
        match self.get(key) {
            Some(found) => Some(&found.value),
            None => None,
        }
    }

    /// How the value of a key is shown.
    pub fn value_display(&self, key: &str) -> (r: Option<String>)
        requires
            self.wf(),
        ensures
            match r {
                Some(text) => self@.contains_key(key@) && text@ == shown(self@[key@].node),
                None => !self@.contains_key(key@),
            },
    {
        match self.get(key) {
            Some(found) => Some(found.display()),
            None => None,
        }
    }

    /// Forget a key.
    pub fn remove(&mut self, key: &str)
        requires
            old(self).wf(),
        ensures
            final(self).wf(),
            final(self)@ == old(self)@.remove(key@),
    {
        let ghost before = self.entries@;
        match self.position(key) {
            Some(i) => {
                let _gone = self.entries.remove(i);
                proof {
                    let after = self.entries@;
                    assert forall|a: int| 0 <= a < after.len() implies #[trigger] after[a]
                        == before[if a < i { a } else { a + 1 }] by {}
                    assert(ordered(after));
                    assert forall|k: Seq<char>|
                        k != key@ && #[trigger] resolved_map(before).contains_key(k) implies resolved_map(
                        after,
                    ).contains_key(k) && resolved_map(after)[k] == resolved_map(before)[k] by {
                        let a = choose|a: int| resolved_at(before, k, a);
                        let b = if a < i { a } else { a - 1 };
                        assert(after[b].0@ == k);
                        lemma_resolved_entry(after, b);
                        lemma_resolved_entry(before, a);
                    }
                    assert forall|k: Seq<char>| #[trigger] resolved_map(after).contains_key(k) implies
                        k != key@ && resolved_map(before).contains_key(k) by {
                        let b = choose|b: int| resolved_at(after, k, b);
                        let a = if b < i { b } else { b + 1 };
                        assert(before[a].0@ == k);
                        assert(resolved_at(before, k, a));
                        if k == key@ {
                            lemma_text_order(k, k);
                            if a < i {
                                assert(text_before(before[a].0@, before[i as int].0@));
                            } else {
                                assert(text_before(before[i as int].0@, before[a].0@));
                            }
                        }
                    }
                    assert(resolved_map(after) =~= resolved_map(before).remove(key@));
                }
            },
            None => {
                assert(resolved_map(before).remove(key@) =~= resolved_map(before));
            },
        }
    }

    /// How many keys there are.
    pub fn len(&self) -> (r: usize)
        ensures
            r == self.keys().len(),
    {
        self.entries.len()
    }

    /// The key in some place of the order, and its value.
    pub fn entry(&self, i: usize) -> (r: (&str, &ResolvedValue))
        requires
            self.wf(),
            i < self.keys().len(),
        ensures
            r.0@ == self.keys()[i as int],
            self@.contains_key(r.0@),
            self@[r.0@] == r.1@,
            !(r.1@.node is Table),
    {
        proof {
            lemma_resolved_entry(self.entries@, i as int);
        }
        (self.entries[i].0.as_str(), &self.entries[i].1)
    }

    /// The leaves that refer to a secret, in the order of the keys.
    pub fn secret_leaves(&self) -> (r: Vec<SecretLeaf>)
        requires
            self.wf(),
        ensures
            secret_leaf_models(r@) == secret_leaves_of(self.keys(), self@),
    {
        let mut out: Vec<SecretLeaf> = Vec::new();
        let n: usize = self.len();
        let mut i: usize = 0;
        proof {
            assert(self.keys().take(0) =~= Seq::empty());
            assert(secret_leaf_models(out@) =~= Seq::empty());
        }
        while i < n
            invariant
                self.wf(),
                i <= n == self.keys().len(),
                secret_leaf_models(out@) == secret_leaves_of(self.keys().take(i as int), self@),
            decreases n - i,
        {
            let ghost before = out@;
            let (key, found) = self.entry(i);
            proof {
                let after = self.keys().take(i + 1);
                assert(after.drop_last() =~= self.keys().take(i as int));
                assert(after.last() == key@);
            }
            if let Some(text) = value_as_str(&found.value) {
                if let Some(secret) = secret_name(text) {
                    out.push(SecretLeaf { key: key.to_owned(), secret });
                    assert(secret_leaf_models(out@) =~= secret_leaf_models(before).push(
                        out@.last()@,
                    ));
                }
            }
            i = i + 1;
        }
        proof {
            assert(self.keys().take(n as int) =~= self.keys());
        }
        out
    }

    /// Enter a value under a key that holds none yet.
    pub(crate) fn enter(&mut self, key: String, value: &toml::Value, source: SourceLayer)
        requires
            old(self).wf(),
            !(node_of(*value) is Table),
        ensures
            final(self).wf(),
            final(self)@ == if old(self)@.contains_key(key@) {
                old(self)@
            } else {
                old(self)@.insert(key@, ResolvedModel { node: node_of(*value), source })
            },
    {
        let ghost before = self.entries@;
        let mut i: usize = 0;
        while i < self.entries.len() && comes_before(self.entries[i].0.as_str(), key.as_str())
            invariant
                i <= self.entries@.len(),
                self.entries@ == before,
                forall|j: int| 0 <= j < i ==> text_before(#[trigger] before[j].0@, key@),
            decreases self.entries@.len() - i,
        {
            i = i + 1;
        }
        if i < self.entries.len() && same_text(self.entries[i].0.as_str(), key.as_str()) {
            proof {
                lemma_resolved_entry(before, i as int);
            }
            return;
        }
        let ghost text = key@;
        let entered = ResolvedValue { value: value_clone(value), source };
        let ghost model = entered@;
        self.entries.insert(i, (key, entered));
        proof {
            let after = self.entries@;
            assert forall|j: int| i <= j < before.len() implies text_before(
                text,
                #[trigger] before[j].0@,
            ) by {
                lemma_text_order(text, before[i as int].0@);
                if j > i {
                    assert(text_before(before[i as int].0@, before[j].0@));
                    lemma_text_order_chains(text, before[i as int].0@, before[j].0@);
                }
            }
            assert forall|a: int| 0 <= a < after.len() implies #[trigger] after[a] == if a < i {
                before[a]
            } else if a == i {
                after[i as int]
            } else {
                before[a - 1]
            } by {}
            assert(after[i as int].0@ == text);
            assert(after[i as int].1@ == model);
            assert(ordered(after));
            assert(!resolved_map(before).contains_key(text)) by {
                if resolved_map(before).contains_key(text) {
                    let a = choose|a: int| resolved_at(before, text, a);
                    lemma_text_order(text, text);
                    assert(before[a].0@ == text);
                }
            }
            assert forall|k: Seq<char>| #[trigger]
                resolved_map(before).contains_key(k) implies resolved_map(after).contains_key(k)
                && resolved_map(after)[k] == resolved_map(before)[k] by {
                let a = choose|a: int| resolved_at(before, k, a);
                let b = if a < i { a } else { a + 1 };
                assert(after[b].0@ == k);
                lemma_resolved_entry(after, b);
                lemma_resolved_entry(before, a);
            }
            assert forall|k: Seq<char>| #[trigger] resolved_map(after).contains_key(k) implies k
                == text || resolved_map(before).contains_key(k) by {
                let b = choose|b: int| resolved_at(after, k, b);
                if b != i {
                    let a = if b < i { b } else { b - 1 };
                    assert(before[a].0@ == k);
                    assert(resolved_at(before, k, a));
                }
            }
            lemma_resolved_entry(after, i as int);
            assert(resolved_map(after) =~= resolved_map(before).insert(text, model));
        }
    }
}

/// A text is a reference to a secret exactly where it begins with the prefix, and then names what
/// comes after it.
pub proof fn law_a_secret_is_named_after_its_prefix(text: Seq<char>, name: Seq<char>)
    ensures
        secret_name_of("secret:"@ + name) == Some(name),
        secret_name_of(text) == Some(name) <==> text == "secret:"@ + name,
{
    assert(SECRET_PREFIX@.is_prefix_of("secret:"@ + name)) by {
        assert(("secret:"@ + name).take(SECRET_PREFIX@.len() as int) =~= SECRET_PREFIX@);
    }
    assert(("secret:"@ + name).skip(SECRET_PREFIX@.len() as int) =~= name);
    if secret_name_of(text) == Some(name) {
        assert(text =~= SECRET_PREFIX@ + text.skip(SECRET_PREFIX@.len() as int));
    }
}

/// A text that is no reference to a secret is shown as it is.
pub proof fn law_other_texts_are_shown(text: Seq<char>)
    requires
        secret_name_of(text) is None,
    ensures
        shown(NodeModel::Text(text)) == text,
{
}

/// The references to secrets come in the order of their keys, each key once.
pub proof fn law_secret_leaves_come_in_order(
    keys: Seq<Seq<char>>,
    resolved: Map<Seq<char>, ResolvedModel>,
)
    requires
        keys_in_order(keys),
    ensures
        forall|i: int, j: int|
            0 <= i < j < secret_leaves_of(keys, resolved).len() ==> text_before(
                (#[trigger] secret_leaves_of(keys, resolved)[i]).key,
                (#[trigger] secret_leaves_of(keys, resolved)[j]).key,
            ),
    decreases keys.len(),
{
    if keys.len() > 0 {
        let front = keys.drop_last();
        let before = secret_leaves_of(front, resolved);
        let leaves = secret_leaves_of(keys, resolved);
        assert forall|i: int, j: int| 0 <= i < j < front.len() implies text_before(
            #[trigger] front[i],
            #[trigger] front[j],
        ) by {
            assert(text_before(keys[i], keys[j]));
        }
        law_secret_leaves_come_in_order(front, resolved);
        law_delivered_leaves_are_masked(front, resolved);
        assert forall|i: int, j: int| 0 <= i < j < leaves.len() implies text_before(
            (#[trigger] leaves[i]).key,
            (#[trigger] leaves[j]).key,
        ) by {
            assert(leaves[i] == before[i]);
            if j < before.len() {
                assert(leaves[j] == before[j]);
            } else {
                let k = choose|k: int| 0 <= k < front.len() && front[k] == before[i].key;
                assert(text_before(keys[k], keys[keys.len() - 1]));
            }
        }
    }
}

} // verus!
