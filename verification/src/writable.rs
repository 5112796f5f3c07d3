//! Which TOML values can be written.
use crate::toml_table::{
    entries_of, node_of, quotes_at, quotes_fit, table_items, value_as_date, value_as_list,
    value_as_str, value_as_table, writable, writable_to, NodeModel, MOST_QUOTES_IN_A_ROW,
};
use vstd::prelude::*;

verus! {

/// What stands in place of a value that cannot be written.
pub const UNWRITABLE: &'static str = "a value that cannot be written";

/// A listing of a table's keys shows that they are finitely many.
pub proof fn lemma_listed_keys_are_finite(
    entries: Map<Seq<char>, NodeModel>,
    keys: Seq<Seq<char>>,
)
    requires
        forall|key: Seq<char>| #[trigger] entries.contains_key(key) ==> keys.contains(key),
    ensures
        entries.dom().finite(),
{
    vstd::seq_lib::seq_to_set_is_finite(keys);
    assert(entries.dom().subset_of(keys.to_set()));
    vstd::set_lib::lemma_set_subset_finite(keys.to_set(), entries.dom());
}

/// A list can be written just where each of its items can.
pub proof fn lemma_writable_list(items: Seq<NodeModel>)
    ensures
        writable(NodeModel::List(items)) <==> forall|i: int|
            0 <= i < items.len() ==> writable(#[trigger] items[i]),
{
    let node = NodeModel::List(items);
    if writable(node) {
        assert forall|i: int| 0 <= i < items.len() implies writable(#[trigger] items[i]) by {
            assert forall|levels: nat| #[trigger] writable_to(items[i], levels) by {
                let more: nat = levels + 1;
                assert(writable_to(node, more));
                assert(writable_to(node->List_0[i], (more - 1) as nat));
            }
        }
    }
    if forall|i: int| 0 <= i < items.len() ==> writable(#[trigger] items[i]) {
        assert forall|levels: nat| #[trigger] writable_to(node, levels) by {
            if levels > 0 {
                assert forall|i: int| 0 <= i < items.len() implies writable_to(
                    #[trigger] items[i],
                    (levels - 1) as nat,
                ) by {
                    assert(writable(items[i]));
                }
            }
        }
    }
}

/// A table can be written just where each of its values can.
pub proof fn lemma_writable_table(entries: Map<Seq<char>, NodeModel>)
    ensures
        writable(NodeModel::Table(entries)) <==> forall|key: Seq<char>| #[trigger]
            entries.contains_key(key) ==> writable(entries[key]),
{
    let node = NodeModel::Table(entries);
    if writable(node) {
        assert forall|key: Seq<char>| #[trigger] entries.contains_key(key) implies writable(
            entries[key],
        ) by {
            assert forall|levels: nat| #[trigger] writable_to(entries[key], levels) by {
                let more: nat = levels + 1;
                assert(writable_to(node, more));
                assert(node->Table_0.contains_key(key));
                assert(writable_to(node->Table_0[key], (more - 1) as nat));
            }
        }
    }
    if forall|key: Seq<char>| #[trigger] entries.contains_key(key) ==> writable(entries[key]) {
        assert forall|levels: nat| #[trigger] writable_to(node, levels) by {
            if levels > 0 {
                assert forall|key: Seq<char>| #[trigger]
                    entries.contains_key(key) implies writable_to(
                    entries[key],
                    (levels - 1) as nat,
                ) by {
                    assert(writable(entries[key]));
                }
            }
        }
    }
}

/// Whether a text holds nowhere too many of one quote in a row.
fn row_fits(text: &str, quote: char) -> (r: bool)
    ensures
        r == forall|at: int| !(#[trigger] quotes_at(text@, quote, at)),
{
    let n: usize = text.unicode_len();
    let mut i: usize = 0;
    let mut start: usize = 0;
    while i < n
        invariant
            n == text@.len(),
            start <= i <= n,
            i - start <= MOST_QUOTES_IN_A_ROW,
            forall|j: int| start <= j < i ==> #[trigger] text@[j] == quote,
            start > 0 ==> text@[start - 1] != quote,
            forall|at: int|
                #[trigger] quotes_at(text@, quote, at) ==> at >= start,
        decreases n - i,
    {
        if text.get_char(i) == quote {
            if i - start == MOST_QUOTES_IN_A_ROW {
                assert(quotes_at(text@, quote, start as int));
                return false;
            }
        } else {
            assert forall|at: int| #[trigger] quotes_at(text@, quote, at) implies at >= i + 1 by {
                if at <= i {
                    assert(text@[i as int] == quote);
                }
            }
            start = i + 1;
        }
        i = i + 1;
    }
    true
}

/// Whether a text holds nowhere too many equal quotes in a row.
fn text_fits(text: &str) -> (r: bool)
    ensures
        r == quotes_fit(text@),
{
    row_fits(text, '"') && row_fits(text, '\'')
}

/// Whether each of some values can be written.
fn list_is_writable(items: &Vec<toml::Value>) -> (r: bool)
    ensures
        r == writable(NodeModel::List(items@.map(|i: int, item: toml::Value| node_of(item)))),
    decreases items@.map(|i: int, item: toml::Value| node_of(item)), 0int,
{
    let ghost nodes = items@.map(|i: int, item: toml::Value| node_of(item));
    proof {
        lemma_writable_list(nodes);
    }
    let mut i: usize = 0;
    while i < items.len()
        invariant
            i <= items@.len(),
            nodes == items@.map(|i: int, item: toml::Value| node_of(item)),
            forall|j: int| 0 <= j < i ==> writable(#[trigger] nodes[j]),
        decreases items@.len() - i,
    {
        assert(nodes[i as int] == node_of(items@[i as int]));
        assert(decreases_to!(nodes => nodes[i as int]));
        if !value_is_writable(&items[i]) {
            proof {
                lemma_writable_list(nodes);
            }
            return false;
        }
        i = i + 1;
    }
    true
}

/// Whether a table can be written.
pub fn table_is_writable(table: &toml::map::Map<String, toml::Value>) -> (r: bool)
    ensures
        r == writable(NodeModel::Table(entries_of(*table))),
    decreases entries_of(*table), 0int,
{
    let ghost entries = entries_of(*table);
    let items = table_items(table);
    proof {
        lemma_writable_table(entries);
        let keys = items@.map(|i: int, item: (&String, &toml::Value)| item.0@);
        assert forall|key: Seq<char>| #[trigger] entries.contains_key(key) implies keys.contains(
            key,
        ) by {
            let i = choose|i: int| 0 <= i < items@.len() && #[trigger] items@[i].0@ == key;
            assert(keys[i] == key);
        }
        lemma_listed_keys_are_finite(entries, keys);
    }
    let mut i: usize = 0;
    while i < items.len()
        invariant
            i <= items@.len(),
            entries == entries_of(*table),
            entries.dom().finite(),
            forall|j: int|
                0 <= j < items@.len() ==> entries.contains_key(#[trigger] items@[j].0@)
                    && entries[items@[j].0@] == node_of(*items@[j].1),
            forall|j: int| 0 <= j < i ==> writable(entries[#[trigger] items@[j].0@]),
        decreases items@.len() - i,
    {
        let ghost first = items@[i as int].0@;
        assert(decreases_to!(entries => entries[first]));
        if !value_is_writable(items[i].1) {
            proof {
                lemma_writable_table(entries);
            }
            return false;
        }
        i = i + 1;
    }
    true
}

/// Whether a value can be written.
pub fn value_is_writable(value: &toml::Value) -> (r: bool)
    ensures
        r == writable(node_of(*value)),
    decreases node_of(*value), 1int,
{
    let ghost node = node_of(*value);
    if let Some(text) = value_as_str(value) {
        let fits = text_fits(text);
        assert(writable_to(node, 0) == fits);
        return fits;
    }
    if let Some(parts) = value_as_date(value) {
        let fits = match parts.offset {
            Some(Some(minutes)) => minutes != i16::MIN,
            _ => true,
        };
        assert(writable_to(node, 0) == fits);
        return fits;
    }
    if let Some(items) = value_as_list(value) {
        assert(decreases_to!(node => node->List_0));
        return list_is_writable(items);
    }
    if let Some(table) = value_as_table(value) {
        assert(decreases_to!(node => node->Table_0));
        return table_is_writable(table);
    }
    assert(node is Other);
    true
}

} // verus!
