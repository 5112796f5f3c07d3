//! Dotted keys, and setting a value under one.
use crate::error::{ConfigError, ConfigErrorModel, ConfigErrorOf};
use crate::toml_table::{
    entries_of, no_entries, node_of, table_insert, table_new, table_remove, value_from_table,
    value_into_table, NodeModel,
};
use vstd::prelude::*;

verus! {

/// What stands at the end of a path of keys, if the path leads anywhere.
pub open spec fn node_at(node: NodeModel, path: Seq<Seq<char>>) -> Option<NodeModel>
    decreases path.len(),
{
    if path.len() == 0 {
        Some(node)
    } else {
        match node {
            NodeModel::Table(entries) => if entries.contains_key(path[0]) {
                node_at(entries[path[0]], path.drop_first())
            } else {
                None
            },
            _ => None,
        }
    }
}

/// Whether a value that is no table stands at the end of a path of keys.
pub open spec fn is_leaf(
    entries: Map<Seq<char>, NodeModel>,
    path: Seq<Seq<char>>,
    node: NodeModel,
) -> bool {
    node_at(NodeModel::Table(entries), path) == Some(node) && !(node is Table)
}

/// The parts of a dotted key: what comes before, between and after its dots.
pub open spec fn parts_of(key: Seq<char>) -> Seq<Seq<char>> {
    let (ended, open) = split_dots(key);
    ended.push(open)
}

/// The parts of a text that a dot ends, and what comes after the last dot.
pub open spec fn split_dots(text: Seq<char>) -> (Seq<Seq<char>>, Seq<char>)
    decreases text.len(),
{
    if text.len() == 0 {
        (Seq::empty(), Seq::empty())
    } else {
        let (ended, open) = split_dots(text.drop_last());
        if text.last() == '.' {
            (ended.push(open), Seq::empty())
        } else {
            (ended, open.push(text.last()))
        }
    }
}

/// Keys joined by dots.
pub open spec fn dotted(path: Seq<Seq<char>>) -> Seq<char>
    decreases path.len(),
{
    if path.len() == 0 {
        Seq::empty()
    } else if path.len() == 1 {
        path[0]
    } else {
        dotted(path.drop_last()) + "."@ + path.last()
    }
}

/// A table with a value set at the end of a path of keys, tables being made on the way;
/// nothing where something that is no table stands on the way.
pub open spec fn set_path(
    entries: Map<Seq<char>, NodeModel>,
    path: Seq<Seq<char>>,
    node: NodeModel,
) -> Option<Map<Seq<char>, NodeModel>>
    decreases path.len(),
{
    if path.len() == 0 {
        None
    } else if path.len() == 1 {
        Some(entries.insert(path[0], node))
    } else {
        let inner = if !entries.contains_key(path[0]) {
            Some(Map::empty())
        } else {
            match entries[path[0]] {
                NodeModel::Table(inner) => Some(inner),
                _ => None,
            }
        };
        match inner {
            None => None,
            Some(inner) => match set_path(inner, path.drop_first(), node) {
                None => None,
                Some(changed) => Some(entries.insert(path[0], NodeModel::Table(changed))),
            },
        }
    }
}

/// How many keys of a path lead to the thing on the way that is no table, if there is one.
pub open spec fn conflict(entries: Map<Seq<char>, NodeModel>, path: Seq<Seq<char>>) -> Option<int>
    decreases path.len(),
{
    if path.len() <= 1 || !entries.contains_key(path[0]) {
        None
    } else {
        match entries[path[0]] {
            NodeModel::Table(inner) => match conflict(inner, path.drop_first()) {
                Some(n) => Some(n + 1),
                None => None,
            },
            _ => Some(1int),
        }
    }
}

/// How the keys walked are named in an error: joined by dots, leading empty ones left out.
pub open spec fn walked(path: Seq<Seq<char>>) -> Seq<char>
    decreases path.len(),
{
    if path.len() == 0 {
        Seq::empty()
    } else {
        let before = walked(path.drop_last());
        if before.len() == 0 {
            path.last()
        } else {
            before + "."@ + path.last()
        }
    }
}

/// The models of some texts.
pub open spec fn text_models(texts: Seq<String>) -> Seq<Seq<char>> {
    texts.map(|i: int, text: String| text@)
}

fn key_parts(key: &str) -> (r: Vec<String>)
    ensures
        text_models(r@) == parts_of(key@),
{
    let mut ended: Vec<String> = Vec::new();
    let mut open: String = "".to_owned();
    proof {
        reveal_strlit("");
        assert(key@.take(0) =~= Seq::empty());
        assert(open@ =~= Seq::empty());
        assert(text_models(ended@) =~= Seq::empty());
    }
    for c in it: key.chars()
        invariant
            it.seq() == key@,
            (text_models(ended@), open@) == split_dots(key@.take(it.index())),
    {
        let ghost before = ended@;
        let ghost after = key@.take(it.index() + 1);
        assert(c == key@[it.index()]);
        assert(after.drop_last() =~= key@.take(it.index()));
        assert(after.last() == c);
        if c == '.' {
            ended.push(open);
            assert(text_models(ended@) =~= text_models(before).push(open@));
            open = "".to_owned();
            proof {
                reveal_strlit("");
                assert(open@ =~= Seq::empty());
            }
        } else {
            open.push(c);
        }
    }
    assert(key@.take(key@.len() as int) =~= key@);
    let ghost before = ended@;
    ended.push(open);
    assert(text_models(ended@) =~= text_models(before).push(open@));
    ended
}

fn walked_text(parts: &Vec<String>, n: usize) -> (r: String)
    requires
        n <= parts@.len(),
    ensures
        r@ == walked(text_models(parts@).take(n as int)),
{
    let ghost path = text_models(parts@);
    let mut out: String = "".to_owned();
    let mut i: usize = 0;
    proof {
        reveal_strlit("");
        assert(out@ =~= Seq::empty());
        assert(path.take(0) =~= Seq::empty());
    }
    while i < n
        invariant
            i <= n <= parts@.len(),
            path == text_models(parts@),
            out@ == walked(path.take(i as int)),
        decreases n - i,
    {
        let ghost after = path.take(i + 1);
        assert(after.drop_last() =~= path.take(i as int));
        assert(after.last() == parts@[i as int]@);
        if out.as_str().is_empty() {
            out = parts[i].clone();
        } else {
            out.append(".");
            out.append(parts[i].as_str());
        }
        i = i + 1;
    }
    out
}

fn set_in(
    table: &mut toml::map::Map<String, toml::Value>,
    parts: &Vec<String>,
    at: usize,
    value: toml::Value,
) -> (r: Result<(), usize>)
    requires
        at < parts@.len(),
    ensures
        ({
            let path = text_models(parts@).skip(at as int);
            match r {
                Ok(_) => {
                    &&& set_path(entries_of(*old(table)), path, node_of(value)) == Some(
                        entries_of(*final(table)),
                    )
                    &&& conflict(entries_of(*old(table)), path) is None
                },
                Err(n) => {
                    &&& at < n < parts@.len()
                    &&& set_path(entries_of(*old(table)), path, node_of(value)) is None
                    &&& conflict(entries_of(*old(table)), path) == Some(n - at)
                    &&& entries_of(*final(table)) == entries_of(*old(table))
                },
            }
        }),
    decreases parts@.len() - at,
{
    let ghost before = entries_of(*table);
    let ghost path = text_models(parts@).skip(at as int);
    let ghost rest = text_models(parts@).skip(at + 1);
    let key = parts[at].clone();
    proof {
        assert(path[0] == key@);
        assert(path.drop_first() =~= rest);
    }
    let n: usize = parts.len();
    if at + 1 == n {
        table_insert(table, key, value);
        return Ok(());
    }
    match table_remove(table, key.as_str()) {
        None => {
            let mut inner = table_new();
            let done = set_in(&mut inner, parts, at + 1, value);
            proof {
                assert(before.remove(key@) =~= before);
                lemma_fresh_has_no_conflict(rest);
            }
            table_insert(table, key, value_from_table(inner));
            done
        },
        Some(found) => match value_into_table(found) {
            Err(other) => {
                table_insert(table, key, other);
                assert(entries_of(*table) =~= before);
                Err(at + 1)
            },
            Ok(inner) => {
                let mut inner = inner;
                let ghost held = entries_of(inner);
                let done = set_in(&mut inner, parts, at + 1, value);
                table_insert(table, key, value_from_table(inner));
                proof {
                    assert(before.remove(key@).insert(key@, NodeModel::Table(entries_of(inner)))
                        =~= before.insert(key@, NodeModel::Table(entries_of(inner))));
                    if done is Err {
                        assert(entries_of(*table) =~= before);
                    }
                }
                done
            },
        },
    }
}

proof fn lemma_fresh_has_no_conflict(path: Seq<Seq<char>>)
    ensures
        conflict(no_entries(), path) is None,
{
}

/// Set a value under a dotted key of a table. Tables are made on the way; where something
/// that is no table stands on the way, the table keeps what it held and the error names it.
pub fn set_dotted(
    table: &mut toml::map::Map<String, toml::Value>,
    dotted_key: &str,
    value: toml::Value,
) -> (r: Result<(), ConfigError>)
    ensures
        ({
            let path = parts_of(dotted_key@);
            match r {
                Ok(_) => set_path(entries_of(*old(table)), path, node_of(value)) == Some(
                    entries_of(*final(table)),
                ),
                Err(e) => {
                    &&& set_path(entries_of(*old(table)), path, node_of(value)) is None
                    &&& entries_of(*final(table)) == entries_of(*old(table))
                    &&& e@ == (ConfigErrorModel::WriteShapeConflict {
                        key: dotted_key@,
                        conflicting_ancestor: walked(
                            path.take(conflict(entries_of(*old(table)), path)->0),
                        ),
                    })
                },
            }
        }),
{
    let parts = key_parts(dotted_key);
    assert(text_models(parts@).skip(0) =~= parts_of(dotted_key@));
    match set_in(table, &parts, 0, value) {
        Ok(_) => Ok(()),
        Err(n) => Err(
            ConfigErrorOf::WriteShapeConflict {
                key: dotted_key.to_owned(),
                conflicting_ancestor: walked_text(&parts, n),
            },
        ),
    }
}

/// What was set is what is read back.
pub proof fn law_set_value_reads_back(
    entries: Map<Seq<char>, NodeModel>,
    path: Seq<Seq<char>>,
    node: NodeModel,
    changed: Map<Seq<char>, NodeModel>,
)
    requires
        set_path(entries, path, node) == Some(changed),
    ensures
        node_at(NodeModel::Table(changed), path) == Some(node),
    decreases path.len(),
{
    if path.len() == 1 {
        assert(node_at(node, path.drop_first()) == Some(node));
    } else {
        let inner = if !entries.contains_key(path[0]) {
            Map::empty()
        } else {
            entries[path[0]]->Table_0
        };
        law_set_value_reads_back(
            inner,
            path.drop_first(),
            node,
            set_path(inner, path.drop_first(), node)->0,
        );
    }
}

/// Setting one key leaves every other alone: whatever stands at the end of a path that
/// neither leads through the key that is set nor lies on the way to it is still there.
pub proof fn law_set_leaves_the_others_alone(
    entries: Map<Seq<char>, NodeModel>,
    path: Seq<Seq<char>>,
    node: NodeModel,
    changed: Map<Seq<char>, NodeModel>,
    other: Seq<Seq<char>>,
)
    requires
        set_path(entries, path, node) == Some(changed),
        !path.is_prefix_of(other),
        !other.is_prefix_of(path),
    ensures
        node_at(NodeModel::Table(changed), other) == node_at(NodeModel::Table(entries), other),
    decreases path.len(),
{
    if other.len() == 0 {
        assert(other.is_prefix_of(path));
    } else if path[0] != other[0] {
    } else if path.len() == 1 {
        assert(path.is_prefix_of(other)) by {
            assert(path =~= other.subrange(0, 1));
        }
    } else {
        let inner = if !entries.contains_key(path[0]) {
            Map::<Seq<char>, NodeModel>::empty()
        } else {
            entries[path[0]]->Table_0
        };
        let after = set_path(inner, path.drop_first(), node)->0;
        let p = path.drop_first();
        let o = other.drop_first();
        if p.is_prefix_of(o) {
            assert(path =~= other.subrange(0, path.len() as int)) by {
                assert forall|i: int| 0 <= i < path.len() implies path[i] == other[i] by {
                    if i > 0 {
                        assert(p[i - 1] == o.subrange(0, p.len() as int)[i - 1]);
                    }
                }
            }
            assert(false);
        }
        if o.is_prefix_of(p) {
            assert(other =~= path.subrange(0, other.len() as int)) by {
                assert forall|i: int| 0 <= i < other.len() implies other[i] == path[i] by {
                    if i > 0 {
                        assert(o[i - 1] == p.subrange(0, o.len() as int)[i - 1]);
                    }
                }
            }
            assert(false);
        }
        law_set_leaves_the_others_alone(inner, p, node, after, o);
        if !entries.contains_key(path[0]) {
            assert(node_at(NodeModel::Table(entries), other) is None);
            assert(o.len() > 0) by {
                if o.len() == 0 {
                    assert(o.is_prefix_of(p));
                }
            }
            assert(node_at(NodeModel::Table(inner), o) is None);
        }
    }
}

/// A key can be set exactly where nothing that is no table stands on the way.
pub proof fn law_set_fails_only_on_a_conflict(
    entries: Map<Seq<char>, NodeModel>,
    path: Seq<Seq<char>>,
    node: NodeModel,
)
    requires
        path.len() > 0,
    ensures
        set_path(entries, path, node) is None <==> conflict(entries, path) is Some,
        conflict(entries, path) matches Some(n) ==> 0 < n < path.len() && (node_at(
            NodeModel::Table(entries),
            path.take(n),
        ) matches Some(found) && !(found is Table)),
    decreases path.len(),
{
    if path.len() > 1 {
        let inner = if !entries.contains_key(path[0]) {
            Map::empty()
        } else {
            match entries[path[0]] {
                NodeModel::Table(inner) => inner,
                _ => Map::empty(),
            }
        };
        law_set_fails_only_on_a_conflict(inner, path.drop_first(), node);
        if conflict(entries, path) is Some {
            let n = conflict(entries, path)->0;
            let head = path.take(n);
            if entries[path[0]] is Table {
                assert(head.drop_first() =~= path.drop_first().take(n - 1));
            } else {
                assert(node_at(entries[path[0]], head.drop_first()) == Some(entries[path[0]]));
            }
        }
    }
}

/// Joining keys by dots, taken from the front.
pub proof fn lemma_dotted_from_the_front(first: Seq<char>, rest: Seq<Seq<char>>)
    requires
        rest.len() > 0,
    ensures
        dotted(seq![first] + rest) == first + "."@ + dotted(rest),
    decreases rest.len(),
{
    let path = seq![first] + rest;
    assert(path.drop_last() =~= seq![first] + rest.drop_last());
    if rest.len() == 1 {
        assert(path.drop_last() =~= seq![first]);
        assert(dotted(path.drop_last()) == first);
    } else {
        lemma_dotted_from_the_front(first, rest.drop_last());
        assert(dotted(path) =~= first + "."@ + dotted(rest));
    }
}

/// Splitting a key at its dots and joining the parts again gives the key.
pub proof fn lemma_parts_join(key: Seq<char>)
    ensures
        parts_of(key).len() > 0,
        dotted(parts_of(key)) == key,
        forall|i: int|
            0 <= i < parts_of(key).len() ==> !(#[trigger] parts_of(key)[i]).contains('.'),
    decreases key.len(),
{
    reveal_strlit(".");
    let parts = parts_of(key);
    if key.len() == 0 {
        assert(parts =~= seq![Seq::<char>::empty()]);
        assert(key =~= Seq::empty());
    } else {
        let front = key.drop_last();
        lemma_parts_join(front);
        let (ended, open) = split_dots(front);
        let before = parts_of(front);
        assert(before.drop_last() =~= ended);
        assert(before.last() == open);
        if key.last() == '.' {
            assert(parts =~= before.push(Seq::empty()));
            assert(parts.drop_last() =~= before);
            assert(dotted(parts) =~= key);
        } else {
            assert(parts =~= ended.push(open.push(key.last())));
            assert(parts.drop_last() =~= ended);
            assert(!open.contains('.')) by {
                assert(before[before.len() - 1] == open);
            }
            assert forall|i: int| 0 <= i < parts.len() implies !(#[trigger] parts[i]).contains(
                '.',
            ) by {
                if i < ended.len() {
                    assert(parts[i] == before[i]);
                } else {
                    assert forall|j: int| 0 <= j < parts[i].len() implies parts[i][j] != '.' by {
                        if j < open.len() {
                            assert(open.contains(open[j]));
                        }
                    }
                }
            }
            if ended.len() == 0 {
                assert(dotted(before) == open);
                assert(dotted(parts) == open.push(key.last()));
            } else {
                assert(dotted(before) == dotted(ended) + "."@ + open);
                assert(dotted(parts) == dotted(ended) + "."@ + open.push(key.last()));
            }
            assert(front.push(key.last()) =~= key);
            assert(dotted(parts) =~= front.push(key.last()));
        }
    }
}

proof fn lemma_split_after(head: Seq<char>, tail: Seq<char>)
    requires
        !tail.contains('.'),
    ensures
        split_dots(head + tail) == (split_dots(head).0, split_dots(head).1 + tail),
    decreases tail.len(),
{
    let whole = head + tail;
    if tail.len() == 0 {
        assert(whole =~= head);
        assert(split_dots(head).1 + tail =~= split_dots(head).1);
    } else {
        let front = tail.drop_last();
        assert(!front.contains('.')) by {
            if front.contains('.') {
                let j = choose|j: int| 0 <= j < front.len() && front[j] == '.';
                assert(tail[j] == '.');
            }
        }
        lemma_split_after(head, front);
        assert(whole.drop_last() =~= head + front);
        assert(tail.contains(tail.last())) by {
            assert(tail[tail.len() - 1] == tail.last());
        }
        assert((split_dots(head).1 + front).push(tail.last()) =~= split_dots(head).1 + tail);
    }
}

/// Keys without dots are found again in their dotted form.
pub proof fn lemma_dotted_splits(path: Seq<Seq<char>>)
    requires
        path.len() > 0,
        forall|i: int| 0 <= i < path.len() ==> !(#[trigger] path[i]).contains('.'),
    ensures
        parts_of(dotted(path)) == path,
    decreases path.len(),
{
    reveal_strlit(".");
    let last = path.last();
    assert(last == path[path.len() - 1]);
    if path.len() == 1 {
        lemma_split_after(Seq::empty(), last);
        assert(Seq::<char>::empty() + last =~= last);
        assert(parts_of(last) =~= path);
    } else {
        let front = path.drop_last();
        assert forall|i: int| 0 <= i < front.len() implies !(#[trigger] front[i]).contains('.') by {
            assert(front[i] == path[i]);
        }
        lemma_dotted_splits(front);
        let head = dotted(front) + "."@;
        assert(head.drop_last() =~= dotted(front));
        assert(head.last() == '.');
        lemma_split_after(head, last);
        let (ended, open) = split_dots(dotted(front));
        assert(split_dots(head).0 =~= ended.push(open));
        assert(ended.push(open) == front);
        assert(split_dots(head).1 + last =~= last);
        assert(parts_of(dotted(path)) =~= path);
    }
}

/// Whether none of the keys of a table, at any depth, holds a dot.
pub open spec fn keys_have_no_dots(entries: Map<Seq<char>, NodeModel>) -> bool {
    forall|path: Seq<Seq<char>>, i: int|
        #![trigger node_at(NodeModel::Table(entries), path), path[i]]
        node_at(NodeModel::Table(entries), path) is Some && 0 <= i < path.len()
            ==> !path[i].contains('.')
}

} // verus!
