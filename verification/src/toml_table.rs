//! TOML tables as the `toml` crate holds them.
//!
//! The tables stay the crate's own; this module says what they hold and wraps the few
//! operations that the configuration needs.
use vstd::prelude::*;

verus! {

/// A TOML table.
#[verifier::external_type_specification]
#[verifier::external_body]
#[verifier::reject_recursive_types(K)]
#[verifier::reject_recursive_types(V)]
pub struct ExTomlMap<K, V>(toml::map::Map<K, V>);

/// A TOML value.
#[verifier::external_type_specification]
#[verifier::external_body]
pub struct ExTomlValue(toml::Value);

/// A date, a time of day, or both.
#[derive(Clone, Copy, PartialEq, Eq, Debug)]
pub struct DateParts {
    /// Year, month and day.
    pub date: Option<(u16, u8, u8)>,
    /// Hour, minute, second and nanosecond.
    pub time: Option<(u8, u8, u8, u32)>,
    /// The minutes by which the time is off from the universal one, or `Some(None)` for the
    /// universal time by its letter.
    pub offset: Option<Option<i16>>,
}

/// What a TOML value is.
pub enum NodeModel {
    /// A text.
    Text(Seq<char>),
    /// A table, by its keys.
    Table(Map<Seq<char>, NodeModel>),
    /// A list.
    List(Seq<NodeModel>),
    /// A date.
    Date(DateParts),
    /// A number or a truth value, by its written form.
    Other(Seq<char>),
}

/// What a value is.
pub uninterp spec fn node_of(value: toml::Value) -> NodeModel;

/// What a table holds.
pub uninterp spec fn entries_of(table: toml::map::Map<String, toml::Value>) -> Map<
    Seq<char>,
    NodeModel,
>;

/// What a text holds as a TOML document, or what is wrong with it.
pub uninterp spec fn toml_document(text: Seq<char>) -> Result<Map<Seq<char>, NodeModel>, Seq<char>>;

/// The document that a table is written as, or why it cannot be.
pub uninterp spec fn toml_pretty(entries: Map<Seq<char>, NodeModel>) -> Result<Seq<char>, Seq<char>>;

/// The form of a value within a line, or what is wrong with it where it has none.
pub uninterp spec fn inline_form(node: NodeModel) -> Seq<char>;

/// What an empty table holds.
pub open spec fn no_entries() -> Map<Seq<char>, NodeModel> {
    Map::empty()
}

/// The key by which the crate's reader tells a date from a table.
pub open spec fn date_key() -> Seq<char> {
    "$__toml_private_datetime"@
}

/// The most quotes in a row that a text can be written with. The crate counts them in eight
/// bits.
pub const MOST_QUOTES_IN_A_ROW: usize = 255;

/// Whether a text holds more quotes of one kind in a row, from a place on, than it can be
/// written with.
pub open spec fn quotes_at(text: Seq<char>, quote: char, at: int) -> bool {
    &&& 0 <= at
    &&& at + MOST_QUOTES_IN_A_ROW < text.len()
    &&& forall|i: int| at <= i <= at + MOST_QUOTES_IN_A_ROW ==> #[trigger] text[i] == quote
}

/// Whether a text holds nowhere more equal quotes in a row than it can be written with.
pub open spec fn quotes_fit(text: Seq<char>) -> bool {
    &&& forall|at: int| !(#[trigger] quotes_at(text, '"', at))
    &&& forall|at: int| !(#[trigger] quotes_at(text, '\'', at))
}

/// Whether a value can be written, as far as its outermost levels go.
pub open spec fn writable_to(node: NodeModel, levels: nat) -> bool
    decreases levels,
{
    match node {
        NodeModel::Text(text) => quotes_fit(text),
        NodeModel::Date(parts) => parts.offset != Some(Some(i16::MIN)),
        NodeModel::Other(_) => true,
        NodeModel::List(items) => levels > 0 ==> forall|i: int|
            0 <= i < items.len() ==> writable_to(#[trigger] items[i], (levels - 1) as nat),
        NodeModel::Table(entries) => levels > 0 ==> forall|key: Seq<char>| #[trigger]
            entries.contains_key(key) ==> writable_to(entries[key], (levels - 1) as nat),
    }
}

/// Whether a value can be written: no text anywhere in it holds too many equal quotes in a
/// row, and no date in it is off by an offset that cannot be negated.
pub open spec fn writable(node: NodeModel) -> bool {
    forall|levels: nat| #[trigger] writable_to(node, levels)
}

/// The most levels of tables and lists below a document that the parser is sure to read: the
/// keys of a header may have as many parts, and a value may hold as many lists and tables.
pub const MOST_LEVELS: usize = 79;

/// How many days a month has.
pub open spec fn days_in(year: int, month: int) -> int {
    if month == 2 {
        if year % 4 == 0 && (year % 100 != 0 || year % 400 == 0) {
            29
        } else {
            28
        }
    } else if month == 4 || month == 6 || month == 9 || month == 11 {
        30
    } else {
        31
    }
}

/// Whether a date is one of the calendar, a time one of the day, and the two stand together
/// as they may: an offset only behind both.
pub open spec fn is_date(parts: DateParts) -> bool {
    &&& parts.date is Some || parts.time is Some
    &&& (parts.date matches Some((year, month, day)) ==> year <= 9999 && 1 <= month <= 12 && 1
        <= day <= days_in(year as int, month as int))
    &&& (parts.time matches Some((hour, minute, second, nanosecond)) ==> hour <= 23 && minute
        <= 59 && second <= 60 && nanosecond <= 999_999_999)
    &&& parts.offset is Some ==> parts.date is Some && parts.time is Some
    &&& (parts.offset matches Some(Some(minutes)) ==> -1440 < minutes < 1440)
}

/// Whether a value is at most `levels` deep, its dates are dates, and nothing in it stands
/// under the key of a date.
pub open spec fn is_plain_node(node: NodeModel, levels: nat) -> bool
    decreases levels, 0int,
{
    match node {
        NodeModel::Text(_) | NodeModel::Other(_) => true,
        NodeModel::Date(parts) => is_date(parts),
        NodeModel::List(items) => levels > 0 && forall|i: int|
            0 <= i < items.len() ==> is_plain_node(#[trigger] items[i], (levels - 1) as nat),
        NodeModel::Table(entries) => levels > 0 && is_plain(entries, (levels - 1) as nat),
    }
}

/// Whether what a table holds is at most `levels` deep, its dates are dates, and nothing in it
/// stands under the key of a date.
pub open spec fn is_plain(entries: Map<Seq<char>, NodeModel>, levels: nat) -> bool
    decreases levels, 1int,
{
    forall|key: Seq<char>| #[trigger]
        entries.contains_key(key) ==> key != date_key() && is_plain_node(entries[key], levels)
}

/// `toml::map::Map::new`. Claimed: the table is empty.
#[verifier::external_body]
pub(crate) fn table_new() -> (r: toml::map::Map<String, toml::Value>)
    ensures
        entries_of(r) == no_entries(),
{
    toml::map::Map::new()
}

/// `toml::map::Map::is_empty`. Claimed: it says whether the table has no key.
#[verifier::external_body]
pub(crate) fn table_is_empty(table: &toml::map::Map<String, toml::Value>) -> (r: bool)
    ensures
        r == (entries_of(*table) == no_entries()),
{
    table.is_empty()
}

/// `toml::map::Map::insert`. Claimed: it sets one key, in place of what that key held.
#[verifier::external_body]
pub(crate) fn table_insert(
    table: &mut toml::map::Map<String, toml::Value>,
    key: String,
    value: toml::Value,
)
    ensures
        entries_of(*final(table)) == entries_of(*old(table)).insert(key@, node_of(value)),
{
    table.insert(key, value);
}

/// `toml::map::Map::remove`. Claimed: it takes one key out and hands out what it held.
#[verifier::external_body]
pub(crate) fn table_remove(table: &mut toml::map::Map<String, toml::Value>, key: &str) -> (r:
    Option<toml::Value>)
    ensures
        entries_of(*final(table)) == entries_of(*old(table)).remove(key@),
        match r {
            Some(value) => entries_of(*old(table)).contains_key(key@) && node_of(value)
                == entries_of(*old(table))[key@],
            None => !entries_of(*old(table)).contains_key(key@),
        },
{
    table.remove(key)
}

/// `toml::map::Map::iter`. Claimed: it hands out every key, with what it holds, and nothing
/// else.
#[verifier::external_body]
pub(crate) fn table_items<'a>(table: &'a toml::map::Map<String, toml::Value>) -> (r: Vec<
    (&'a String, &'a toml::Value),
>)
    ensures
        forall|i: int|
            0 <= i < r@.len() ==> entries_of(*table).contains_key(#[trigger] r@[i].0@)
                && entries_of(*table)[r@[i].0@] == node_of(*r@[i].1),
        forall|key: Seq<char>| #[trigger]
            entries_of(*table).contains_key(key) ==> exists|i: int|
                0 <= i < r@.len() && #[trigger] r@[i].0@ == key,
{
    table.iter().collect()
}

/// `toml::map::Map::clone`. Claimed: the copy holds the same.
#[verifier::external_body]
pub(crate) fn table_clone(table: &toml::map::Map<String, toml::Value>) -> (r: toml::map::Map<
    String,
    toml::Value,
>)
    ensures
        entries_of(r) == entries_of(*table),
{
    table.clone()
}

/// `toml::Value::clone`. Claimed: the copy is the same.
#[verifier::external_body]
pub(crate) fn value_clone(value: &toml::Value) -> (r: toml::Value)
    ensures
        node_of(r) == node_of(*value),
{
    value.clone()
}

/// The variant `toml::Value::String`. Claimed: the value is that text.
#[verifier::external_body]
pub(crate) fn value_from_text(text: String) -> (r: toml::Value)
    ensures
        node_of(r) == NodeModel::Text(text@),
{
    toml::Value::String(text)
}

/// The variant `toml::Value::Table`. Claimed: the value is that table.
#[verifier::external_body]
pub(crate) fn value_from_table(table: toml::map::Map<String, toml::Value>) -> (r: toml::Value)
    ensures
        node_of(r) == NodeModel::Table(entries_of(table)),
{
    toml::Value::Table(table)
}

/// Taking the variant `toml::Value::Table` apart. Claimed: a value that is a table gives
/// it, and any other is handed back.
#[verifier::external_body]
pub(crate) fn value_into_table(value: toml::Value) -> (r: Result<
    toml::map::Map<String, toml::Value>,
    toml::Value,
>)
    ensures
        match r {
            Ok(table) => node_of(value) == NodeModel::Table(entries_of(table)),
            Err(other) => other == value && !(node_of(value) is Table),
        },
{
    match value {
        toml::Value::Table(table) => Ok(table),
        other => Err(other),
    }
}

/// `toml::Value::as_table`. Claimed: a value that is a table gives it, and any other
/// gives nothing.
#[verifier::external_body]
pub(crate) fn value_as_table(value: &toml::Value) -> (r: Option<
    &toml::map::Map<String, toml::Value>,
>)
    ensures
        match r {
            Some(table) => node_of(*value) == NodeModel::Table(entries_of(*table)),
            None => !(node_of(*value) is Table),
        },
{
    value.as_table()
}

/// `toml::Value::as_str`. Claimed: a value that is a text gives it, and any other gives
/// nothing.
#[verifier::external_body]
pub(crate) fn value_as_str(value: &toml::Value) -> (r: Option<&str>)
    ensures
        match r {
            Some(text) => node_of(*value) == NodeModel::Text(text@),
            None => !(node_of(*value) is Text),
        },
{
    value.as_str()
}

/// `toml::Value::as_array`. Claimed: a value that is a list gives its items, in order, and
/// any other gives nothing.
#[verifier::external_body]
pub(crate) fn value_as_list(value: &toml::Value) -> (r: Option<&Vec<toml::Value>>)
    ensures
        match r {
            Some(items) => node_of(*value) == NodeModel::List(
                items@.map(|i: int, item: toml::Value| node_of(item)),
            ),
            None => !(node_of(*value) is List),
        },
{
    value.as_array()
}

/// `toml::Value::as_datetime`. Claimed: a value that is a date gives its parts, and any other
/// gives nothing.
#[verifier::external_body]
pub(crate) fn value_as_date(value: &toml::Value) -> (r: Option<DateParts>)
    ensures
        match r {
            Some(parts) => node_of(*value) == NodeModel::Date(parts),
            None => !(node_of(*value) is Date),
        },
{
    value.as_datetime().map(|at| DateParts {
        date: at.date.map(|d| (d.year, d.month, d.day)),
        time: at.time.map(|t| (t.hour, t.minute, t.second, t.nanosecond)),
        offset: at.offset.map(|o| match o {
            toml::value::Offset::Z => None,
            toml::value::Offset::Custom { minutes } => Some(minutes),
        }),
    })
}

/// `toml::ser::ValueSerializer`, which writes a `toml::Value` as its `Display` form does.
/// Claimed: what it gives, or what its error says, depends on what the value is alone.
/// Asked: a value that can be written, since the crate counts the quotes of a text in eight
/// bits and negates the offset of a date.
#[verifier::external_body]
pub(crate) fn value_render(value: &toml::Value) -> (r: String)
    requires
        writable(node_of(*value)),
    ensures
        r@ == inline_form(node_of(*value)),
{
    let mut form = String::new();
    match serde::Serialize::serialize(value, toml::ser::ValueSerializer::new(&mut form)) {
        Ok(_) => form,
        Err(e) => e.to_string(),
    }
}

/// `toml::from_str` into a table. Claimed: what it gives, and what its error says, depends
/// on the text alone.
#[verifier::external_body]
pub(crate) fn parse_table(text: &str) -> (r: Result<toml::map::Map<String, toml::Value>, String>)
    ensures
        match r {
            Ok(table) => toml_document(text@) == Ok::<Map<Seq<char>, NodeModel>, Seq<char>>(
                entries_of(table),
            ),
            Err(e) => toml_document(text@) == Err::<Map<Seq<char>, NodeModel>, Seq<char>>(e@),
        },
{
    toml::from_str(text).map_err(|e| e.to_string())
}

/// `toml::to_string_pretty` of a table. Claimed: what it gives, and what its error says,
/// depends on what the table holds alone; and a document it gives parses back to the same
/// table, and is given, where that is plain and no deeper than the parser reads. The parser
/// reads a table whose first key is that of a date as a date. Asked: a table that can be written, since the crate counts the quotes of a text in
/// eight bits and negates the offset of a date.
#[verifier::external_body]
pub(crate) fn print_table(table: &toml::map::Map<String, toml::Value>) -> (r: Result<
    String,
    String,
>)
    requires
        writable(NodeModel::Table(entries_of(*table))),
    ensures
        match r {
            Ok(text) => toml_pretty(entries_of(*table)) == Ok::<Seq<char>, Seq<char>>(text@) && (
            is_plain(entries_of(*table), MOST_LEVELS as nat) ==> toml_document(text@) == Ok::<
                Map<Seq<char>, NodeModel>,
                Seq<char>,
            >(entries_of(*table))),
            Err(e) => toml_pretty(entries_of(*table)) == Err::<Seq<char>, Seq<char>>(e@)
                && !is_plain(entries_of(*table), MOST_LEVELS as nat),
        },
{
    toml::to_string_pretty(table).map_err(|e| e.to_string())
}

} // verus!
