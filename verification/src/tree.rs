//! The document as a tree, and how a tree is laid out as text.
use vstd::prelude::*;

use crate::text::{quoted, spaces};

verus! {

/// A node of a document.
pub enum Node {
    /// No value.
    Null,
    /// A scalar written as it is: a number or a truth value.
    Plain(Seq<char>),
    /// A double-quoted scalar.
    Quoted(Seq<char>),
    /// A literal block, one line of the document for each line of the value.
    Literal(Seq<char>),
    /// An empty list, on the line of its key.
    EmptyList,
    /// An empty list, on a line below its key.
    EmptyListBelow,
    /// A mapping.
    Mapping(Seq<(Seq<char>, Node)>),
    /// A list.
    List(Seq<Node>),
}

/// The lines of `s`: what stands between its newlines, so that there is always
/// one line more than there are newlines.
pub open spec fn lines(s: Seq<char>) -> Seq<Seq<char>>
    decreases s.len(),
{
    if s.len() == 0 {
        seq![Seq::empty()]
    } else {
        let before = lines(s.drop_last());
        if s.last() == '\n' {
            before.push(Seq::empty())
        } else {
            before.drop_last().push(before.last().push(s.last()))
        }
    }
}

/// Lines that each stand `column` spaces in and end in a newline.
pub open spec fn block(ls: Seq<Seq<char>>, column: nat) -> Seq<char>
    decreases ls.len(),
{
    if ls.len() == 0 {
        Seq::empty()
    } else {
        block(ls.drop_last(), column) + (spaces(column) + ls.last() + seq!['\n'])
    }
}

/// What follows a key at `column`, up to the end of its value.
pub open spec fn value_text(value: Node, column: nat) -> Seq<char>
    decreases value, 0nat,
{
    match value {
        Node::Null => ": null\n"@,
        Node::Plain(s) => ": "@ + s + seq!['\n'],
        Node::Quoted(s) => ": "@ + quoted(s) + seq!['\n'],
        Node::Literal(s) => ": |\n"@ + block(lines(s), column + 2),
        Node::EmptyList => ": []\n"@,
        Node::EmptyListBelow => ":\n"@ + spaces(column + 2) + "[]\n"@,
        Node::Mapping(entries) => ":\n"@ + entries_text(entries, column + 2),
        Node::List(items) => ":\n"@ + items_text(items, column + 2),
    }
}

/// An entry of a mapping whose keys stand at `column`.
pub open spec fn entry_text(key: Seq<char>, value: Node, column: nat) -> Seq<char>
    decreases value, 1nat,
{
    spaces(column) + key + value_text(value, column)
}

/// The entries of a mapping, whose keys stand at `column`.
pub open spec fn entries_text(entries: Seq<(Seq<char>, Node)>, column: nat) -> Seq<char>
    decreases entries, 0nat,
{
    if entries.len() == 0 {
        Seq::empty()
    } else {
        entries_text(entries.drop_last(), column) + entry_text(
            entries.last().0,
            entries.last().1,
            column,
        )
    }
}

/// An item of a list whose dashes stand at `column`. A mapping has its first
/// key on the line of the dash, and its other keys below that one.
pub open spec fn item_text(item: Node, column: nat) -> Seq<char>
    decreases item, 0nat,
{
    match item {
        Node::Quoted(s) => spaces(column) + "- "@ + quoted(s) + seq!['\n'],
        Node::Mapping(entries) if entries.len() > 0 => spaces(column) + "- "@ + entries[0].0
            + value_text(entries[0].1, column + 2) + entries_text(
            entries.drop_first(),
            column + 2,
        ),
        _ => spaces(column) + "-\n"@,
    }
}

/// The items of a list, whose dashes stand at `column`.
pub open spec fn items_text(items: Seq<Node>, column: nat) -> Seq<char>
    decreases items, 0nat,
{
    if items.len() == 0 {
        Seq::empty()
    } else {
        items_text(items.drop_last(), column) + item_text(items.last(), column)
    }
}

/// Writing one entry more extends the entries.
pub broadcast proof fn lemma_next_entry(
    before: Seq<char>,
    entries: Seq<(Seq<char>, Node)>,
    key: Seq<char>,
    value: Node,
    column: nat,
)
    ensures
        #[trigger] ((before + entries_text(entries, column)) + entry_text(key, value, column))
            == before + entries_text(entries.push((key, value)), column),
{
    assert(entries.push((key, value)).drop_last() =~= entries);
}

/// Writing one item more extends the items.
pub broadcast proof fn lemma_next_item(
    before: Seq<char>,
    items: Seq<Node>,
    item: Node,
    column: nat,
)
    ensures
        #[trigger] ((before + items_text(items, column)) + item_text(item, column)) == before
            + items_text(items.push(item), column),
{
    assert(items.push(item).drop_last() =~= items);
}

/// Writing the item with index `i` after the items before it.
pub proof fn lemma_item_at(before: Seq<char>, items: Seq<Node>, i: int, column: nat)
    requires
        0 <= i < items.len(),
    ensures
        (before + items_text(items.take(i), column)) + item_text(items[i], column) == before
            + items_text(items.take(i + 1), column),
{
    assert(items.take(i + 1).drop_last() =~= items.take(i));
}

/// Nothing is written for no entries and for no items.
pub proof fn lemma_nothing(before: Seq<char>, column: nat)
    ensures
        before + entries_text(Seq::empty(), column) == before,
        before + items_text(Seq::empty(), column) == before,
{
}

/// The key line and the entries below it make up the entry of a mapping.
pub proof fn lemma_mapping(
    before: Seq<char>,
    key: Seq<char>,
    entries: Seq<(Seq<char>, Node)>,
    column: nat,
)
    ensures
        (before + (spaces(column) + key + ":\n"@)) + entries_text(entries, column + 2) == before
            + entry_text(key, Node::Mapping(entries), column),
{
}

/// The key line and the items below it make up the entry of a list.
pub proof fn lemma_list(before: Seq<char>, key: Seq<char>, items: Seq<Node>, column: nat)
    ensures
        (before + (spaces(column) + key + ":\n"@)) + items_text(items, column + 2) == before
            + entry_text(key, Node::List(items), column),
{
}

/// A mapping as an item of a list: the entry on the line of the dash, and the
/// entries below it.
pub open spec fn record(first: (Seq<char>, Node), rest: Seq<(Seq<char>, Node)>) -> Node {
    Node::Mapping(seq![first] + rest)
}

/// The line of an item: the dash, and the first entry of a mapping.
pub open spec fn item_line(key: Seq<char>, value: Node, column: nat) -> Seq<char> {
    spaces(column) + "- "@ + key + value_text(value, column + 2)
}

/// The dash line and the entries below it make up the item.
pub proof fn lemma_record(
    before: Seq<char>,
    first: (Seq<char>, Node),
    rest: Seq<(Seq<char>, Node)>,
    column: nat,
)
    ensures
        (before + item_line(first.0, first.1, column)) + entries_text(rest, column + 2) == before
            + item_text(record(first, rest), column),
{
    let entries = seq![first] + rest;
    assert(entries.drop_first() =~= rest);
}

/// The keys of these entries.
pub open spec fn keys_of(entries: Seq<(Seq<char>, Node)>) -> Seq<Seq<char>> {
    entries.map_values(|entry: (Seq<char>, Node)| entry.0)
}

/// How an entry is written whose value fits on the line of its key: the spaces,
/// the key, a colon, and the value.
pub proof fn law_entries_on_one_line(key: Seq<char>, s: Seq<char>, column: nat)
    ensures
        spaces(column).len() == column,
        forall|i: int| 0 <= i < column ==> #[trigger] spaces(column)[i] == ' ',
        entry_text(key, Node::Null, column) == spaces(column) + key + ": null\n"@,
        entry_text(key, Node::Plain(s), column) == spaces(column) + key + ": "@ + s + "\n"@,
        entry_text(key, Node::Quoted(s), column) == spaces(column) + key + ": "@ + quoted(s)
            + "\n"@,
        entry_text(key, Node::EmptyList, column) == spaces(column) + key + ": []\n"@,
        item_text(Node::Quoted(s), column) == spaces(column) + "- "@ + quoted(s) + "\n"@,
{
    reveal_strlit("\n");
    assert("\n"@ =~= seq!['\n']);
    assert(entry_text(key, Node::Plain(s), column) =~= spaces(column) + key + ": "@ + s + "\n"@);
    assert(entry_text(key, Node::Quoted(s), column) =~= spaces(column) + key + ": "@ + quoted(s)
        + "\n"@);
}

/// How an entry is written whose value stands below its key: two columns
/// further in.
pub proof fn law_entries_below_key(
    key: Seq<char>,
    s: Seq<char>,
    entries: Seq<(Seq<char>, Node)>,
    items: Seq<Node>,
    column: nat,
)
    ensures
        entry_text(key, Node::Literal(s), column) == spaces(column) + key + ": |\n"@ + block(
            lines(s),
            column + 2,
        ),
        entry_text(key, Node::EmptyListBelow, column) == spaces(column) + key + ":\n"@ + spaces(
            column + 2,
        ) + "[]\n"@,
        entry_text(key, Node::Mapping(entries), column) == spaces(column) + key + ":\n"@
            + entries_text(entries, column + 2),
        entry_text(key, Node::List(items), column) == spaces(column) + key + ":\n"@ + items_text(
            items,
            column + 2,
        ),
{
    assert(entry_text(key, Node::Literal(s), column) =~= spaces(column) + key + ": |\n"@ + block(
        lines(s),
        column + 2,
    ));
    assert(entry_text(key, Node::EmptyListBelow, column) =~= spaces(column) + key + ":\n"@
        + spaces(column + 2) + "[]\n"@);
    assert(entry_text(key, Node::Mapping(entries), column) =~= spaces(column) + key + ":\n"@
        + entries_text(entries, column + 2));
    assert(entry_text(key, Node::List(items), column) =~= spaces(column) + key + ":\n"@
        + items_text(items, column + 2));
}

/// Entries are written one after the other, and nothing else is written of them.
pub proof fn law_entries_in_order(
    a: Seq<(Seq<char>, Node)>,
    b: Seq<(Seq<char>, Node)>,
    key: Seq<char>,
    value: Node,
    column: nat,
)
    ensures
        entries_text(a + b, column) == entries_text(a, column) + entries_text(b, column),
        entries_text(seq![(key, value)], column) == entry_text(key, value, column),
    decreases b.len(),
{
    let one = seq![(key, value)];
    assert(one.drop_last() =~= Seq::empty());
    assert(entries_text(one.drop_last(), column) =~= Seq::empty());
    assert(entries_text(one, column) =~= entry_text(key, value, column));
    if b.len() == 0 {
        assert(a + b =~= a);
    } else {
        law_entries_in_order(a, b.drop_last(), key, value, column);
        assert((a + b).drop_last() =~= a + b.drop_last());
    }
    assert(entries_text(a + b, column) =~= entries_text(a, column) + entries_text(b, column));
}

/// Items are written one after the other, and nothing else is written of them.
pub proof fn law_items_in_order(a: Seq<Node>, b: Seq<Node>, item: Node, column: nat)
    ensures
        items_text(a + b, column) == items_text(a, column) + items_text(b, column),
        items_text(seq![item], column) == item_text(item, column),
    decreases b.len(),
{
    let one = seq![item];
    assert(one.drop_last() =~= Seq::empty());
    assert(items_text(one.drop_last(), column) =~= Seq::empty());
    assert(items_text(one, column) =~= item_text(item, column));
    if b.len() == 0 {
        assert(a + b =~= a);
    } else {
        law_items_in_order(a, b.drop_last(), item, column);
        assert((a + b).drop_last() =~= a + b.drop_last());
    }
    assert(items_text(a + b, column) =~= items_text(a, column) + items_text(b, column));
}

/// A mapping as an item is written as its entries are, but for a dash and a
/// space in place of the last two spaces before the first key.
pub proof fn law_dash_before_entries(entries: Seq<(Seq<char>, Node)>, column: nat)
    requires
        entries.len() > 0,
    ensures
        item_text(Node::Mapping(entries), column) == spaces(column) + "- "@ + entries_text(
            entries,
            column + 2,
        ).skip((column + 2) as int),
{
    let inner = column + 2;
    let first = entries[0];
    let rest = entries.drop_first();
    law_entries_in_order(seq![first], rest, first.0, first.1, inner);
    assert(entries =~= seq![first] + rest);
    assert(entries_text(entries, inner).skip(inner as int) =~= first.0 + value_text(first.1, inner)
        + entries_text(rest, inner));
    assert(item_text(Node::Mapping(entries), column) =~= spaces(column) + "- "@ + entries_text(
        entries,
        inner,
    ).skip(inner as int));
}

} // verus!
