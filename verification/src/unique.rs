//! The text of a tree can be read in one way only.
use vstd::prelude::*;

use crate::layout::{
    is_item, is_key, is_key_char, lemma_quoted, lemma_well_formed_first, on_one_line, spaces_at,
    well_formed, well_formed_entries, well_formed_items,
};
use crate::reading::{law_quoted_injective, lemma_joined_lines, lemma_lines_clean};
use crate::text::{quoted, spaces};
use crate::tree::{block, entries_text, entry_text, item_text, items_text, lines, value_text, Node};

verus! {

/// Where two texts are the same, so are their first lines and what comes after.
proof fn lemma_first_line(a: Seq<char>, x: Seq<char>, b: Seq<char>, y: Seq<char>)
    requires
        on_one_line(a),
        on_one_line(b),
        a + seq!['\n'] + x == b + seq!['\n'] + y,
    ensures
        a == b,
        x == y,
{
    let t = a + seq!['\n'] + x;
    let u = b + seq!['\n'] + y;
    assert(t[a.len() as int] == '\n');
    assert(u[b.len() as int] == '\n');
    if a.len() < b.len() {
        assert(u[a.len() as int] == b[a.len() as int]);
        assert(false);
    }
    if b.len() < a.len() {
        assert(t[b.len() as int] == a[b.len() as int]);
        assert(false);
    }
    assert forall|i: int| 0 <= i < a.len() implies a[i] == b[i] by {
        assert(t[i] == a[i]);
        assert(u[i] == b[i]);
    }
    assert(a =~= b);
    assert(t.len() == u.len());
    assert forall|i: int| 0 <= i < x.len() implies x[i] == y[i] by {
        assert(t[a.len() + 1 + i] == x[i]);
        assert(u[b.len() + 1 + i] == y[i]);
    }
    assert(x =~= y);
}

/// Where two texts are the same and begin with the same part, the rests are the
/// same.
proof fn lemma_same_rest(part: Seq<char>, x: Seq<char>, y: Seq<char>)
    requires
        part + x == part + y,
    ensures
        x == y,
{
    assert(x =~= (part + x).skip(part.len() as int));
    assert(y =~= (part + y).skip(part.len() as int));
}

proof fn lemma_block_first(ls: Seq<Seq<char>>, column: nat)
    requires
        ls.len() > 0,
    ensures
        block(ls, column) == (spaces(column) + ls[0]) + seq!['\n'] + block(
            ls.drop_first(),
            column,
        ),
    decreases ls.len(),
{
    if ls.len() == 1 {
        assert(ls.drop_last() =~= Seq::empty());
        assert(ls.drop_first() =~= Seq::empty());
        assert(block(ls.drop_last(), column) =~= Seq::empty());
        assert(block(ls.drop_first(), column) =~= Seq::empty());
    } else {
        lemma_block_first(ls.drop_last(), column);
        assert(ls.drop_last().drop_first() =~= ls.drop_first().drop_last());
    }
    assert(block(ls, column) =~= (spaces(column) + ls[0]) + seq!['\n'] + block(
        ls.drop_first(),
        column,
    ));
}

proof fn lemma_entries_first(entries: Seq<(Seq<char>, Node)>, column: nat)
    requires
        entries.len() > 0,
    ensures
        entries_text(entries, column) == entry_text(entries[0].0, entries[0].1, column)
            + entries_text(entries.drop_first(), column),
    decreases entries.len(),
{
    let first = entry_text(entries[0].0, entries[0].1, column);
    if entries.len() == 1 {
        assert(entries.drop_last() =~= Seq::empty());
        assert(entries.drop_first() =~= Seq::empty());
        assert(entries_text(entries.drop_last(), column) =~= Seq::empty());
        assert(entries_text(entries.drop_first(), column) =~= Seq::empty());
    } else {
        lemma_entries_first(entries.drop_last(), column);
        assert(entries.drop_last().drop_first() =~= entries.drop_first().drop_last());
        assert(entries.drop_first().last() == entries.last());
    }
    assert(entries_text(entries, column) =~= first + entries_text(entries.drop_first(), column));
}

proof fn lemma_items_first(items: Seq<Node>, column: nat)
    requires
        items.len() > 0,
    ensures
        items_text(items, column) == item_text(items[0], column) + items_text(
            items.drop_first(),
            column,
        ),
    decreases items.len(),
{
    if items.len() == 1 {
        assert(items.drop_last() =~= Seq::empty());
        assert(items.drop_first() =~= Seq::empty());
        assert(items_text(items.drop_last(), column) =~= Seq::empty());
        assert(items_text(items.drop_first(), column) =~= Seq::empty());
    } else {
        lemma_items_first(items.drop_last(), column);
        assert(items.drop_last().drop_first() =~= items.drop_first().drop_last());
        assert(items.drop_first().last() == items.last());
    }
    assert(items_text(items, column) =~= item_text(items[0], column) + items_text(
        items.drop_first(),
        column,
    ));
}

proof fn lemma_well_formed_items_first(items: Seq<Node>)
    requires
        well_formed_items(items),
        items.len() > 0,
    ensures
        is_item(items[0]),
        well_formed(items[0]),
        well_formed_items(items.drop_first()),
    decreases items.len(),
{
    if items.len() > 1 {
        lemma_well_formed_items_first(items.drop_last());
        assert(items.drop_first().drop_last() =~= items.drop_last().drop_first());
    }
}

/// Nothing that stands at this column follows: there is no more text, or it
/// does not begin with so many spaces.
pub open spec fn ends_before(rest: Seq<char>, column: nat) -> bool {
    rest.len() == 0 || !spaces_at(rest, 0, column)
}

/// Literal blocks that are the same text hold the same lines.
proof fn lemma_block_unique(
    a: Seq<Seq<char>>,
    x: Seq<char>,
    b: Seq<Seq<char>>,
    y: Seq<char>,
    column: nat,
)
    requires
        forall|i: int| 0 <= i < a.len() ==> on_one_line(#[trigger] a[i]),
        forall|i: int| 0 <= i < b.len() ==> on_one_line(#[trigger] b[i]),
        ends_before(x, column),
        ends_before(y, column),
        block(a, column) + x == block(b, column) + y,
    ensures
        a == b,
        x == y,
    decreases a.len(),
{
    let t = block(a, column) + x;
    if a.len() > 0 {
        lemma_block_first(a, column);
        assert(on_one_line(a[0]));
    }
    if b.len() > 0 {
        lemma_block_first(b, column);
        assert(on_one_line(b[0]));
    }
    if a.len() == 0 && b.len() == 0 {
        assert(block(a, column) + x =~= x);
        assert(block(b, column) + y =~= y);
        assert(a =~= b);
    } else if a.len() == 0 {
        assert(t =~= x);
        assert(spaces_at(block(b, column) + y, 0, column));
        assert(false);
    } else if b.len() == 0 {
        assert(block(b, column) + y =~= y);
        assert(spaces_at(t, 0, column));
        assert(false);
    } else {
        let ax = block(a.drop_first(), column) + x;
        let by = block(b.drop_first(), column) + y;
        let a0 = spaces(column) + a[0];
        let b0 = spaces(column) + b[0];
        assert(t =~= a0 + seq!['\n'] + ax);
        assert(block(b, column) + y =~= b0 + seq!['\n'] + by);
        lemma_first_line(a0, ax, b0, by);
        lemma_same_rest(spaces(column), a[0], b[0]);
        assert forall|i: int| 0 <= i < a.drop_first().len() implies on_one_line(
            #[trigger] a.drop_first()[i],
        ) by {
            assert(on_one_line(a[i + 1]));
        }
        assert forall|i: int| 0 <= i < b.drop_first().len() implies on_one_line(
            #[trigger] b.drop_first()[i],
        ) by {
            assert(on_one_line(b[i + 1]));
        }
        lemma_block_unique(a.drop_first(), x, b.drop_first(), y, column);
        assert(a =~= seq![a[0]] + a.drop_first());
        assert(b =~= seq![b[0]] + b.drop_first());
    }
}

/// Keys that are followed by a colon in the same text are the same.
proof fn lemma_key_unique(a: Seq<char>, x: Seq<char>, b: Seq<char>, y: Seq<char>)
    requires
        is_key(a),
        is_key(b),
        x.len() > 0,
        y.len() > 0,
        x[0] == ':',
        y[0] == ':',
        a + x == b + y,
    ensures
        a == b,
        x == y,
{
    let t = a + x;
    let u = b + y;
    assert(t[a.len() as int] == ':');
    assert(u[b.len() as int] == ':');
    if a.len() < b.len() {
        assert(u[a.len() as int] == b[a.len() as int]);
        assert(is_key_char(b[a.len() as int]));
        assert(false);
    }
    if b.len() < a.len() {
        assert(t[b.len() as int] == a[b.len() as int]);
        assert(is_key_char(a[b.len() as int]));
        assert(false);
    }
    assert forall|i: int| 0 <= i < a.len() implies a[i] == b[i] by {
        assert(t[i] == a[i]);
        assert(u[i] == b[i]);
    }
    assert(a =~= b);
    lemma_same_rest(a, x, y);
}

/// What stands on the line of the key, after it.
pub open spec fn on_key_line(value: Node) -> Seq<char> {
    match value {
        Node::Null => ": null"@,
        Node::Plain(s) => ": "@ + s,
        Node::Quoted(s) => ": "@ + quoted(s),
        Node::Literal(_) => ": |"@,
        Node::EmptyList => ": []"@,
        _ => ":"@,
    }
}

/// What stands below the line of the key.
pub open spec fn below_key(value: Node, column: nat) -> Seq<char> {
    match value {
        Node::Literal(s) => block(lines(s), column + 2),
        Node::EmptyListBelow => spaces(column + 2) + "[]\n"@,
        Node::Mapping(entries) => entries_text(entries, column + 2),
        Node::List(items) => items_text(items, column + 2),
        _ => Seq::empty(),
    }
}

pub(crate) proof fn lemma_value_lines(value: Node, column: nat)
    requires
        well_formed(value),
    ensures
        value_text(value, column) == on_key_line(value) + seq!['\n'] + below_key(value, column),
        on_one_line(on_key_line(value)),
        on_key_line(value).len() > 0,
        on_key_line(value)[0] == ':',
{
    reveal_strlit(": null\n");
    reveal_strlit(": ");
    reveal_strlit(": |\n");
    reveal_strlit(": []\n");
    reveal_strlit(":\n");
    reveal_strlit(": null");
    reveal_strlit(": |");
    reveal_strlit(": []");
    reveal_strlit(":");
    match value {
        Node::Quoted(s) => {
            lemma_quoted(s);
        },
        _ => {},
    }
    assert(value_text(value, column) =~= on_key_line(value) + seq!['\n'] + below_key(
        value,
        column,
    ));
}

/// What follows ends a value at any column further in.
proof fn lemma_ends_further(rest: Seq<char>, column: nat, further: nat)
    requires
        ends_before(rest, column),
        column <= further,
    ensures
        ends_before(rest, further),
{
}

/// Something at a column ends what stands further in.
proof fn lemma_ends_at(rest: Seq<char>, column: nat)
    requires
        rest.len() > column,
        rest[column as int] != ' ',
    ensures
        ends_before(rest, column + 1),
{
}

/// Entries begin with spaces and a key.
proof fn lemma_entries_begin(entries: Seq<(Seq<char>, Node)>, column: nat)
    requires
        entries.len() > 0,
        well_formed_entries(entries),
    ensures
        entries_text(entries, column).len() > column,
        spaces_at(entries_text(entries, column), 0, column),
        is_key_char(entries_text(entries, column)[column as int]),
{
    lemma_entries_first(entries, column);
    lemma_well_formed_first(entries);
    let t = entry_text(entries[0].0, entries[0].1, column);
    assert(t[column as int] == entries[0].0[0]);
    assert(is_key_char(entries[0].0[0]));
}

/// Items begin with spaces and a dash.
proof fn lemma_items_begin(items: Seq<Node>, column: nat)
    requires
        items.len() > 0,
        well_formed_items(items),
    ensures
        items_text(items, column).len() > column,
        spaces_at(items_text(items, column), 0, column),
        items_text(items, column)[column as int] == '-',
{
    reveal_strlit("- ");
    reveal_strlit("-\n");
    lemma_items_first(items, column);
    lemma_well_formed_items_first(items);
    let t = item_text(items[0], column);
    assert(t.len() > column);
    assert(spaces_at(t, 0, column));
    assert(t[column as int] == '-');
}

/// What follows an entry ends its value.
proof fn lemma_after_entry(entries: Seq<(Seq<char>, Node)>, rest: Seq<char>, column: nat)
    requires
        well_formed_entries(entries),
        ends_before(rest, column),
    ensures
        ends_before(entries_text(entries, column) + rest, column + 1),
{
    let t = entries_text(entries, column) + rest;
    if entries.len() == 0 {
        assert(t =~= rest);
        lemma_ends_further(rest, column, column + 1);
    } else {
        lemma_entries_begin(entries, column);
        assert(t[column as int] == entries_text(entries, column)[column as int]);
        lemma_ends_at(t, column);
    }
}

/// What follows an item ends it.
proof fn lemma_after_item(items: Seq<Node>, rest: Seq<char>, column: nat)
    requires
        well_formed_items(items),
        ends_before(rest, column),
    ensures
        ends_before(items_text(items, column) + rest, column + 1),
{
    let t = items_text(items, column) + rest;
    if items.len() == 0 {
        assert(t =~= rest);
        lemma_ends_further(rest, column, column + 1);
    } else {
        lemma_items_begin(items, column);
        assert(t[column as int] == items_text(items, column)[column as int]);
        lemma_ends_at(t, column);
    }
}

/// The line of the key tells which sort of value there is, and which scalar.
proof fn lemma_key_line_unique(a: Node, b: Node)
    requires
        well_formed(a),
        well_formed(b),
        on_key_line(a) == on_key_line(b),
    ensures
        a is Null <==> b is Null,
        a is EmptyList <==> b is EmptyList,
        a is Literal <==> b is Literal,
        a is Plain <==> b is Plain,
        a is Quoted <==> b is Quoted,
        a is Plain ==> a == b,
        a is Quoted ==> a == b,
{
    reveal_strlit(": null");
    reveal_strlit(": ");
    reveal_strlit(": |");
    reveal_strlit(": []");
    reveal_strlit(":");
    reveal_strlit("null");
    let u = on_key_line(a);
    let v = on_key_line(b);
    assert(u.len() == v.len());
    if u.len() > 2 {
        assert(u[2] == v[2]);
    }
    if let Node::Plain(s) = a {
        assert(u[2] == s[0]);
        assert(u.skip(2) =~= s);
        if b is Null {
            assert(v.skip(2) =~= "null"@);
        }
    }
    if let Node::Plain(s) = b {
        assert(v[2] == s[0]);
        assert(v.skip(2) =~= s);
        if a is Null {
            assert(u.skip(2) =~= "null"@);
        }
    }
    if let Node::Quoted(s) = a {
        assert(u[2] == quoted(s)[0]);
        assert(u.skip(2) =~= quoted(s));
        if let Node::Quoted(r) = b {
            assert(v.skip(2) =~= quoted(r));
            law_quoted_injective(s, r);
        }
    }
    if let Node::Quoted(s) = b {
        assert(v[2] == quoted(s)[0]);
    }
}

/// Values that are the same text are the same.
proof fn lemma_value_unique(a: Node, x: Seq<char>, b: Node, y: Seq<char>, column: nat)
    requires
        well_formed(a),
        well_formed(b),
        ends_before(x, column + 1),
        ends_before(y, column + 1),
        value_text(a, column) + x == value_text(b, column) + y,
    ensures
        a == b,
        x == y,
    decreases a, 1nat,
{
    let inner = column + 2;
    let ax = below_key(a, column) + x;
    let by = below_key(b, column) + y;
    lemma_value_lines(a, column);
    lemma_value_lines(b, column);
    assert(value_text(a, column) + x =~= on_key_line(a) + seq!['\n'] + ax);
    assert(value_text(b, column) + y =~= on_key_line(b) + seq!['\n'] + by);
    lemma_first_line(on_key_line(a), ax, on_key_line(b), by);
    lemma_key_line_unique(a, b);
    lemma_ends_further(x, column + 1, inner);
    lemma_ends_further(y, column + 1, inner);
    match a {
        Node::Literal(s) => {
            if let Node::Literal(r) = b {
                lemma_lines_on_one_line(s);
                lemma_lines_on_one_line(r);
                lemma_block_unique(lines(s), x, lines(r), y, inner);
                lemma_joined_lines(s);
                lemma_joined_lines(r);
            }
        },
        Node::EmptyListBelow | Node::Mapping(_) | Node::List(_) => {
            lemma_below_unique(a, x, b, y, column);
        },
        _ => {
            assert(ax =~= x);
            assert(by =~= y);
        },
    }
}

proof fn lemma_lines_on_one_line(s: Seq<char>)
    ensures
        forall|i: int| 0 <= i < lines(s).len() ==> on_one_line(#[trigger] lines(s)[i]),
{
    lemma_lines_clean(s);
    assert forall|i: int| 0 <= i < lines(s).len() implies on_one_line(#[trigger] lines(s)[i]) by {
        assert forall|j: int| 0 <= j < lines(s)[i].len() implies lines(s)[i][j] != '\n' by {
        }
    }
}

/// What a value that stands below its key begins with.
proof fn lemma_below_begin(a: Node, x: Seq<char>, column: nat)
    requires
        a is EmptyListBelow || a is Mapping || a is List,
        well_formed(a),
        ends_before(x, column + 2),
    ensures
        ({
            let t = below_key(a, column) + x;
            let inner = column + 2;
            if a is List && (a->List_0).len() == 0 {
                ends_before(t, inner)
            } else {
                &&& t.len() > inner
                &&& spaces_at(t, 0, inner)
                &&& a is EmptyListBelow ==> t[inner as int] == '['
                &&& a is Mapping ==> is_key_char(t[inner as int])
                &&& a is List ==> t[inner as int] == '-'
            }
        }),
{
    let t = below_key(a, column) + x;
    let inner = column + 2;
    reveal_strlit("[]\n");
    match a {
        Node::Mapping(entries) => {
            lemma_entries_begin(entries, inner);
        },
        Node::List(items) => {
            if items.len() == 0 {
                assert(t =~= x);
            } else {
                lemma_items_begin(items, inner);
            }
        },
        _ => {},
    }
}

/// A value that stands below its key: what its first line begins with tells
/// the sort.
proof fn lemma_below_unique(a: Node, x: Seq<char>, b: Node, y: Seq<char>, column: nat)
    requires
        a is EmptyListBelow || a is Mapping || a is List,
        b is EmptyListBelow || b is Mapping || b is List,
        well_formed(a),
        well_formed(b),
        ends_before(x, column + 2),
        ends_before(y, column + 2),
        below_key(a, column) + x == below_key(b, column) + y,
    ensures
        a == b,
        x == y,
    decreases a, 0nat,
{
    let inner = column + 2;
    let t = below_key(a, column) + x;
    let u = below_key(b, column) + y;
    reveal_strlit("[]\n");
    lemma_below_begin(a, x, column);
    lemma_below_begin(b, y, column);
    match (a, b) {
        (Node::EmptyListBelow, Node::EmptyListBelow) => {
            lemma_same_rest(below_key(a, column), x, y);
        },
        (Node::Mapping(es), Node::Mapping(fs)) => {
            lemma_entries_unique(es, x, fs, y, inner);
        },
        (Node::List(items), Node::List(others)) => {
            lemma_items_unique(items, x, others, y, inner);
        },
        _ => {
            assert(false);
        },
    }
}

/// Entries that are the same text are the same.
proof fn lemma_entries_unique(
    a: Seq<(Seq<char>, Node)>,
    x: Seq<char>,
    b: Seq<(Seq<char>, Node)>,
    y: Seq<char>,
    column: nat,
)
    requires
        well_formed_entries(a),
        well_formed_entries(b),
        ends_before(x, column),
        ends_before(y, column),
        entries_text(a, column) + x == entries_text(b, column) + y,
    ensures
        a == b,
        x == y,
    decreases a, 0nat,
{
    let t = entries_text(a, column) + x;
    let u = entries_text(b, column) + y;
    if a.len() > 0 {
        lemma_entries_begin(a, column);
        lemma_entries_first(a, column);
        lemma_well_formed_first(a);
    }
    if b.len() > 0 {
        lemma_entries_begin(b, column);
        lemma_entries_first(b, column);
        lemma_well_formed_first(b);
    }
    if a.len() == 0 && b.len() == 0 {
        assert(t =~= x);
        assert(u =~= y);
        assert(a =~= b);
    } else if a.len() == 0 {
        assert(t =~= x);
        assert(spaces_at(u, 0, column));
        assert(false);
    } else if b.len() == 0 {
        assert(u =~= y);
        assert(spaces_at(t, 0, column));
        assert(false);
    } else {
        let ax = entries_text(a.drop_first(), column) + x;
        let by = entries_text(b.drop_first(), column) + y;
        let av = value_text(a[0].1, column);
        let bv = value_text(b[0].1, column);
        lemma_value_lines(a[0].1, column);
        lemma_value_lines(b[0].1, column);
        assert(t =~= spaces(column) + (a[0].0 + (av + ax)));
        assert(u =~= spaces(column) + (b[0].0 + (bv + by)));
        lemma_same_rest(spaces(column), a[0].0 + (av + ax), b[0].0 + (bv + by));
        lemma_key_unique(a[0].0, av + ax, b[0].0, bv + by);
        lemma_after_entry(a.drop_first(), x, column);
        lemma_after_entry(b.drop_first(), y, column);
        lemma_value_unique(a[0].1, ax, b[0].1, by, column);
        lemma_entries_unique(a.drop_first(), x, b.drop_first(), y, column);
        assert(a =~= seq![a[0]] + a.drop_first());
        assert(b =~= seq![b[0]] + b.drop_first());
    }
}

/// A mapping as an item: the dash, the first key, and the rest.
proof fn lemma_mapping_item(entries: Seq<(Seq<char>, Node)>, x: Seq<char>, column: nat)
    requires
        entries.len() > 0,
    ensures
        item_text(Node::Mapping(entries), column) + x == (spaces(column) + "- "@) + (entries[0].0
            + (value_text(entries[0].1, column + 2) + (entries_text(
            entries.drop_first(),
            column + 2,
        ) + x))),
{
    let t = item_text(Node::Mapping(entries), column) + x;
    let key = entries[0].0;
    let value = value_text(entries[0].1, column + 2);
    let rest = entries_text(entries.drop_first(), column + 2);
    assert(t == spaces(column) + "- "@ + key + value + rest + x);
    assert(t =~= (spaces(column) + "- "@) + (key + (value + (rest + x))));
}

/// A double-quoted scalar as an item: the dash, and the scalar on its line.
proof fn lemma_quoted_item(s: Seq<char>, x: Seq<char>, column: nat)
    ensures
        item_text(Node::Quoted(s), column) + x == (spaces(column) + "- "@) + (quoted(s)
            + seq!['\n'] + x),
{
    assert(item_text(Node::Quoted(s), column) + x =~= (spaces(column) + "- "@) + (quoted(s)
        + seq!['\n'] + x));
}

/// Mappings that are the same text as items are the same.
proof fn lemma_record_unique(
    a: Seq<(Seq<char>, Node)>,
    x: Seq<char>,
    b: Seq<(Seq<char>, Node)>,
    y: Seq<char>,
    column: nat,
)
    requires
        a.len() > 0,
        b.len() > 0,
        well_formed_entries(a),
        well_formed_entries(b),
        ends_before(x, column + 1),
        ends_before(y, column + 1),
        item_text(Node::Mapping(a), column) + x == item_text(Node::Mapping(b), column) + y,
    ensures
        a == b,
        x == y,
    decreases a, 0nat,
{
    let inner = column + 2;
    let ar = a.drop_first();
    let br = b.drop_first();
    let av = value_text(a[0].1, inner);
    let bv = value_text(b[0].1, inner);
    let ax = entries_text(ar, inner) + x;
    let by = entries_text(br, inner) + y;
    lemma_ends_further(x, column + 1, inner);
    lemma_ends_further(y, column + 1, inner);
    lemma_well_formed_first(a);
    lemma_well_formed_first(b);
    lemma_value_lines(a[0].1, inner);
    lemma_value_lines(b[0].1, inner);
    lemma_mapping_item(a, x, column);
    lemma_mapping_item(b, y, column);
    lemma_same_rest(spaces(column) + "- "@, a[0].0 + (av + ax), b[0].0 + (bv + by));
    lemma_key_unique(a[0].0, av + ax, b[0].0, bv + by);
    lemma_after_entry(ar, x, inner);
    lemma_after_entry(br, y, inner);
    lemma_value_unique(a[0].1, ax, b[0].1, by, inner);
    lemma_entries_unique(ar, x, br, y, inner);
    assert(a =~= seq![a[0]] + ar);
    assert(b =~= seq![b[0]] + br);
}

/// Items that are the same text are the same.
proof fn lemma_item_unique(a: Node, x: Seq<char>, b: Node, y: Seq<char>, column: nat)
    requires
        is_item(a),
        is_item(b),
        well_formed(a),
        well_formed(b),
        ends_before(x, column + 1),
        ends_before(y, column + 1),
        item_text(a, column) + x == item_text(b, column) + y,
    ensures
        a == b,
        x == y,
    decreases a, 0nat,
{
    let dash = spaces(column) + "- "@;
    match (a, b) {
        (Node::Quoted(s), Node::Quoted(r)) => {
            lemma_quoted_item(s, x, column);
            lemma_quoted_item(r, y, column);
            lemma_same_rest(dash, quoted(s) + seq!['\n'] + x, quoted(r) + seq!['\n'] + y);
            lemma_quoted(s);
            lemma_quoted(r);
            lemma_first_line(quoted(s), x, quoted(r), y);
            law_quoted_injective(s, r);
        },
        (Node::Quoted(s), Node::Mapping(es)) => {
            lemma_items_differ(s, x, es, y, column);
        },
        (Node::Mapping(es), Node::Quoted(r)) => {
            lemma_items_differ(r, y, es, x, column);
        },
        (Node::Mapping(es), Node::Mapping(fs)) => {
            lemma_record_unique(es, x, fs, y, column);
        },
        _ => {},
    }
}

/// A double-quoted scalar and a mapping are different texts as items.
proof fn lemma_items_differ(
    s: Seq<char>,
    x: Seq<char>,
    entries: Seq<(Seq<char>, Node)>,
    y: Seq<char>,
    column: nat,
)
    requires
        entries.len() > 0,
        well_formed_entries(entries),
    ensures
        item_text(Node::Quoted(s), column) + x != item_text(Node::Mapping(entries), column) + y,
{
    let c = (spaces(column) + "- "@).len() as int;
    lemma_quoted_item(s, x, column);
    lemma_mapping_item(entries, y, column);
    lemma_well_formed_first(entries);
    assert((item_text(Node::Quoted(s), column) + x)[c] == '"');
    assert(is_key_char(entries[0].0[0]));
    assert((item_text(Node::Mapping(entries), column) + y)[c] == entries[0].0[0]);
}

/// Lists of items that are the same text are the same.
proof fn lemma_items_unique(
    a: Seq<Node>,
    x: Seq<char>,
    b: Seq<Node>,
    y: Seq<char>,
    column: nat,
)
    requires
        well_formed_items(a),
        well_formed_items(b),
        ends_before(x, column),
        ends_before(y, column),
        items_text(a, column) + x == items_text(b, column) + y,
    ensures
        a == b,
        x == y,
    decreases a, 0nat,
{
    let t = items_text(a, column) + x;
    let u = items_text(b, column) + y;
    if a.len() > 0 {
        lemma_items_begin(a, column);
        lemma_items_first(a, column);
        lemma_well_formed_items_first(a);
    }
    if b.len() > 0 {
        lemma_items_begin(b, column);
        lemma_items_first(b, column);
        lemma_well_formed_items_first(b);
    }
    if a.len() == 0 && b.len() == 0 {
        assert(t =~= x);
        assert(u =~= y);
        assert(a =~= b);
    } else if a.len() == 0 {
        assert(t =~= x);
        assert(spaces_at(u, 0, column));
        assert(false);
    } else if b.len() == 0 {
        assert(u =~= y);
        assert(spaces_at(t, 0, column));
        assert(false);
    } else {
        let ax = items_text(a.drop_first(), column) + x;
        let by = items_text(b.drop_first(), column) + y;
        assert(t =~= item_text(a[0], column) + ax);
        assert(u =~= item_text(b[0], column) + by);
        lemma_after_item(a.drop_first(), x, column);
        lemma_after_item(b.drop_first(), y, column);
        lemma_item_unique(a[0], ax, b[0], by, column);
        lemma_items_unique(a.drop_first(), x, b.drop_first(), y, column);
        assert(a =~= seq![a[0]] + a.drop_first());
        assert(b =~= seq![b[0]] + b.drop_first());
    }
}

/// Two mappings that the layout can carry, and that are written the same, are
/// the same: nothing of a tree is lost in its text.
pub proof fn law_entries_read_one_way(
    a: Seq<(Seq<char>, Node)>,
    b: Seq<(Seq<char>, Node)>,
    column: nat,
)
    requires
        well_formed_entries(a),
        well_formed_entries(b),
        entries_text(a, column) == entries_text(b, column),
    ensures
        a == b,
{
    let none = Seq::<char>::empty();
    assert(entries_text(a, column) + none =~= entries_text(a, column));
    assert(entries_text(b, column) + none =~= entries_text(b, column));
    lemma_entries_unique(a, none, b, none, column);
}

/// Two items that the layout can carry, and that are written the same, are the
/// same.
pub proof fn law_item_read_one_way(a: Node, b: Node, column: nat)
    requires
        is_item(a),
        is_item(b),
        well_formed(a),
        well_formed(b),
        item_text(a, column) == item_text(b, column),
    ensures
        a == b,
{
    let none = Seq::<char>::empty();
    assert(item_text(a, column) + none =~= item_text(a, column));
    assert(item_text(b, column) + none =~= item_text(b, column));
    lemma_item_unique(a, none, b, none, column);
}

} // verus!
