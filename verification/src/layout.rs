//! What is written of a value stays inside the value: no text that a message
//! holds can pass for another part of the document.
use vstd::prelude::*;

use crate::reading::{law_quoted_on_one_line, lemma_lines_clean};
use crate::text::{quoted, spaces};
use crate::tree::{block, entries_text, entry_text, item_text, items_text, lines, value_text, Node};

verus! {

/// A text without a newline.
pub open spec fn on_one_line(s: Seq<char>) -> bool {
    forall|i: int| 0 <= i < s.len() ==> s[i] != '\n'
}

/// A line of `t` begins at `p`.
pub open spec fn line_begins(t: Seq<char>, p: int) -> bool {
    0 <= p < t.len() && (p == 0 || t[p - 1] == '\n')
}

/// There are `column` spaces at `p`.
pub open spec fn spaces_at(t: Seq<char>, p: int, column: nat) -> bool {
    p + column <= t.len() && forall|k: int| p <= k < p + column ==> t[k] == ' '
}

/// Every line stands at least `column` spaces in, and the last line is ended.
pub open spec fn indented(t: Seq<char>, column: nat) -> bool {
    &&& t.len() > 0 ==> t.last() == '\n'
    &&& forall|p: int| #[trigger] line_begins(t, p) ==> spaces_at(t, p, column)
}

/// Every line but the first stands at least `column` spaces in, and the last
/// line is ended.
pub open spec fn contained(t: Seq<char>, column: nat) -> bool {
    &&& t.len() > 0
    &&& t.last() == '\n'
    &&& forall|p: int| p > 0 && #[trigger] line_begins(t, p) ==> spaces_at(t, p, column)
}

/// The characters of a key.
pub open spec fn is_key_char(c: char) -> bool {
    'a' <= c <= 'z' || c == '_'
}

/// A key.
pub open spec fn is_key(key: Seq<char>) -> bool {
    key.len() > 0 && forall|i: int| 0 <= i < key.len() ==> is_key_char(#[trigger] key[i])
}

/// A scalar that can be written as it is, and is then taken neither for
/// another sort of value nor for none.
pub open spec fn is_plain(s: Seq<char>) -> bool {
    on_one_line(s) && s.len() > 0 && s[0] != '"' && s[0] != '|' && s[0] != '[' && s != "null"@
}

/// A node that the layout can carry: its keys are keys, its plain scalars can
/// be written as they are, no mapping is empty, and the items of its lists are
/// double-quoted scalars and mappings.
pub open spec fn well_formed(node: Node) -> bool
    decreases node, 0nat,
{
    match node {
        Node::Plain(s) => is_plain(s),
        Node::Mapping(entries) => entries.len() > 0 && well_formed_entries(entries),
        Node::List(items) => well_formed_items(items),
        _ => true,
    }
}

/// Entries of a mapping that the layout can carry.
pub open spec fn well_formed_entries(entries: Seq<(Seq<char>, Node)>) -> bool
    decreases entries, 0nat,
{
    entries.len() > 0 ==> well_formed_entries(entries.drop_last()) && is_key(entries.last().0)
        && well_formed(entries.last().1)
}

/// A node that can be an item of a list.
pub open spec fn is_item(node: Node) -> bool {
    node is Quoted || node is Mapping
}

/// Items of a list that the layout can carry.
pub open spec fn well_formed_items(items: Seq<Node>) -> bool
    decreases items, 0nat,
{
    items.len() > 0 ==> well_formed_items(items.drop_last()) && is_item(items.last())
        && well_formed(items.last())
}

proof fn lemma_indented_append(a: Seq<char>, b: Seq<char>, column: nat)
    requires
        indented(a, column),
        indented(b, column),
    ensures
        indented(a + b, column),
{
    let t = a + b;
    assert forall|p: int| #[trigger] line_begins(t, p) implies spaces_at(t, p, column) by {
        if p < a.len() {
            assert(line_begins(a, p));
            assert(spaces_at(a, p, column));
        } else {
            assert(line_begins(b, p - a.len()));
            assert(spaces_at(b, p - a.len(), column));
            assert forall|k: int| p <= k < p + column implies t[k] == ' ' by {
                assert(t[k] == b[k - a.len()]);
            }
        }
    }
}

proof fn lemma_contained_append(a: Seq<char>, b: Seq<char>, column: nat)
    requires
        contained(a, column),
        indented(b, column),
    ensures
        contained(a + b, column),
{
    let t = a + b;
    assert forall|p: int| p > 0 && #[trigger] line_begins(t, p) implies spaces_at(
        t,
        p,
        column,
    ) by {
        if p < a.len() {
            assert(line_begins(a, p));
            assert(spaces_at(a, p, column));
        } else {
            assert(line_begins(b, p - a.len()));
            assert(spaces_at(b, p - a.len(), column));
            assert forall|k: int| p <= k < p + column implies t[k] == ' ' by {
                assert(t[k] == b[k - a.len()]);
            }
        }
    }
}

/// What precedes a contained text on its first line does not change that.
pub(crate) proof fn lemma_contained_after(head: Seq<char>, t: Seq<char>, column: nat)
    requires
        on_one_line(head),
        contained(t, column),
    ensures
        contained(head + t, column),
{
    let u = head + t;
    assert forall|p: int| p > 0 && #[trigger] line_begins(u, p) implies spaces_at(
        u,
        p,
        column,
    ) by {
        assert(p > head.len());
        assert(line_begins(t, p - head.len()));
        assert(spaces_at(t, p - head.len(), column));
        assert forall|k: int| p <= k < p + column implies u[k] == ' ' by {
            assert(u[k] == t[k - head.len()]);
        }
    }
}

/// A contained text that begins with spaces is indented by as many.
proof fn lemma_contained_indented(t: Seq<char>, column: nat, further: nat)
    requires
        contained(t, further),
        column <= further,
        spaces_at(t, 0, column),
    ensures
        indented(t, column),
{
}

/// A single line is contained at any column.
proof fn lemma_single_line(s: Seq<char>, column: nat)
    requires
        on_one_line(s),
    ensures
        contained(s + seq!['\n'], column),
{
}

proof fn lemma_block(ls: Seq<Seq<char>>, column: nat)
    requires
        forall|i: int| 0 <= i < ls.len() ==> on_one_line(#[trigger] ls[i]),
    ensures
        indented(block(ls, column), column),
    decreases ls.len(),
{
    if ls.len() > 0 {
        lemma_block(ls.drop_last(), column);
        let line = spaces(column) + ls.last();
        assert(on_one_line(ls[ls.len() - 1]));
        lemma_single_line(line, column);
        lemma_contained_indented(line + seq!['\n'], column, column);
        lemma_indented_append(block(ls.drop_last(), column), line + seq!['\n'], column);
    }
}

pub(crate) proof fn lemma_key_on_one_line(key: Seq<char>)
    requires
        is_key(key),
    ensures
        on_one_line(key),
{
    assert forall|i: int| 0 <= i < key.len() implies key[i] != '\n' by {
        assert(is_key_char(key[i]));
    }
}

pub(crate) proof fn lemma_quoted(s: Seq<char>)
    ensures
        on_one_line(quoted(s)),
{
    law_quoted_on_one_line(s);
}

/// What is written of a value stands further in than its key.
pub(crate) proof fn lemma_value(value: Node, column: nat)
    requires
        well_formed(value),
    ensures
        contained(value_text(value, column), column + 2),
    decreases value, 0nat,
{
    reveal_strlit(": null\n");
    reveal_strlit(": ");
    reveal_strlit(": |\n");
    reveal_strlit(": []\n");
    reveal_strlit(":\n");
    reveal_strlit("[]\n");
    match value {
        Node::Null => {},
        Node::Plain(s) => {
            lemma_single_line(": "@ + s, column + 2);
        },
        Node::Quoted(s) => {
            lemma_quoted(s);
            lemma_single_line(": "@ + quoted(s), column + 2);
        },
        Node::Literal(s) => {
            lemma_lines_clean(s);
            assert forall|i: int| 0 <= i < lines(s).len() implies on_one_line(
                #[trigger] lines(s)[i],
            ) by {
                assert forall|j: int| 0 <= j < lines(s)[i].len() implies lines(s)[i][j] != '\n' by {
                }
            }
            lemma_block(lines(s), column + 2);
            lemma_contained_append(": |\n"@, block(lines(s), column + 2), column + 2);
        },
        Node::EmptyList => {},
        Node::EmptyListBelow => {
            let line = spaces(column + 2) + "[]\n"@;
            assert(contained(line, column + 2));
            lemma_contained_indented(line, column + 2, column + 2);
            lemma_contained_append(":\n"@, line, column + 2);
            assert(":\n"@ + line =~= value_text(value, column));
        },
        Node::Mapping(entries) => {
            lemma_entries(entries, column + 2);
            lemma_contained_append(":\n"@, entries_text(entries, column + 2), column + 2);
        },
        Node::List(items) => {
            lemma_items(items, column + 2);
            lemma_contained_append(":\n"@, items_text(items, column + 2), column + 2);
        },
    }
}

pub(crate) proof fn lemma_entry(key: Seq<char>, value: Node, column: nat)
    requires
        is_key(key),
        well_formed(value),
    ensures
        indented(entry_text(key, value, column), column),
        contained(entry_text(key, value, column), column + 2),
    decreases value, 1nat,
{
    lemma_value(value, column);
    lemma_key_on_one_line(key);
    lemma_contained_after(spaces(column) + key, value_text(value, column), column + 2);
    lemma_contained_indented(entry_text(key, value, column), column, column + 2);
}

pub(crate) proof fn lemma_entries(entries: Seq<(Seq<char>, Node)>, column: nat)
    requires
        well_formed_entries(entries),
    ensures
        indented(entries_text(entries, column), column),
    decreases entries, 0nat,
{
    if entries.len() > 0 {
        let front = entries.drop_last();
        lemma_entries(front, column);
        lemma_entry(entries.last().0, entries.last().1, column);
        lemma_indented_append(
            entries_text(front, column),
            entry_text(entries.last().0, entries.last().1, column),
            column,
        );
    }
}

pub(crate) proof fn lemma_well_formed_first(entries: Seq<(Seq<char>, Node)>)
    requires
        well_formed_entries(entries),
        entries.len() > 0,
    ensures
        is_key(entries[0].0),
        well_formed(entries[0].1),
        well_formed_entries(entries.drop_first()),
    decreases entries.len(),
{
    if entries.len() > 1 {
        lemma_well_formed_first(entries.drop_last());
        assert(entries.drop_first().drop_last() =~= entries.drop_last().drop_first());
    }
}

pub(crate) proof fn lemma_item(item: Node, column: nat)
    requires
        well_formed(item),
    ensures
        indented(item_text(item, column), column),
        contained(item_text(item, column), column + 2),
    decreases item, 0nat,
{
    reveal_strlit("- ");
    reveal_strlit("-\n");
    let t = item_text(item, column);
    let dash = spaces(column) + "- "@;
    match item {
        Node::Quoted(s) => {
            lemma_quoted(s);
            lemma_single_line(dash + quoted(s), column + 2);
        },
        Node::Mapping(entries) if entries.len() > 0 => {
            let rest = entries.drop_first();
            let first = entries[0];
            lemma_well_formed_first(entries);
            lemma_key_on_one_line(first.0);
            lemma_value(first.1, column + 2);
            lemma_entries(rest, column + 2);
            let value = value_text(first.1, column + 2);
            assert(contained(value, column + 2));
            lemma_contained_after(dash + first.0, value, column + 2);
            lemma_contained_append(
                dash + first.0 + value,
                entries_text(rest, column + 2),
                column + 2,
            );
        },
        _ => {},
    }
    assert(contained(t, column + 2));
    lemma_contained_indented(t, column, column + 2);
}

pub(crate) proof fn lemma_items(items: Seq<Node>, column: nat)
    requires
        well_formed_items(items),
    ensures
        indented(items_text(items, column), column),
    decreases items, 0nat,
{
    if items.len() > 0 {
        let front = items.drop_last();
        lemma_items(front, column);
        lemma_item(items.last(), column);
        lemma_indented_append(items_text(front, column), item_text(items.last(), column), column);
    }
}

} // verus!
