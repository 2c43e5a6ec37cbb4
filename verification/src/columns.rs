//! Which lines of a text stand at a column.
use vstd::prelude::*;

use crate::layout::{
    contained, is_item, is_key, is_key_char, lemma_contained_after, lemma_entries, lemma_entry,
    lemma_item, lemma_items, lemma_key_on_one_line, lemma_quoted, lemma_value,
    lemma_well_formed_first, line_begins, on_one_line, spaces_at, well_formed, well_formed_entries,
    well_formed_items,
};
use crate::reading::{lemma_lines_clean, lemma_lines_extend};
use crate::text::{quoted, spaces};
use crate::tree::{entries_text, entry_text, item_text, items_text, lines, value_text, Node};
use crate::unique::{below_key, lemma_value_lines, on_key_line};

verus! {

/// The lines of a text that each end in a newline.
pub open spec fn ended_lines(t: Seq<char>) -> Seq<Seq<char>> {
    lines(t).drop_last()
}

/// A line that stands at exactly this column: it begins with so many spaces,
/// and not with one more.
pub open spec fn stands_at(line: Seq<char>, column: nat) -> bool {
    spaces_at(line, 0, column) && !spaces_at(line, 0, column + 1)
}

/// The lines that stand at exactly this column, in order.
pub open spec fn standing_at(ls: Seq<Seq<char>>, column: nat) -> Seq<Seq<char>>
    decreases ls.len(),
{
    if ls.len() == 0 {
        Seq::empty()
    } else {
        let before = standing_at(ls.drop_last(), column);
        if stands_at(ls.last(), column) {
            before.push(ls.last())
        } else {
            before
        }
    }
}

/// The lines with the keys of these entries.
pub open spec fn key_lines(entries: Seq<(Seq<char>, Node)>, column: nat) -> Seq<Seq<char>> {
    entries.map_values(
        |entry: (Seq<char>, Node)| spaces(column) + entry.0 + on_key_line(entry.1),
    )
}

/// What stands on the line of the dash.
pub open spec fn dash_line(item: Node, column: nat) -> Seq<char> {
    spaces(column) + "- "@ + (match item {
        Node::Quoted(s) => quoted(s),
        Node::Mapping(entries) => entries[0].0 + on_key_line(entries[0].1),
        _ => Seq::empty(),
    })
}

/// The lines with the dashes of these items.
pub open spec fn dash_lines(items: Seq<Node>, column: nat) -> Seq<Seq<char>> {
    items.map_values(|item: Node| dash_line(item, column))
}

/// A text that has no line, or whose last line is ended.
spec fn ended(t: Seq<char>) -> bool {
    t.len() > 0 ==> t.last() == '\n'
}

/// The line with index `i` begins at `p`.
spec fn begins_at(t: Seq<char>, i: int, p: int) -> bool {
    let line = lines(t)[i];
    &&& 0 <= p
    &&& p + line.len() <= t.len()
    &&& i == 0 <==> p == 0
    &&& p > 0 ==> t[p - 1] == '\n'
    &&& forall|k: int| 0 <= k < line.len() ==> line[k] == t[p + k]
    &&& if i < lines(t).len() - 1 {
        p + line.len() < t.len() && t[(p + line.len()) as int] == '\n'
    } else {
        p + line.len() == t.len()
    }
}

proof fn lemma_line_begin(t: Seq<char>, i: int) -> (p: int)
    requires
        0 <= i < lines(t).len(),
    ensures
        begins_at(t, i, p),
    decreases t.len(),
{
    if t.len() == 0 {
        0
    } else {
        let front = t.drop_last();
        let before = lines(front);
        lemma_lines_clean(front);
        if t.last() == '\n' && i == before.len() {
            let _ = lemma_line_begin(front, 0);
            t.len() as int
        } else {
            let p = lemma_line_begin(front, i);
            assert(begins_at(t, i, p));
            p
        }
    }
}

/// In a contained text every ended line but the first begins with the spaces.
proof fn lemma_contained_lines(t: Seq<char>, column: nat)
    requires
        contained(t, column),
    ensures
        ended_lines(t).len() > 0,
        forall|i: int|
            1 <= i < ended_lines(t).len() ==> spaces_at(#[trigger] ended_lines(t)[i], 0, column),
{
    lemma_lines_clean(t.drop_last());
    assert forall|i: int| 1 <= i < ended_lines(t).len() implies spaces_at(
        #[trigger] ended_lines(t)[i],
        0,
        column,
    ) by {
        let line = lines(t)[i];
        let p = lemma_line_begin(t, i);
        assert(line_begins(t, p));
        assert(spaces_at(t, p, column));
        if line.len() < column {
            assert(t[(p + line.len()) as int] == ' ');
        }
    }
}

/// Appending to a text whose last line is ended appends the lines.
proof fn lemma_lines_append(a: Seq<char>, b: Seq<char>)
    requires
        ended(a),
    ensures
        lines(b).len() > 0,
        lines(a + b) == ended_lines(a) + lines(b),
        ended_lines(a + b) == ended_lines(a) + ended_lines(b),
    decreases b.len(),
{
    lemma_lines_clean(a);
    lemma_lines_clean(b);
    if b.len() == 0 {
        assert(a + b =~= a);
        if a.len() > 0 {
            lemma_lines_clean(a.drop_last());
        }
        assert(lines(a).last() == Seq::<char>::empty());
        assert(lines(a) =~= ended_lines(a) + lines(b));
    } else {
        lemma_lines_append(a, b.drop_last());
        assert((a + b).drop_last() =~= a + b.drop_last());
        assert(lines(a + b) =~= ended_lines(a) + lines(b));
    }
    assert(ended_lines(a + b) =~= ended_lines(a) + ended_lines(b));
}

proof fn lemma_single_ended_line(line: Seq<char>)
    requires
        on_one_line(line),
    ensures
        ended_lines(line + seq!['\n']) == seq![line],
{
    let none = Seq::<char>::empty();
    lemma_lines_extend(none, line);
    assert(none + line =~= line);
    assert((line + seq!['\n']).drop_last() =~= line);
    assert(lines(line) =~= seq![line]);
    assert(ended_lines(line + seq!['\n']) =~= seq![line]);
}

/// The first line of a text is what stands before its first newline.
proof fn lemma_first_ended_line(line: Seq<char>, rest: Seq<char>)
    requires
        on_one_line(line),
    ensures
        ended_lines(line + seq!['\n'] + rest) == seq![line] + ended_lines(rest),
{
    lemma_single_ended_line(line);
    lemma_lines_append(line + seq!['\n'], rest);
}

proof fn lemma_standing_append(a: Seq<Seq<char>>, b: Seq<Seq<char>>, column: nat)
    ensures
        standing_at(a + b, column) == standing_at(a, column) + standing_at(b, column),
    decreases b.len(),
{
    if b.len() == 0 {
        assert(a + b =~= a);
    } else {
        lemma_standing_append(a, b.drop_last(), column);
        assert((a + b).drop_last() =~= a + b.drop_last());
    }
    assert(standing_at(a + b, column) =~= standing_at(a, column) + standing_at(b, column));
}

/// Lines that stand further in do not stand at the column; what is left is the
/// first line, if that one does.
proof fn lemma_first_standing(ls: Seq<Seq<char>>, column: nat, further: nat)
    requires
        ls.len() > 0,
        column < further,
        forall|i: int| 1 <= i < ls.len() ==> spaces_at(#[trigger] ls[i], 0, further),
    ensures
        standing_at(ls, column) == if stands_at(ls[0], column) {
            seq![ls[0]]
        } else {
            Seq::empty()
        },
    decreases ls.len(),
{
    if ls.len() > 1 {
        lemma_first_standing(ls.drop_last(), column, further);
        assert(spaces_at(ls[ls.len() - 1], 0, further));
        assert(spaces_at(ls.last(), 0, column + 1));
    } else {
        assert(standing_at(ls.drop_last(), column) =~= Seq::empty());
    }
}

/// Of an entry, the line of its key stands at its column, and no other.
proof fn lemma_entry_standing(key: Seq<char>, value: Node, column: nat)
    requires
        is_key(key),
        well_formed(value),
    ensures
        standing_at(ended_lines(entry_text(key, value, column)), column) == seq![
            spaces(column) + key + on_key_line(value),
        ],
        ended(entry_text(key, value, column)),
{
    let t = entry_text(key, value, column);
    let line = spaces(column) + key + on_key_line(value);
    lemma_entry(key, value, column);
    lemma_value_lines(value, column);
    lemma_key_on_one_line(key);
    assert(t =~= line + seq!['\n'] + below_key(value, column));
    lemma_first_ended_line(line, below_key(value, column));
    assert(ended_lines(t)[0] == line);
    lemma_contained_lines(t, column + 2);
    assert(is_key_char(key[0]));
    assert(line[column as int] == key[0]);
    assert(stands_at(line, column));
    lemma_first_standing(ended_lines(t), column, column + 2);
}

/// Of the entries of a mapping, the lines of the keys stand at their column,
/// and no others: each key has one line, in order.
pub proof fn law_keys_at_column(entries: Seq<(Seq<char>, Node)>, column: nat)
    requires
        well_formed_entries(entries),
    ensures
        standing_at(ended_lines(entries_text(entries, column)), column) == key_lines(
            entries,
            column,
        ),
    decreases entries.len(),
{
    let t = entries_text(entries, column);
    if entries.len() == 0 {
        assert(ended_lines(t) =~= Seq::empty());
    } else {
        let front = entries.drop_last();
        let last = entries.last();
        law_keys_at_column(front, column);
        lemma_entries(front, column);
        lemma_entry_standing(last.0, last.1, column);
        lemma_lines_append(entries_text(front, column), entry_text(last.0, last.1, column));
        lemma_standing_append(
            ended_lines(entries_text(front, column)),
            ended_lines(entry_text(last.0, last.1, column)),
            column,
        );
    }
    assert(standing_at(ended_lines(t), column) =~= key_lines(entries, column));
}

/// The first line of an item is the line of its dash, and the other lines
/// stand further in.
pub(crate) proof fn lemma_item_lines(item: Node, column: nat)
    requires
        is_item(item),
        well_formed(item),
    ensures
        ended_lines(item_text(item, column)).len() > 0,
        ended_lines(item_text(item, column))[0] == dash_line(item, column),
        forall|i: int|
            1 <= i < ended_lines(item_text(item, column)).len() ==> spaces_at(
                #[trigger] ended_lines(item_text(item, column))[i],
                0,
                column + 2,
            ),
{
    let t = item_text(item, column);
    let line = dash_line(item, column);
    reveal_strlit("- ");
    lemma_item(item, column);
    lemma_contained_lines(t, column + 2);
    match item {
        Node::Mapping(entries) => {
            let below = below_key(entries[0].1, column + 2) + entries_text(
                entries.drop_first(),
                column + 2,
            );
            lemma_well_formed_first(entries);
            lemma_key_on_one_line(entries[0].0);
            lemma_value_lines(entries[0].1, column + 2);
            assert(t =~= line + seq!['\n'] + below);
            lemma_first_ended_line(line, below);
        },
        Node::Quoted(s) => {
            lemma_quoted(s);
            assert(t =~= line + seq!['\n'] + Seq::empty());
            lemma_first_ended_line(line, Seq::empty());
        },
        _ => {},
    }
}

/// Of the items of a list, the lines of the dashes stand at their column, and
/// no others: each item has one such line, in order.
pub proof fn law_dashes_at_column(items: Seq<Node>, column: nat)
    requires
        well_formed_items(items),
    ensures
        standing_at(ended_lines(items_text(items, column)), column) == dash_lines(items, column),
    decreases items.len(),
{
    let t = items_text(items, column);
    if items.len() == 0 {
        assert(ended_lines(t) =~= Seq::empty());
    } else {
        let front = items.drop_last();
        let last = items.last();
        let line = dash_line(last, column);
        reveal_strlit("- ");
        law_dashes_at_column(front, column);
        lemma_items(front, column);
        lemma_item_lines(last, column);
        assert(line[column as int] == '-');
        assert(stands_at(line, column));
        lemma_first_standing(ended_lines(item_text(last, column)), column, column + 2);
        lemma_lines_append(items_text(front, column), item_text(last, column));
        lemma_standing_append(
            ended_lines(items_text(front, column)),
            ended_lines(item_text(last, column)),
            column,
        );
    }
    assert(standing_at(ended_lines(t), column) =~= dash_lines(items, column));
}

/// Of a mapping that is an item, the lines of the keys below the dash stand at
/// the column of the keys, and no others.
pub proof fn law_keys_below_dash(entries: Seq<(Seq<char>, Node)>, column: nat)
    requires
        entries.len() > 0,
        well_formed_entries(entries),
    ensures
        standing_at(ended_lines(item_text(Node::Mapping(entries), column)), column + 2)
            == key_lines(entries.drop_first(), column + 2),
{
    let inner = column + 2;
    let first = entries[0];
    let rest = entries.drop_first();
    let dash = spaces(column) + "- "@ + first.0;
    let head = dash + value_text(first.1, inner);
    let line = dash + on_key_line(first.1);
    reveal_strlit("- ");
    lemma_well_formed_first(entries);
    lemma_key_on_one_line(first.0);
    lemma_value(first.1, inner);
    lemma_contained_after(dash, value_text(first.1, inner), inner + 2);
    lemma_contained_lines(head, inner + 2);
    lemma_value_lines(first.1, inner);
    assert(head =~= line + seq!['\n'] + below_key(first.1, inner));
    lemma_first_ended_line(line, below_key(first.1, inner));
    assert(ended_lines(head)[0] == line);
    assert(line[column as int] == '-');
    assert(!stands_at(line, inner));
    lemma_first_standing(ended_lines(head), inner, inner + 2);
    lemma_lines_append(head, entries_text(rest, inner));
    lemma_standing_append(ended_lines(head), ended_lines(entries_text(rest, inner)), inner);
    law_keys_at_column(rest, inner);
    assert(item_text(Node::Mapping(entries), column) == head + entries_text(rest, inner));
    assert(standing_at(ended_lines(head), inner) + key_lines(rest, inner) =~= key_lines(
        rest,
        inner,
    ));
}

/// A line before the entries of a mapping at the left margin.
pub(crate) proof fn lemma_line_before(line: Seq<char>, entries: Seq<(Seq<char>, Node)>)
    requires
        on_one_line(line),
        line.len() > 0,
        line[0] != ' ',
        well_formed_entries(entries),
    ensures
        standing_at(ended_lines(line + seq!['\n'] + entries_text(entries, 0)), 0) == seq![line]
            + key_lines(entries, 0),
{
    law_keys_at_column(entries, 0);
    lemma_first_ended_line(line, entries_text(entries, 0));
    lemma_first_standing(seq![line], 0, 1);
    assert(stands_at(line, 0));
    lemma_standing_append(seq![line], ended_lines(entries_text(entries, 0)), 0);
}

} // verus!
