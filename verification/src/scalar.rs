//! Entries of a mapping whose value is a scalar, a literal block or a timestamp.
use vstd::prelude::*;

use crate::text::{decimal, indent, push_decimal, push_index, spaces, yaml_quote};
use crate::tree::{
    block, entries_text, entry_text, item_line, item_text, keys_of, lemma_mapping, lemma_next_entry,
    lemma_nothing, lines, Node,
};

verus! {

/// A string, or null where there is none.
pub open spec fn opt_str_node(value: Option<Seq<char>>) -> Node {
    match value {
        Some(v) => Node::Quoted(v),
        None => Node::Null,
    }
}

/// A literal block, or null where there is no string.
pub open spec fn literal_opt_node(value: Option<Seq<char>>) -> Node {
    match value {
        Some(v) => Node::Literal(v),
        None => Node::Null,
    }
}

/// A number in the notation it comes in, or null where there is none.
pub open spec fn opt_number_node(value: Option<Seq<char>>) -> Node {
    match value {
        Some(v) => Node::Plain(v),
        None => Node::Null,
    }
}

/// The string inside, where there is one.
pub(crate) fn borrow(value: &Option<String>) -> (res: Option<&str>)
    ensures
        res.deep_view() == value.deep_view(),
{
    match value {
        Some(v) => Some(v.as_str()),
        None => None,
    }
}

/// An integer.
pub open spec fn int_node(value: int) -> Node {
    Node::Plain(decimal(value))
}

/// An integer, or null where there is none.
pub open spec fn opt_i32_node(value: Option<i32>) -> Node {
    match value {
        Some(v) => int_node(v as int),
        None => Node::Null,
    }
}

/// A truth value.
pub open spec fn bool_node(value: bool) -> Node {
    Node::Plain(if value { "true"@ } else { "false"@ })
}

/// Appends the key that a nested mapping or list stands below.
pub(crate) fn write_key(out: &mut String, spaces: usize, key: &str)
    ensures
        final(out)@ == old(out)@ + (self::spaces(spaces as nat) + key@ + ":\n"@),
{
    indent(out, spaces);
    out.append(key);
    out.append(":\n");
}

/// Appends the entry `key` without a value.
pub(crate) fn write_kv_null(out: &mut String, spaces: usize, key: &str)
    ensures
        final(out)@ == old(out)@ + entry_text(key@, Node::Null, spaces as nat),
{
    indent(out, spaces);
    out.append(key);
    out.append(": null\n");
}

/// Appends the entry `key` with an empty list on the same line.
pub(crate) fn write_kv_empty_list(out: &mut String, spaces: usize, key: &str)
    ensures
        final(out)@ == old(out)@ + entry_text(key@, Node::EmptyList, spaces as nat),
{
    indent(out, spaces);
    out.append(key);
    out.append(": []\n");
}

/// Appends the entry `key` with a double-quoted value.
pub fn write_kv_str(out: &mut String, spaces: usize, key: &str, value: &str)
    ensures
        final(out)@ == old(out)@ + entry_text(key@, Node::Quoted(value@), spaces as nat),
{
    indent(out, spaces);
    out.append(key);
    out.append(": ");
    out.append(yaml_quote(value).as_str());
    out.push('\n');
}

/// Appends the entry `key` with a double-quoted value, or null where there is none.
pub fn write_kv_opt_str(out: &mut String, spaces: usize, key: &str, value: Option<&str>)
    ensures
        final(out)@ == old(out)@ + entry_text(key@, opt_str_node(value.deep_view()), spaces as nat),
{
    match value {
        Some(v) => write_kv_str(out, spaces, key, v),
        None => write_kv_null(out, spaces, key),
    }
}

/// Appends the entry `key` with a literal block: each line of `value` stands
/// two columns further in than the key.
pub fn write_kv_literal_str(out: &mut String, spaces: usize, key: &str, value: &str)
    requires
        spaces + 2 <= usize::MAX,
    ensures
        final(out)@ == old(out)@ + entry_text(key@, Node::Literal(value@), spaces as nat),
{
    indent(out, spaces);
    out.append(key);
    out.append(": |\n");
    let ghost head = out@;
    let ghost column = (spaces + 2) as nat;
    indent(out, spaces + 2);
    proof {
        assert(lines(value@.take(0)).drop_last() =~= Seq::empty());
        assert(head + block(lines(value@.take(0)).drop_last(), column) =~= head);
    }
    for ch in it: value.chars()
        invariant
            spaces + 2 <= usize::MAX,
            column == spaces + 2,
            it.seq() == value@,
            lines(value@.take(it.index() as int)).len() > 0,
            out@ == head + block(lines(value@.take(it.index() as int)).drop_last(), column)
                + self::spaces(column) + lines(value@.take(it.index() as int)).last(),
    {
        let ghost read = value@.take(it.index() as int);
        let ghost now = value@.take(it.index() + 1);
        proof {
            assert(now.drop_last() =~= read);
        }
        out.push(ch);
        if ch == '\n' {
            indent(out, spaces + 2);
            proof {
                assert(lines(now).drop_last() =~= lines(read));
            }
        } else {
            proof {
                assert(lines(now).drop_last() =~= lines(read).drop_last());
            }
        }
    }
    out.push('\n');
    proof {
        assert(value@.take(value@.len() as int) =~= value@);
    }
}

/// Appends the entry `key` with a literal block, or null where there is no string.
pub fn write_kv_literal_opt_str(out: &mut String, spaces: usize, key: &str, value: Option<&str>)
    requires
        spaces + 2 <= usize::MAX,
    ensures
        final(out)@ == old(out)@ + entry_text(key@, literal_opt_node(value.deep_view()), spaces as nat),
{
    match value {
        Some(v) => write_kv_literal_str(out, spaces, key, v),
        None => write_kv_null(out, spaces, key),
    }
}

/// Appends the entry `key` with an integer.
pub fn write_kv_i32(out: &mut String, spaces: usize, key: &str, value: i32)
    ensures
        final(out)@ == old(out)@ + entry_text(key@, int_node(value as int), spaces as nat),
{
    write_kv_i64(out, spaces, key, value as i64);
}

/// Appends the entry `key` with an integer, or null where there is none.
pub fn write_kv_opt_i32(out: &mut String, spaces: usize, key: &str, value: Option<i32>)
    ensures
        final(out)@ == old(out)@ + entry_text(key@, opt_i32_node(value), spaces as nat),
{
    match value {
        Some(v) => write_kv_i32(out, spaces, key, v),
        None => write_kv_null(out, spaces, key),
    }
}

/// Appends the entry `key` with an integer.
pub fn write_kv_i64(out: &mut String, spaces: usize, key: &str, value: i64)
    ensures
        final(out)@ == old(out)@ + entry_text(key@, int_node(value as int), spaces as nat),
{
    indent(out, spaces);
    out.append(key);
    out.append(": ");
    push_decimal(out, value);
    out.push('\n');
}

/// Appends the entry `key` with an index.
pub(crate) fn write_kv_usize(out: &mut String, spaces: usize, key: &str, value: usize)
    ensures
        final(out)@ == old(out)@ + entry_text(key@, int_node(value as int), spaces as nat),
{
    indent(out, spaces);
    out.append(key);
    out.append(": ");
    push_index(out, value);
    out.push('\n');
}

/// Appends the entry `key` with a floating-point number, or null where there
/// is none. The number comes in decimal notation and is written as it is.
pub fn write_kv_opt_f64(out: &mut String, spaces: usize, key: &str, value: Option<&str>)
    ensures
        final(out)@ == old(out)@ + entry_text(key@, opt_number_node(value.deep_view()), spaces as nat),
{
    match value {
        Some(v) => {
            indent(out, spaces);
            out.append(key);
            out.append(": ");
            out.append(v);
            out.push('\n');
        },
        None => write_kv_null(out, spaces, key),
    }
}

/// Appends the entry `key` with a truth value.
pub fn write_kv_bool(out: &mut String, spaces: usize, key: &str, value: bool)
    ensures
        final(out)@ == old(out)@ + entry_text(key@, bool_node(value), spaces as nat),
{
    indent(out, spaces);
    out.append(key);
    out.append(": ");
    if value {
        out.append("true");
    } else {
        out.append("false");
    }
    out.push('\n');
}

/// A timestamp: the stored number, and the local time in two notations. The
/// number zero stands for no time at all, whatever the notations say.
pub open spec fn timestamp_node(raw: int, local: Node, display: Node) -> Node {
    Node::Mapping(
        Seq::empty()
            .push(("raw"@, int_node(raw)))
            .push(("local"@, if raw == 0 { Node::Null } else { local }))
            .push(("display"@, if raw == 0 { Node::Null } else { display })),
    )
}

/// Appends the entry `key` with a timestamp.
pub fn write_timestamp_parts(
    out: &mut String,
    spaces: usize,
    key: &str,
    raw: i64,
    local_rfc3339: Option<&str>,
    display: Option<&str>,
)
    requires
        spaces + 2 <= usize::MAX,
    ensures
        final(out)@ == old(out)@ + entry_text(
            key@,
            timestamp_node(raw as int, opt_str_node(local_rfc3339.deep_view()), opt_str_node(display.deep_view())),
            spaces as nat,
        ),
{
    broadcast use lemma_next_entry;

    let inner: usize = spaces + 2;
    let ghost node = timestamp_node(
        raw as int,
        opt_str_node(local_rfc3339.deep_view()),
        opt_str_node(display.deep_view()),
    );
    write_key(out, spaces, key);
    let ghost head = out@;
    proof {
        lemma_nothing(head, inner as nat);
    }
    write_kv_i64(out, inner, "raw", raw);
    if raw == 0 {
        write_kv_null(out, inner, "local");
        write_kv_null(out, inner, "display");
        assert(out@ == head + entries_text(node->Mapping_0, inner as nat));
    } else {
        write_kv_opt_str(out, inner, "local", local_rfc3339);
        write_kv_opt_str(out, inner, "display", display);
        assert(out@ == head + entries_text(node->Mapping_0, inner as nat));
    }
    proof {
        lemma_mapping(old(out)@, key@, node->Mapping_0, spaces as nat);
    }
}

/// Appends a dash and the entry `key` with a double-quoted value.
pub(crate) fn write_item_str(out: &mut String, spaces: usize, key: &str, value: &str)
    ensures
        final(out)@ == old(out)@ + item_line(key@, Node::Quoted(value@), spaces as nat),
{
    indent(out, spaces);
    out.append("- ");
    out.append(key);
    out.append(": ");
    out.append(yaml_quote(value).as_str());
    out.push('\n');
}

/// Appends a dash and the entry `key` with an integer.
pub(crate) fn write_item_i32(out: &mut String, spaces: usize, key: &str, value: i32)
    ensures
        final(out)@ == old(out)@ + item_line(key@, int_node(value as int), spaces as nat),
{
    indent(out, spaces);
    out.append("- ");
    out.append(key);
    out.append(": ");
    push_decimal(out, value as i64);
    out.push('\n');
}

/// Appends a dash and the entry `key` with an index.
pub(crate) fn write_item_usize(out: &mut String, spaces: usize, key: &str, value: usize)
    ensures
        final(out)@ == old(out)@ + item_line(key@, int_node(value as int), spaces as nat),
{
    indent(out, spaces);
    out.append("- ");
    out.append(key);
    out.append(": ");
    push_index(out, value);
    out.push('\n');
}

/// Appends a double-quoted scalar as an item.
pub(crate) fn write_item(out: &mut String, spaces: usize, value: &str)
    ensures
        final(out)@ == old(out)@ + item_text(Node::Quoted(value@), spaces as nat),
{
    indent(out, spaces);
    out.append("- ");
    out.append(yaml_quote(value).as_str());
    out.push('\n');
}

/// How values are written: a string in double quotes, a text as a block, numbers
/// and truth values as they are, and null where there is no value.
pub proof fn law_scalars(s: Seq<char>, n: int, i: i32)
    ensures
        opt_str_node(Some(s)) == Node::Quoted(s),
        opt_str_node(None) == Node::Null,
        literal_opt_node(Some(s)) == Node::Literal(s),
        literal_opt_node(None) == Node::Null,
        opt_number_node(Some(s)) == Node::Plain(s),
        opt_number_node(None) == Node::Null,
        int_node(n) == Node::Plain(decimal(n)),
        opt_i32_node(Some(i)) == Node::Plain(decimal(i as int)),
        opt_i32_node(None) == Node::Null,
        bool_node(true) == Node::Plain("true"@),
        bool_node(false) == Node::Plain("false"@),
{
}

/// A timestamp says the stored number, and the local time in both notations
/// unless the number is zero.
pub proof fn law_timestamp_fields(raw: int, local: Node, display: Node)
    ensures
        ({
            let node = timestamp_node(raw, local, display);
            let entries = node->Mapping_0;
            &&& node is Mapping
            &&& keys_of(entries) == Seq::empty()
                .push("raw"@)
                .push("local"@)
                .push("display"@)
            &&& entries.contains(("raw"@, Node::Plain(decimal(raw))))
            &&& entries.contains(("local"@, if raw == 0 { Node::Null } else { local }))
            &&& entries.contains(("display"@, if raw == 0 { Node::Null } else { display }))
        }),
{
    let entries = (timestamp_node(raw, local, display))->Mapping_0;
    assert(entries[0] == ("raw"@, Node::Plain(decimal(raw))));
    assert(entries[1] == ("local"@, if raw == 0 { Node::Null } else { local }));
    assert(entries[2] == ("display"@, if raw == 0 { Node::Null } else { display }));
    assert(keys_of(entries) =~= Seq::empty()
        .push("raw"@)
        .push("local"@)
        .push("display"@));
}

} // verus!
