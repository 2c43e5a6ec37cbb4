//! The reactions to a message.
use vstd::prelude::*;

use crate::export::YAML;
use crate::record::{Message, Stamp, TapbackGroup, TapbackMessage, Variant};
use crate::scalar::{
    bool_node, borrow, int_node, opt_i32_node, opt_str_node, timestamp_node, write_item_usize,
    write_key, write_kv_bool, write_kv_i32, write_kv_opt_i32, write_kv_opt_str, write_kv_str,
    write_timestamp_parts,
};
use crate::text::{decimal, indent};
use crate::tree::{
    entry_text, item_text, items_text, keys_of, lemma_list, lemma_mapping, lemma_next_entry, lemma_next_item,
    lemma_nothing, lemma_record, record, Node,
};
use crate::variant::{tapback_entries, write_tapback};

verus! {

/// A point in time.
pub open spec fn stamp_node(stamp: Stamp) -> Node {
    timestamp_node(
        stamp.raw as int,
        opt_str_node(stamp.local.deep_view()),
        Node::Quoted(stamp.shown@),
    )
}

/// Appends the entry `key` with a point in time.
pub(crate) fn write_stamp(out: &mut String, spaces: usize, key: &str, stamp: &Stamp)
    requires
        spaces + 2 <= usize::MAX,
    ensures
        final(out)@ == old(out)@ + entry_text(key@, stamp_node(*stamp), spaces as nat),
{
    let display: Option<&str> = if stamp.raw == 0 {
        None
    } else {
        Some(stamp.shown.as_str())
    };
    write_timestamp_parts(out, spaces, key, stamp.raw, borrow(&stamp.local), display);
    proof {
        if stamp.raw != 0 {
            assert(opt_str_node(display.deep_view()) == Node::Quoted(stamp.shown@));
        }
    }
}

/// When something was sent, as the only timestamp.
pub open spec fn sent_node(stamp: Stamp) -> Node {
    Node::Mapping(Seq::empty().push(("sent"@, stamp_node(stamp))))
}

/// Appends when something was sent, below the key `timestamps`.
pub(crate) fn write_sent(out: &mut String, stamp: &Stamp)
    ensures
        final(out)@ == old(out)@ + entry_text("timestamps"@, sent_node(*stamp), 8),
{
    broadcast use lemma_next_entry;

    write_key(out, 8, "timestamps");
    proof {
        lemma_nothing(out@, 10);
    }
    write_stamp(out, 10, "sent", stamp);
    proof {
        lemma_mapping(old(out)@, "timestamps"@, sent_node(*stamp)->Mapping_0, 8);
    }
}

/// What a reaction says, as far as that is understood.
pub open spec fn interpreted_entries(variant: Variant) -> Seq<(Seq<char>, Node)> {
    match variant {
        Variant::Tapback(_, done, tapback) => tapback_entries(
            Seq::empty(),
            "type"@,
            done,
            tapback,
        ),
        _ => Seq::empty()
            .push(("action"@, Node::Quoted("unknown"@)))
            .push(("type"@, Node::Quoted("unknown"@))),
    }
}

/// A reaction to the part of a message with index `part_index`.
pub open spec fn tapback_node(part_index: usize, tapback: TapbackMessage) -> Node {
    record(("part_index"@, int_node(part_index as int)), tapback_message_entries(tapback))
}

/// What is written of a reaction below its part.
pub open spec fn tapback_message_entries(tapback: TapbackMessage) -> Seq<(Seq<char>, Node)> {
    Seq::empty()
        .push(("guid"@, Node::Quoted(tapback.guid@)))
        .push(("rowid"@, int_node(tapback.rowid as int)))
        .push(("is_from_me"@, bool_node(tapback.is_from_me)))
        .push(("sender"@, Node::Quoted(tapback.sender@)))
        .push(("timestamps"@, sent_node(tapback.sent)))
        .push(
            (
                "associated_message_guid"@,
                opt_str_node(tapback.associated_message_guid.deep_view()),
            ),
        )
        .push(("associated_message_type"@, opt_i32_node(tapback.associated_message_type)))
        .push(
            (
                "associated_message_emoji"@,
                opt_str_node(tapback.associated_message_emoji.deep_view()),
            ),
        )
        .push(("interpreted"@, Node::Mapping(interpreted_entries(tapback.variant))))
}

/// The reactions in order, each with the index of the part it belongs to.
pub open spec fn listed(groups: Seq<TapbackGroup>) -> Seq<(usize, TapbackMessage)>
    decreases groups.len(),
{
    if groups.len() == 0 {
        Seq::empty()
    } else {
        listed(groups.drop_last()) + with_part(
            groups.last().part_index,
            groups.last().tapbacks@,
        )
    }
}

/// The reactions to one part of a message.
pub open spec fn with_part(part_index: usize, tapbacks: Seq<TapbackMessage>) -> Seq<
    (usize, TapbackMessage),
> {
    tapbacks.map_values(|tapback: TapbackMessage| (part_index, tapback))
}

/// The reactions as items.
pub open spec fn tapback_nodes(tapbacks: Seq<(usize, TapbackMessage)>) -> Seq<Node> {
    tapbacks.map_values(|tapback: (usize, TapbackMessage)| tapback_node(tapback.0, tapback.1))
}

/// The reactions to a message that are on record.
pub open spec fn tapbacks_of(message: Message) -> Seq<(usize, TapbackMessage)> {
    match message.tapbacks {
        Some(groups) => listed(groups@),
        None => Seq::empty(),
    }
}

/// The reactions to a message.
pub open spec fn tapbacks_node(message: Message) -> Node {
    if tapbacks_of(message).len() == 0 {
        Node::EmptyListBelow
    } else {
        Node::List(tapback_nodes(tapbacks_of(message)))
    }
}

/// Appends a reaction.
fn write_tapback_item(out: &mut String, part_index: usize, tapback: &TapbackMessage)
    ensures
        final(out)@ == old(out)@ + item_text(tapback_node(part_index, *tapback), 6),
{
    broadcast use lemma_next_entry;

    write_item_usize(out, 6, "part_index", part_index);
    proof {
        lemma_nothing(out@, 8);
    }
    write_kv_str(out, 8, "guid", tapback.guid.as_str());
    write_kv_i32(out, 8, "rowid", tapback.rowid);
    write_kv_bool(out, 8, "is_from_me", tapback.is_from_me);
    write_kv_str(out, 8, "sender", tapback.sender.as_str());
    write_sent(out, &tapback.sent);
    write_kv_opt_str(
        out,
        8,
        "associated_message_guid",
        borrow(&tapback.associated_message_guid),
    );
    write_kv_opt_i32(out, 8, "associated_message_type", tapback.associated_message_type);
    write_kv_opt_str(
        out,
        8,
        "associated_message_emoji",
        borrow(&tapback.associated_message_emoji),
    );
    let ghost before = out@;
    write_key(out, 8, "interpreted");
    let ghost head = out@;
    let ghost none: Seq<(Seq<char>, Node)> = Seq::empty();
    proof {
        lemma_nothing(head, 10);
    }
    match &tapback.variant {
        Variant::Tapback(_, done, kind) => {
            write_tapback(out, 10, "type", done, kind, Ghost(head), Ghost(none));
        },
        _ => {
            write_kv_str(out, 10, "action", "unknown");
            write_kv_str(out, 10, "type", "unknown");
        },
    }
    proof {
        lemma_mapping(before, "interpreted"@, interpreted_entries(tapback.variant), 8);
        lemma_record(
            old(out)@,
            ("part_index"@, int_node(part_index as int)),
            tapback_message_entries(*tapback),
            6,
        );
    }
}

impl<'a> YAML<'a> {
    /// Appends the reactions to a message.
    pub fn write_tapbacks(&self, out: &mut String, message: &Message)
        ensures
            final(out)@ == old(out)@ + entry_text("tapbacks"@, tapbacks_node(*message), 4),
    {
        let ghost start = out@;
        write_key(out, 4, "tapbacks");
        let ghost head = out@;
        let mut wrote_any = false;
        if let Some(groups) = &message.tapbacks {
            wrote_any = write_groups(out, groups);
        }
        if !wrote_any {
            indent(out, 6);
            out.append("[]\n");
            proof {
                if let Some(groups) = &message.tapbacks {
                    assert(tapback_nodes(listed(groups@)) =~= Seq::empty());
                    lemma_nothing(head, 6);
                }
            }
        } else {
            proof {
                lemma_list(start, "tapbacks"@, tapback_nodes(tapbacks_of(*message)), 4);
            }
        }
    }
}

/// Appends the reactions, and says whether there were any.
fn write_groups(out: &mut String, groups: &Vec<TapbackGroup>) -> (wrote_any: bool)
    ensures
        wrote_any == (listed(groups@).len() > 0),
        final(out)@ == old(out)@ + items_text(tapback_nodes(listed(groups@)), 6),
{
    broadcast use lemma_next_item;

    let ghost head = out@;
    let mut wrote_any = false;
    proof {
        lemma_nothing(head, 6);
        assert(tapback_nodes(listed(groups@.take(0))) =~= Seq::empty());
    }
    let mut i: usize = 0;
    while i < groups.len()
        invariant
            i <= groups.len(),
            wrote_any == (listed(groups@.take(i as int)).len() > 0),
            out@ == head + items_text(tapback_nodes(listed(groups@.take(i as int))), 6),
        decreases groups.len() - i,
    {
        let group = &groups[i];
        let ghost done = listed(groups@.take(i as int));
        proof {
            assert(groups@.take(i + 1).drop_last() =~= groups@.take(i as int));
            assert(done + with_part(group.part_index, group.tapbacks@.take(0)) =~= done);
        }
        let mut j: usize = 0;
        while j < group.tapbacks.len()
            invariant
                j <= group.tapbacks.len(),
                wrote_any == ((done + with_part(
                    group.part_index,
                    group.tapbacks@.take(j as int),
                )).len() > 0),
                out@ == head + items_text(
                    tapback_nodes(
                        done + with_part(group.part_index, group.tapbacks@.take(j as int)),
                    ),
                    6,
                ),
            decreases group.tapbacks.len() - j,
        {
            wrote_any = true;
            write_tapback_item(out, group.part_index, &group.tapbacks[j]);
            proof {
                let now = done + with_part(group.part_index, group.tapbacks@.take(j as int));
                let next = done + with_part(group.part_index, group.tapbacks@.take(j + 1));
                let item = (group.part_index, group.tapbacks@[j as int]);
                lemma_next_item(head, tapback_nodes(now), tapback_node(item.0, item.1), 6);
                assert(next =~= now.push(item));
                assert(tapback_nodes(next) =~= tapback_nodes(now).push(
                    tapback_node(item.0, item.1),
                ));
            }
            j = j + 1;
        }
        proof {
            assert(group.tapbacks@.take(j as int) =~= group.tapbacks@);
        }
        i = i + 1;
    }
    proof {
        assert(groups@.take(i as int) =~= groups@);
    }
    wrote_any
}

/// A point in time says the stored number and, unless that is zero, the local
/// time where there is one, and the time for people.
pub proof fn law_stamp_fields(stamp: Stamp)
    ensures
        stamp_node(stamp) is Mapping,
        keys_of(stamp_node(stamp)->Mapping_0) == Seq::empty().push("raw"@).push("local"@).push(
            "display"@,
        ),
        (stamp_node(stamp)->Mapping_0)[0].1 == Node::Plain(decimal(stamp.raw as int)),
        stamp.raw == 0 ==> (stamp_node(stamp)->Mapping_0)[1].1 == Node::Null && (stamp_node(
            stamp,
        )->Mapping_0)[2].1 == Node::Null,
        stamp.raw != 0 ==> (stamp_node(stamp)->Mapping_0)[1].1 == (match stamp.local {
            Some(local) => Node::Quoted(local@),
            None => Node::Null,
        }) && (stamp_node(stamp)->Mapping_0)[2].1 == Node::Quoted(stamp.shown@),
        sent_node(stamp) == Node::Mapping(seq![("sent"@, stamp_node(stamp))]),
{
    assert(keys_of(stamp_node(stamp)->Mapping_0) =~= Seq::empty().push("raw"@).push(
        "local"@,
    ).push("display"@));
    assert(sent_node(stamp)->Mapping_0 =~= seq![("sent"@, stamp_node(stamp))]);
}

/// What a reaction says is told where it is one, and is unknown otherwise.
pub proof fn law_interpreted(variant: Variant)
    ensures
        variant matches Variant::Tapback(_, done, tapback) ==> interpreted_entries(variant)
            == tapback_entries(Seq::empty(), "type"@, done, tapback),
        !(variant is Tapback) ==> interpreted_entries(variant) == seq![
            ("action"@, Node::Quoted("unknown"@)),
            ("type"@, Node::Quoted("unknown"@)),
        ],
{
    if !(variant is Tapback) {
        assert(interpreted_entries(variant) =~= seq![
            ("action"@, Node::Quoted("unknown"@)),
            ("type"@, Node::Quoted("unknown"@)),
        ]);
    }
}

/// A reaction is written with its part and all that is known of it.
pub proof fn law_tapback_fields(part_index: usize, tapback: TapbackMessage)
    ensures
        ({
            let node = tapback_node(part_index, tapback);
            let entries = node->Mapping_0;
            &&& node is Mapping
            &&& keys_of(entries) == Seq::empty()
                .push("part_index"@)
                .push("guid"@)
                .push("rowid"@)
                .push("is_from_me"@)
                .push("sender"@)
                .push("timestamps"@)
                .push("associated_message_guid"@)
                .push("associated_message_type"@)
                .push("associated_message_emoji"@)
                .push("interpreted"@)
            &&& entries.contains(("part_index"@, Node::Plain(decimal(part_index as int))))
            &&& entries.contains(("guid"@, Node::Quoted(tapback.guid@)))
            &&& entries.contains(("rowid"@, Node::Plain(decimal(tapback.rowid as int))))
            &&& entries.contains(("is_from_me"@, Node::Plain(if tapback.is_from_me { "true"@ } else { "false"@ })))
            &&& entries.contains(("sender"@, Node::Quoted(tapback.sender@)))
            &&& entries.contains(("timestamps"@, sent_node(tapback.sent)))
            &&& entries.contains(("associated_message_guid"@, opt_str_node(tapback.associated_message_guid.deep_view())))
            &&& entries.contains(("associated_message_type"@, opt_i32_node(tapback.associated_message_type)))
            &&& entries.contains(("associated_message_emoji"@, opt_str_node(tapback.associated_message_emoji.deep_view())))
            &&& entries.contains(("interpreted"@, Node::Mapping(interpreted_entries(tapback.variant))))
        }),
{
    let entries = (tapback_node(part_index, tapback))->Mapping_0;
    let rest = tapback_message_entries(tapback);
    assert(entries =~= seq![("part_index"@, int_node(part_index as int))] + rest);
    assert(entries[0] == ("part_index"@, Node::Plain(decimal(part_index as int))));
    assert(entries[1] == ("guid"@, Node::Quoted(tapback.guid@)));
    assert(entries[2] == ("rowid"@, Node::Plain(decimal(tapback.rowid as int))));
    assert(entries[3] == ("is_from_me"@, Node::Plain(if tapback.is_from_me { "true"@ } else { "false"@ })));
    assert(entries[4] == ("sender"@, Node::Quoted(tapback.sender@)));
    assert(entries[5] == ("timestamps"@, sent_node(tapback.sent)));
    assert(entries[6] == ("associated_message_guid"@, opt_str_node(tapback.associated_message_guid.deep_view())));
    assert(entries[7] == ("associated_message_type"@, opt_i32_node(tapback.associated_message_type)));
    assert(entries[8] == ("associated_message_emoji"@, opt_str_node(tapback.associated_message_emoji.deep_view())));
    assert(entries[9] == ("interpreted"@, Node::Mapping(interpreted_entries(tapback.variant))));
    assert(keys_of(entries) =~= Seq::empty()
        .push("part_index"@)
        .push("guid"@)
        .push("rowid"@)
        .push("is_from_me"@)
        .push("sender"@)
        .push("timestamps"@)
        .push("associated_message_guid"@)
        .push("associated_message_type"@)
        .push("associated_message_emoji"@)
        .push("interpreted"@));
}

proof fn lemma_listed_append(a: Seq<TapbackGroup>, b: Seq<TapbackGroup>)
    ensures
        listed(a + b) == listed(a) + listed(b),
    decreases b.len(),
{
    if b.len() == 0 {
        assert(a + b =~= a);
    } else {
        lemma_listed_append(a, b.drop_last());
        assert((a + b).drop_last() =~= a + b.drop_last());
    }
    assert(listed(a + b) =~= listed(a) + listed(b));
}

/// Every reaction of every part is listed with the index of its part: part after
/// part, and those of one part in order.
pub proof fn law_all_tapbacks_listed(
    a: Seq<TapbackGroup>,
    b: Seq<TapbackGroup>,
    group: TapbackGroup,
)
    ensures
        listed(a + b) == listed(a) + listed(b),
        listed(seq![group]).len() == group.tapbacks@.len(),
        forall|i: int|
            0 <= i < group.tapbacks@.len() ==> #[trigger] listed(seq![group])[i] == (
                group.part_index,
                group.tapbacks@[i],
            ),
{
    let one = seq![group];
    lemma_listed_append(a, b);
    assert(one.drop_last() =~= Seq::empty());
    assert(listed(one.drop_last()) =~= Seq::empty());
    assert(listed(one) =~= with_part(group.part_index, group.tapbacks@));
}

/// Each reaction that is listed is written, in order; where there are none, an
/// empty list stands below the key.
pub proof fn law_tapbacks_written(message: Message)
    ensures
        tapbacks_of(message) == (match message.tapbacks {
            Some(groups) => listed(groups@),
            None => Seq::empty(),
        }),
        tapbacks_node(message) is EmptyListBelow <==> tapbacks_of(message).len() == 0,
        tapbacks_of(message).len() > 0 ==> ({
            let items = tapbacks_node(message)->List_0;
            &&& tapbacks_node(message) is List
            &&& items.len() == tapbacks_of(message).len()
            &&& forall|i: int|
                0 <= i < items.len() ==> #[trigger] items[i] == tapback_node(
                    tapbacks_of(message)[i].0,
                    tapbacks_of(message)[i].1,
                )
        }),
{
}

} // verus!
