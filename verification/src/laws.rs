//! What holds of every document.
use vstd::prelude::*;

use crate::columns::{
    dash_line, dash_lines, ended_lines, key_lines, law_dashes_at_column, law_keys_below_dash,
    lemma_item_lines, lemma_line_before, standing_at,
};
use crate::component::{
    attachment_component_entries, attachment_entries, attachment_of, attribute_node,
    attribute_nodes, component_node, component_nodes, effects_node, meta_entries,
    missing_attachment_entries, quoted_nodes, slice_node, sticker_node, text_entries,
};
use crate::header::{
    conversation_entries, document_text, export_entries, header_entries, participant_nodes,
};
use crate::layout::{
    contained, indented, is_item, is_key, is_plain, lemma_entry, lemma_item, on_one_line,
    spaces_at, well_formed, well_formed_entries, well_formed_items,
};
use crate::message::{
    description_nodes, message_attachment_items, message_entries, message_node, raw_entries,
    timestamps_entries, translation_entries, translation_node,
};
use crate::reading::law_decimal_read_back;
use crate::record::{
    Attachment, AttachmentMeta, BubbleComponent, Chat, Config, ExportInfo, Message, ReplyGroup,
    ReplyMessage, Stamp, Tapback, TapbackAction, TapbackMessage, TextAttributes, Variant,
};
use crate::rendered::message_text;
use crate::reply::{
    attachment_item, attachment_items, attachments_node, part_nodes, replies_node, reply_entries,
    reply_node, reply_nodes,
};
use crate::scalar::{bool_node, int_node, literal_opt_node, opt_i32_node, opt_str_node};
use crate::tapback::{
    interpreted_entries, law_stamp_fields, sent_node, stamp_node, tapback_message_entries,
    tapback_node, tapback_nodes, tapbacks_node, tapbacks_of,
};
use crate::text::{digits, quoted};
use crate::tree::{entries_text, entry_text, item_text, items_text, keys_of, record, Node};
use crate::unique::{law_entries_read_one_way, law_item_read_one_way};
use crate::variant::{tapback_entries, variant_entries};

verus! {

broadcast proof fn lemma_entry_added(
    entries: Seq<(Seq<char>, Node)>,
    key: Seq<char>,
    value: Node,
)
    ensures
        #[trigger] well_formed_entries(entries.push((key, value))) == (well_formed_entries(entries)
            && is_key(key) && well_formed(value)),
{
    assert(entries.push((key, value)).drop_last() =~= entries);
}

proof fn lemma_all_items(items: Seq<Node>)
    requires
        forall|i: int|
            0 <= i < items.len() ==> well_formed(#[trigger] items[i]) && is_item(items[i]),
    ensures
        well_formed_items(items),
    decreases items.len(),
{
    if items.len() > 0 {
        lemma_all_items(items.drop_last());
    }
}

proof fn lemma_record_well_formed(first: (Seq<char>, Node), rest: Seq<(Seq<char>, Node)>)
    requires
        is_key(first.0),
        well_formed(first.1),
        well_formed_entries(rest),
    ensures
        well_formed(record(first, rest)),
    decreases rest.len(),
{
    let entries = seq![first] + rest;
    if rest.len() == 0 {
        assert(entries.drop_last() =~= Seq::empty());
        assert(well_formed_entries(entries.drop_last()));
    } else {
        lemma_record_well_formed(first, rest.drop_last());
        assert(entries.drop_last() =~= seq![first] + rest.drop_last());
        assert(well_formed_entries(seq![first] + rest.drop_last()));
    }
    assert(well_formed_entries(entries));
}

proof fn lemma_digits_on_one_line(n: nat)
    ensures
        on_one_line(digits(n)),
        digits(n).len() > 0,
        48 <= digits(n)[0] as int <= 57,
    decreases n,
{
    if n >= 10 {
        lemma_digits_on_one_line(n / 10);
    }
}

/// Scalars that are written as they are.
broadcast proof fn lemma_int_well_formed(n: int)
    ensures
        well_formed(#[trigger] int_node(n)),
{
    reveal_strlit("null");
    if n < 0 {
        lemma_digits_on_one_line((-n) as nat);
    } else {
        lemma_digits_on_one_line(n as nat);
    }
}

broadcast proof fn lemma_bool_well_formed(b: bool)
    ensures
        well_formed(#[trigger] bool_node(b)),
{
    reveal_strlit("true");
    reveal_strlit("false");
    reveal_strlit("null");
}

proof fn lemma_stamp(stamp: Stamp)
    ensures
        well_formed(stamp_node(stamp)),
{
    broadcast use {lemma_entry_added, lemma_int_well_formed};

    reveal_strlit("raw");
    reveal_strlit("local");
    reveal_strlit("display");
    let node = stamp_node(stamp);
    assert(well_formed_entries(node->Mapping_0));
}

proof fn lemma_sent(stamp: Stamp)
    ensures
        well_formed(sent_node(stamp)),
{
    broadcast use lemma_entry_added;

    reveal_strlit("sent");
    lemma_stamp(stamp);
    assert(well_formed_entries(sent_node(stamp)->Mapping_0));
}

proof fn lemma_tapback_entries(
    before: Seq<(Seq<char>, Node)>,
    type_key: Seq<char>,
    done: TapbackAction,
    tapback: Tapback,
)
    requires
        well_formed_entries(before),
        is_key(type_key),
    ensures
        well_formed_entries(tapback_entries(before, type_key, done, tapback)),
{
    broadcast use lemma_entry_added;

    reveal_strlit("action");
    reveal_strlit("emoji");
}

proof fn lemma_variant(message: Message)
    ensures
        well_formed_entries(variant_entries(message)),
{
    broadcast use {lemma_entry_added, lemma_int_well_formed};

    reveal_strlit("kind");
    reveal_strlit("balloon_bundle_id");
    reveal_strlit("app_type");
    reveal_strlit("tapback_type");
    reveal_strlit("code");
    match message.variant {
        Variant::Tapback(_, done, tapback) => {
            let named = Seq::empty().push(
                (
                    "kind"@,
                    Node::Quoted(crate::variant::kind(message.variant, message.is_announcement)),
                ),
            );
            lemma_tapback_entries(named, "tapback_type"@, done, tapback);
        },
        _ => {},
    }
}

proof fn lemma_effects(effects: Seq<String>)
    ensures
        well_formed(effects_node(effects)),
{
    lemma_all_items(quoted_nodes(effects));
}

proof fn lemma_attribute(text: Option<Seq<char>>, attr: TextAttributes)
    ensures
        well_formed(attribute_node(text, attr)),
{
    broadcast use {lemma_entry_added, lemma_int_well_formed};

    reveal_strlit("start");
    reveal_strlit("end");
    reveal_strlit("slice");
    reveal_strlit("effects_debug");
    lemma_effects(attr.effects@);
    let rest = Seq::empty()
        .push(("end"@, int_node(attr.end as int)))
        .push(("slice"@, slice_node(text, attr.start as int, attr.end as int)))
        .push(("effects_debug"@, effects_node(attr.effects@)));
    assert(well_formed(slice_node(text, attr.start as int, attr.end as int)));
    assert(well_formed_entries(rest));
    lemma_record_well_formed(("start"@, int_node(attr.start as int)), rest);
}

proof fn lemma_text(text: Option<Seq<char>>, attrs: Seq<TextAttributes>)
    ensures
        well_formed_entries(text_entries(text, attrs)),
{
    broadcast use lemma_entry_added;

    reveal_strlit("text");
    reveal_strlit("attributes");
    let nodes = attribute_nodes(text, attrs);
    assert forall|i: int| 0 <= i < nodes.len() implies well_formed(#[trigger] nodes[i])
        && is_item(nodes[i]) by {
        lemma_attribute(text, attrs[i]);
    }
    lemma_all_items(nodes);
    assert(well_formed(Node::List(nodes)));
}

proof fn lemma_attachment(attachment: Attachment)
    ensures
        well_formed_entries(attachment_entries(attachment)),
{
    broadcast use {lemma_entry_added, lemma_int_well_formed, lemma_bool_well_formed};

    reveal_strlit("rowid");
    reveal_strlit("filename");
    reveal_strlit("transfer_name");
    reveal_strlit("uti");
    reveal_strlit("mime_type");
    reveal_strlit("total_bytes");
    reveal_strlit("is_sticker");
    reveal_strlit("hide_attachment");
    reveal_strlit("emoji_description");
    reveal_strlit("path");
    reveal_strlit("sticker");
    reveal_strlit("source_debug");
    reveal_strlit("application_name");
    if attachment.is_sticker {
        assert(well_formed_entries(sticker_node(attachment)->Mapping_0));
    }
    assert(well_formed(sticker_node(attachment)));
}

/// A number that can be written as it is, if there is one.
pub open spec fn is_number(number: Option<Seq<char>>) -> bool {
    match number {
        Some(number) => is_plain(number),
        None => true,
    }
}

/// The numbers that come in decimal notation can be written as they are.
pub open spec fn numbers_plain(meta: AttachmentMeta) -> bool {
    is_number(meta.height.deep_view()) && is_number(meta.width.deep_view())
}

proof fn lemma_meta(meta: AttachmentMeta)
    requires
        numbers_plain(meta),
    ensures
        well_formed_entries(meta_entries(meta)),
{
    broadcast use lemma_entry_added;

    reveal_strlit("guid");
    reveal_strlit("transcription");
    reveal_strlit("height");
    reveal_strlit("width");
    reveal_strlit("name");
}

proof fn lemma_component(message: Message, no_filename: Seq<char>, i: int)
    requires
        0 <= i < message.components@.len(),
        message.components@[i].body matches BubbleComponent::Attachment(meta)
            ==> numbers_plain(meta),
    ensures
        well_formed(component_node(message, no_filename, i)),
{
    broadcast use lemma_entry_added;

    reveal_strlit("kind");
    reveal_strlit("attachment");
    reveal_strlit("meta");
    reveal_strlit("error");
    reveal_strlit("balloon_bundle_id");
    let none: Seq<(Seq<char>, Node)> = Seq::empty();
    match message.components@[i].body {
        BubbleComponent::Text(attrs) => {
            lemma_text(message.text.deep_view(), attrs@);
            lemma_record_well_formed(
                ("kind"@, Node::Quoted("text"@)),
                text_entries(message.text.deep_view(), attrs@),
            );
        },
        BubbleComponent::Attachment(meta) => {
            lemma_meta(meta);
            match attachment_of(message.components@, message.attachments@, i) {
                Some(attachment) => {
                    lemma_attachment(attachment);
                    assert(well_formed(Node::Mapping(attachment_entries(attachment))));
                    assert(well_formed(Node::Mapping(meta_entries(meta))));
                    assert(well_formed_entries(attachment_component_entries(attachment, meta)));
                    lemma_record_well_formed(
                        ("kind"@, Node::Quoted("attachment"@)),
                        attachment_component_entries(attachment, meta),
                    );
                },
                None => {
                    assert(well_formed_entries(missing_attachment_entries(no_filename)));
                    lemma_record_well_formed(
                        ("kind"@, Node::Quoted("attachment"@)),
                        missing_attachment_entries(no_filename),
                    );
                },
            }
        },
        BubbleComponent::App => {
            let rest = none.push(
                ("balloon_bundle_id"@, opt_str_node(message.balloon_bundle_id.deep_view())),
            );
            assert(well_formed_entries(rest));
            lemma_record_well_formed(("kind"@, Node::Quoted("app"@)), rest);
        },
        BubbleComponent::Retracted => {
            assert(well_formed_entries(none));
            lemma_record_well_formed(("kind"@, Node::Quoted("retracted"@)), none);
        },
    }
}

proof fn lemma_tapback(part_index: usize, tapback: TapbackMessage)
    ensures
        well_formed(tapback_node(part_index, tapback)),
{
    broadcast use {lemma_entry_added, lemma_int_well_formed, lemma_bool_well_formed};

    reveal_strlit("part_index");
    reveal_strlit("guid");
    reveal_strlit("rowid");
    reveal_strlit("is_from_me");
    reveal_strlit("sender");
    reveal_strlit("timestamps");
    reveal_strlit("associated_message_guid");
    reveal_strlit("associated_message_type");
    reveal_strlit("associated_message_emoji");
    reveal_strlit("interpreted");
    reveal_strlit("action");
    reveal_strlit("type");
    lemma_sent(tapback.sent);
    match tapback.variant {
        Variant::Tapback(_, done, kind) => {
            lemma_tapback_entries(Seq::empty(), "type"@, done, kind);
        },
        _ => {},
    }
    assert(well_formed_entries(interpreted_entries(tapback.variant)));
    assert(well_formed(Node::Mapping(interpreted_entries(tapback.variant))));
    assert(well_formed_entries(tapback_message_entries(tapback)));
    lemma_record_well_formed(
        ("part_index"@, int_node(part_index as int)),
        tapback_message_entries(tapback),
    );
}

proof fn lemma_tapbacks(message: Message)
    ensures
        well_formed(tapbacks_node(message)),
{
    let nodes = tapback_nodes(tapbacks_of(message));
    assert forall|i: int| 0 <= i < nodes.len() implies well_formed(#[trigger] nodes[i])
        && is_item(nodes[i]) by {
        let tapback = tapbacks_of(message)[i];
        lemma_tapback(tapback.0, tapback.1);
    }
    lemma_all_items(nodes);
    assert(well_formed(Node::List(nodes)));
}

proof fn lemma_attachment_item(rowid: i32, path: Seq<char>)
    ensures
        well_formed(attachment_item(rowid, path)),
{
    broadcast use {lemma_entry_added, lemma_int_well_formed};

    reveal_strlit("rowid");
    reveal_strlit("path");
    let none: Seq<(Seq<char>, Node)> = Seq::empty();
    let rest = none.push(("path"@, Node::Quoted(path)));
    assert(well_formed_entries(rest));
    lemma_record_well_formed(("rowid"@, int_node(rowid as int)), rest);
}

proof fn lemma_reply(part_index: usize, reply: ReplyMessage)
    ensures
        well_formed(reply_node(part_index, reply)),
{
    broadcast use {lemma_entry_added, lemma_int_well_formed, lemma_bool_well_formed};

    reveal_strlit("part_index");
    reveal_strlit("guid");
    reveal_strlit("rowid");
    reveal_strlit("is_from_me");
    reveal_strlit("sender");
    reveal_strlit("timestamps");
    reveal_strlit("text");
    reveal_strlit("thread_originator_guid");
    reveal_strlit("thread_originator_part");
    reveal_strlit("attachments");
    reveal_strlit("rendered");
    lemma_sent(reply.sent);
    let items = attachment_items(reply.attachments@);
    assert forall|i: int| 0 <= i < items.len() implies well_formed(#[trigger] items[i])
        && is_item(items[i]) by {
        lemma_attachment_item(reply.attachments@[i].rowid, reply.attachments@[i].path@);
    }
    lemma_all_items(items);
    assert(well_formed(attachments_node(items)));
    assert(well_formed_entries(reply_entries(reply)));
    lemma_record_well_formed(("part_index"@, int_node(part_index as int)), reply_entries(reply));
}

proof fn lemma_part(part_index: usize, replies: Seq<ReplyMessage>)
    ensures
        forall|i: int|
            0 <= i < part_nodes(part_index, replies).len() ==> well_formed(
                #[trigger] part_nodes(part_index, replies)[i],
            ) && is_item(part_nodes(part_index, replies)[i]),
    decreases replies.len(),
{
    if replies.len() > 0 {
        let front = part_nodes(part_index, replies.drop_last());
        lemma_part(part_index, replies.drop_last());
        lemma_reply(part_index, replies.last());
        assert forall|i: int| 0 <= i < part_nodes(part_index, replies).len() implies well_formed(
            #[trigger] part_nodes(part_index, replies)[i],
        ) && is_item(part_nodes(part_index, replies)[i]) by {
            if i < front.len() {
                assert(part_nodes(part_index, replies)[i] == front[i]);
            }
        }
    }
}

proof fn lemma_replies(groups: Seq<ReplyGroup>)
    ensures
        forall|i: int|
            0 <= i < reply_nodes(groups).len() ==> well_formed(#[trigger] reply_nodes(groups)[i])
                && is_item(reply_nodes(groups)[i]),
    decreases groups.len(),
{
    if groups.len() > 0 {
        let front = reply_nodes(groups.drop_last());
        let part = part_nodes(groups.last().part_index, groups.last().replies@);
        lemma_replies(groups.drop_last());
        lemma_part(groups.last().part_index, groups.last().replies@);
        assert forall|i: int| 0 <= i < reply_nodes(groups).len() implies well_formed(
            #[trigger] reply_nodes(groups)[i],
        ) && is_item(reply_nodes(groups)[i]) by {
            if i < front.len() {
                assert(reply_nodes(groups)[i] == front[i]);
            } else {
                assert(reply_nodes(groups)[i] == part[i - front.len()]);
            }
        }
    }
}

proof fn lemma_translation(message: Message)
    ensures
        well_formed(translation_node(message)),
{
    broadcast use lemma_entry_added;

    reveal_strlit("translated_text");
    reveal_strlit("translation_lang");
    reveal_strlit("source_lang");
    if let Some(translation) = message.translation {
        assert(well_formed_entries(translation_entries(translation)));
    }
}

proof fn lemma_timestamps(message: Message)
    ensures
        well_formed_entries(timestamps_entries(message)),
{
    broadcast use lemma_entry_added;

    reveal_strlit("sent");
    reveal_strlit("delivered");
    reveal_strlit("read");
    reveal_strlit("edited");
    lemma_stamp(message.sent);
    lemma_stamp(message.delivered);
    lemma_stamp(message.read);
    lemma_stamp(message.edited);
}

proof fn lemma_raw(message: Message)
    ensures
        well_formed_entries(raw_entries(message)),
{
    broadcast use lemma_entry_added;

    reveal_strlit("components_debug");
    let nodes = description_nodes(message.components@);
    lemma_all_items(nodes);
    assert(well_formed(Node::List(nodes)));
}

/// The numbers of all the attachments in the bubbles can be written as they are.
pub open spec fn message_numbers_plain(message: Message) -> bool {
    forall|i: int|
        0 <= i < message.components@.len() ==> ((#[trigger] message.components@[i]).body
            matches BubbleComponent::Attachment(meta) ==> numbers_plain(meta))
}

/// The keys of a message.
proof fn lemma_message_keys()
    ensures
        is_key("guid"@),
        is_key("rowid"@),
        is_key("chat_id"@),
        is_key("deleted_from"@),
        is_key("is_from_me"@),
        is_key("is_read"@),
        is_key("sender"@),
        is_key("service"@),
        is_key("destination_caller_id"@),
        is_key("subject"@),
        is_key("variant"@),
        is_key("timestamps"@),
        is_key("time_until_read"@),
        is_key("text"@),
        is_key("translation"@),
        is_key("components"@),
        is_key("attachments"@),
        is_key("tapbacks"@),
        is_key("replies"@),
        is_key("rendered"@),
        is_key("raw"@),
{
    assert(is_key("guid"@)) by {
        reveal_strlit("guid");
    }
    assert(is_key("rowid"@)) by {
        reveal_strlit("rowid");
    }
    assert(is_key("chat_id"@)) by {
        reveal_strlit("chat_id");
    }
    assert(is_key("deleted_from"@)) by {
        reveal_strlit("deleted_from");
    }
    assert(is_key("is_from_me"@)) by {
        reveal_strlit("is_from_me");
    }
    assert(is_key("is_read"@)) by {
        reveal_strlit("is_read");
    }
    assert(is_key("sender"@)) by {
        reveal_strlit("sender");
    }
    assert(is_key("service"@)) by {
        reveal_strlit("service");
    }
    assert(is_key("destination_caller_id"@)) by {
        reveal_strlit("destination_caller_id");
    }
    assert(is_key("subject"@)) by {
        reveal_strlit("subject");
    }
    assert(is_key("variant"@)) by {
        reveal_strlit("variant");
    }
    assert(is_key("timestamps"@)) by {
        reveal_strlit("timestamps");
    }
    assert(is_key("time_until_read"@)) by {
        reveal_strlit("time_until_read");
    }
    assert(is_key("text"@)) by {
        reveal_strlit("text");
    }
    assert(is_key("translation"@)) by {
        reveal_strlit("translation");
    }
    assert(is_key("components"@)) by {
        reveal_strlit("components");
    }
    assert(is_key("attachments"@)) by {
        reveal_strlit("attachments");
    }
    assert(is_key("tapbacks"@)) by {
        reveal_strlit("tapbacks");
    }
    assert(is_key("replies"@)) by {
        reveal_strlit("replies");
    }
    assert(is_key("rendered"@)) by {
        reveal_strlit("rendered");
    }
    assert(is_key("raw"@)) by {
        reveal_strlit("raw");
    }
}

proof fn lemma_message_lists(config: Config, message: Message)
    requires
        message_numbers_plain(message),
    ensures
        well_formed(Node::List(component_nodes(message, config.attachment_no_filename@))),
        well_formed(attachments_node(message_attachment_items(message.attachments@))),
        well_formed(replies_node(message)),
{
    let components = component_nodes(message, config.attachment_no_filename@);
    assert forall|i: int| 0 <= i < components.len() implies well_formed(
        #[trigger] components[i],
    ) && is_item(components[i]) by {
        assert(message.components@[i].body matches BubbleComponent::Attachment(meta)
            ==> numbers_plain(meta));
        lemma_component(message, config.attachment_no_filename@, i);
    }
    lemma_all_items(components);
    let items = message_attachment_items(message.attachments@);
    assert forall|i: int| 0 <= i < items.len() implies well_formed(#[trigger] items[i])
        && is_item(items[i]) by {
        lemma_attachment_item(message.attachments@[i].rowid, message.attachments@[i].path@);
    }
    lemma_all_items(items);
    lemma_replies(message.replies@);
    lemma_all_items(reply_nodes(message.replies@));
}

proof fn lemma_message_entries(config: Config, message: Message)
    requires
        message_numbers_plain(message),
    ensures
        well_formed_entries(message_entries(config, message)),
{
    broadcast use {lemma_entry_added, lemma_int_well_formed, lemma_bool_well_formed};

    lemma_message_keys();
    lemma_message_lists(config, message);
    lemma_variant(message);
    lemma_timestamps(message);
    lemma_translation(message);
    lemma_tapbacks(message);
    lemma_raw(message);
    assert(well_formed(Node::Mapping(variant_entries(message))));
    assert(well_formed(Node::Mapping(timestamps_entries(message))));
    assert(well_formed(Node::Mapping(raw_entries(message))));
}

proof fn lemma_message(config: Config, message: Message)
    requires
        message_numbers_plain(message),
    ensures
        well_formed(message_node(config, message)),
{
    lemma_message_keys();
    lemma_message_entries(config, message);
    lemma_record_well_formed(
        ("guid"@, Node::Quoted(message.guid@)),
        message_entries(config, message),
    );
}

/// A message is one item of the list of messages, whatever it holds: the dash
/// is on its first line, and all its other lines stand further in than any
/// dash of that list.
pub proof fn law_message_is_one_item(config: Config, message: Message)
    requires
        message_numbers_plain(message),
    ensures
        indented(item_text(message_node(config, message), 2), 2),
        contained(item_text(message_node(config, message), 2), 4),
{
    lemma_message(config, message);
    lemma_item(message_node(config, message), 2);
}

/// What is written of each entry of a message stands further in than its key.
pub proof fn law_message_entries_contained(config: Config, message: Message, i: int)
    requires
        message_numbers_plain(message),
        0 <= i < message_entries(config, message).len(),
    ensures
        ({
            let entry = message_entries(config, message)[i];
            &&& indented(entry_text(entry.0, entry.1, 4), 4)
            &&& contained(entry_text(entry.0, entry.1, 4), 6)
        }),
{
    let entries = message_entries(config, message);
    lemma_message_entries(config, message);
    lemma_entry_of(entries, i);
    lemma_entry(entries[i].0, entries[i].1, 4);
}

/// The keys of a message below its identifier, in order.
pub open spec fn message_keys() -> Seq<Seq<char>> {
    Seq::empty()
        .push("rowid"@)
        .push("chat_id"@)
        .push("deleted_from"@)
        .push("is_from_me"@)
        .push("is_read"@)
        .push("sender"@)
        .push("service"@)
        .push("destination_caller_id"@)
        .push("subject"@)
        .push("variant"@)
        .push("timestamps"@)
        .push("time_until_read"@)
        .push("text"@)
        .push("translation"@)
        .push("components"@)
        .push("attachments"@)
        .push("tapbacks"@)
        .push("replies"@)
        .push("rendered"@)
        .push("raw"@)
}

/// Where a key of a message stands among the keys; its length and its first two
/// characters tell.
spec fn key_position(key: Seq<char>) -> int {
    if key.len() == 3 {
        19
    } else if key.len() == 4 {
        12
    } else if key.len() == 5 {
        0
    } else if key.len() == 6 {
        5
    } else if key.len() == 7 {
        if key[0] == 'c' {
            1
        } else if key[0] == 'i' {
            4
        } else if key[0] == 's' && key[1] == 'e' {
            6
        } else if key[0] == 's' && key[1] == 'u' {
            8
        } else if key[0] == 'v' {
            9
        } else {
            17
        }
    } else if key.len() == 8 {
        if key[0] == 't' {
            16
        } else {
            18
        }
    } else if key.len() == 10 {
        if key[0] == 'i' {
            3
        } else if key[0] == 't' {
            10
        } else {
            14
        }
    } else if key.len() == 11 {
        if key[0] == 't' {
            13
        } else {
            15
        }
    } else if key.len() == 12 {
        2
    } else if key.len() == 15 {
        11
    } else if key.len() == 21 {
        7
    } else {
        -1
    }
}

/// No key of a message occurs twice.
proof fn lemma_message_keys_distinct()
    ensures
        message_keys().no_duplicates(),
{
    assert(key_position("rowid"@) == 0) by {
        reveal_strlit("rowid");
    }
    assert(key_position("chat_id"@) == 1) by {
        reveal_strlit("chat_id");
    }
    assert(key_position("deleted_from"@) == 2) by {
        reveal_strlit("deleted_from");
    }
    assert(key_position("is_from_me"@) == 3) by {
        reveal_strlit("is_from_me");
    }
    assert(key_position("is_read"@) == 4) by {
        reveal_strlit("is_read");
    }
    assert(key_position("sender"@) == 5) by {
        reveal_strlit("sender");
    }
    assert(key_position("service"@) == 6) by {
        reveal_strlit("service");
    }
    assert(key_position("destination_caller_id"@) == 7) by {
        reveal_strlit("destination_caller_id");
    }
    assert(key_position("subject"@) == 8) by {
        reveal_strlit("subject");
    }
    assert(key_position("variant"@) == 9) by {
        reveal_strlit("variant");
    }
    assert(key_position("timestamps"@) == 10) by {
        reveal_strlit("timestamps");
    }
    assert(key_position("time_until_read"@) == 11) by {
        reveal_strlit("time_until_read");
    }
    assert(key_position("text"@) == 12) by {
        reveal_strlit("text");
    }
    assert(key_position("translation"@) == 13) by {
        reveal_strlit("translation");
    }
    assert(key_position("components"@) == 14) by {
        reveal_strlit("components");
    }
    assert(key_position("attachments"@) == 15) by {
        reveal_strlit("attachments");
    }
    assert(key_position("tapbacks"@) == 16) by {
        reveal_strlit("tapbacks");
    }
    assert(key_position("replies"@) == 17) by {
        reveal_strlit("replies");
    }
    assert(key_position("rendered"@) == 18) by {
        reveal_strlit("rendered");
    }
    assert(key_position("raw"@) == 19) by {
        reveal_strlit("raw");
    }
    let keys = message_keys();
    assert forall|i: int| 0 <= i < keys.len() implies key_position(#[trigger] keys[i]) == i by {
    }
    assert forall|i: int, j: int| 0 <= i < keys.len() && 0 <= j < keys.len() && i != j implies keys[i]
        != keys[j] by {
        assert(key_position(keys[i]) == i);
        assert(key_position(keys[j]) == j);
    }
}

proof fn lemma_message_dash_line(config: Config, message: Message)
    ensures
        dash_line(message_node(config, message), 2) == "  - guid: "@ + quoted(message.guid@),
{
    let entries = message_node(config, message)->Mapping_0;
    reveal_strlit("- ");
    reveal_strlit("guid");
    reveal_strlit(": ");
    reveal_strlit("  - guid: ");
    assert(entries[0] == ("guid"@, Node::Quoted(message.guid@)));
    assert(dash_line(message_node(config, message), 2) =~= "  - guid: "@ + quoted(message.guid@));
}

/// The first line of a message has the dash and the identifier, all other lines
/// stand at least two columns further in, and those that stand at exactly that
/// column are the lines of its keys: each key once, in order.
pub proof fn law_message_lines(config: Config, message: Message)
    requires
        message_numbers_plain(message),
    ensures
        ({
            let text = item_text(message_node(config, message), 2);
            let ls = ended_lines(text);
            &&& text.last() == '\n'
            &&& ls.len() > 0
            &&& ls[0] == "  - guid: "@ + quoted(message.guid@)
            &&& forall|i: int| 1 <= i < ls.len() ==> spaces_at(#[trigger] ls[i], 0, 4)
            &&& standing_at(ls, 4) == key_lines(message_entries(config, message), 4)
            &&& keys_of(message_entries(config, message)) == message_keys()
            &&& message_keys().no_duplicates()
        }),
{
    let node = message_node(config, message);
    let entries = message_entries(config, message);
    let whole = node->Mapping_0;
    lemma_message(config, message);
    lemma_item(node, 2);
    lemma_item_lines(node, 2);
    law_keys_below_dash(whole, 2);
    assert(whole.drop_first() =~= entries);
    lemma_message_dash_line(config, message);
    assert(keys_of(entries) =~= message_keys());
    lemma_message_keys_distinct();
}

/// The keys of a header.
proof fn lemma_header_keys()
    ensures
        is_key("generator"@),
        is_key("version"@),
        is_key("platform"@),
        is_key("db_path"@),
        is_key("export_path"@),
        is_key("copy_method"@),
        is_key("chat_rowid"@),
        is_key("chat_identifier"@),
        is_key("service_name"@),
        is_key("display_name"@),
        is_key("name"@),
        is_key("participants"@),
        is_key("orphaned"@),
        is_key("export"@),
        is_key("conversation"@),
        is_key("messages"@),
{
    assert(is_key("generator"@)) by {
        reveal_strlit("generator");
    }
    assert(is_key("version"@)) by {
        reveal_strlit("version");
    }
    assert(is_key("platform"@)) by {
        reveal_strlit("platform");
    }
    assert(is_key("db_path"@)) by {
        reveal_strlit("db_path");
    }
    assert(is_key("export_path"@)) by {
        reveal_strlit("export_path");
    }
    assert(is_key("copy_method"@)) by {
        reveal_strlit("copy_method");
    }
    assert(is_key("chat_rowid"@)) by {
        reveal_strlit("chat_rowid");
    }
    assert(is_key("chat_identifier"@)) by {
        reveal_strlit("chat_identifier");
    }
    assert(is_key("service_name"@)) by {
        reveal_strlit("service_name");
    }
    assert(is_key("display_name"@)) by {
        reveal_strlit("display_name");
    }
    assert(is_key("name"@)) by {
        reveal_strlit("name");
    }
    assert(is_key("participants"@)) by {
        reveal_strlit("participants");
    }
    assert(is_key("orphaned"@)) by {
        reveal_strlit("orphaned");
    }
    assert(is_key("export"@)) by {
        reveal_strlit("export");
    }
    assert(is_key("conversation"@)) by {
        reveal_strlit("conversation");
    }
    assert(is_key("messages"@)) by {
        reveal_strlit("messages");
    }
}

proof fn lemma_header(info: ExportInfo, chat: Option<Chat>)
    ensures
        well_formed_entries(header_entries(info, chat)),
{
    broadcast use {lemma_entry_added, lemma_int_well_formed, lemma_bool_well_formed};

    lemma_header_keys();
    assert(well_formed_entries(export_entries(info)));
    assert(well_formed(Node::Mapping(export_entries(info))));
    if let Some(chat) = chat {
        lemma_all_items(participant_nodes(chat));
        assert(well_formed(Node::List(participant_nodes(chat))));
    }
    assert(well_formed_entries(conversation_entries(chat)));
    assert(well_formed(Node::Mapping(conversation_entries(chat))));
}

/// The entries of a document are those of its header and the list of messages.
pub open spec fn document_entries(info: ExportInfo, chat: Option<Chat>, messages: Seq<Node>) -> Seq<
    (Seq<char>, Node),
> {
    header_entries(info, chat).push(("messages"@, Node::List(messages)))
}

proof fn lemma_document(info: ExportInfo, chat: Option<Chat>, messages: Seq<Node>)
    requires
        well_formed_items(messages),
    ensures
        well_formed_entries(document_entries(info, chat, messages)),
{
    broadcast use lemma_entry_added;

    lemma_header_keys();
    lemma_header(info, chat);
    assert(well_formed(Node::List(messages)));
}

/// The nodes of messages.
pub open spec fn message_nodes(config: Config, messages: Seq<Message>) -> Seq<Node> {
    messages.map_values(|message: Message| message_node(config, message))
}

proof fn lemma_messages(config: Config, messages: Seq<Message>)
    requires
        forall|i: int| 0 <= i < messages.len() ==> message_numbers_plain(#[trigger] messages[i]),
    ensures
        well_formed_items(message_nodes(config, messages)),
{
    let nodes = message_nodes(config, messages);
    assert forall|i: int| 0 <= i < nodes.len() implies well_formed(#[trigger] nodes[i])
        && is_item(nodes[i]) by {
        assert(message_numbers_plain(messages[i]));
        lemma_message(config, messages[i]);
    }
    lemma_all_items(nodes);
}

/// Whatever its messages hold, a document has its own keys at the left margin
/// and nothing else: each of its entries stays two columns further in, but for
/// the line of its key.
pub proof fn law_document_entries_contained(
    info: ExportInfo,
    chat: Option<Chat>,
    config: Config,
    messages: Seq<Message>,
    i: int,
)
    requires
        forall|k: int| 0 <= k < messages.len() ==> message_numbers_plain(#[trigger] messages[k]),
        0 <= i < document_entries(info, chat, message_nodes(config, messages)).len(),
    ensures
        ({
            let entry = document_entries(info, chat, message_nodes(config, messages))[i];
            contained(entry_text(entry.0, entry.1, 0), 2)
        }),
{
    let nodes = message_nodes(config, messages);
    let entries = document_entries(info, chat, nodes);
    lemma_messages(config, messages);
    lemma_document(info, chat, nodes);
    lemma_entry_of(entries, i);
    lemma_entry(entries[i].0, entries[i].1, 0);
}

/// At the left margin of a document stand the line that begins it and the lines
/// of its own keys, and no others, whatever its messages hold.
pub proof fn law_document_lines(
    info: ExportInfo,
    chat: Option<Chat>,
    config: Config,
    messages: Seq<Message>,
)
    requires
        forall|k: int| 0 <= k < messages.len() ==> message_numbers_plain(#[trigger] messages[k]),
    ensures
        standing_at(ended_lines(document_text(info, chat, message_nodes(config, messages))), 0)
            == Seq::empty().push("---"@).push("export:"@).push("conversation:"@).push(
            "messages:"@,
        ),
{
    let nodes = message_nodes(config, messages);
    let entries = document_entries(info, chat, nodes);
    lemma_messages(config, messages);
    lemma_document(info, chat, nodes);
    reveal_strlit("---");
    reveal_strlit("---\n");
    lemma_line_before("---"@, entries);
    assert("---\n"@ =~= "---"@ + seq!['\n']);
    assert(seq!["---"@] + key_lines(entries, 0) =~= Seq::empty().push("---"@).push(
        "export:"@,
    ).push("conversation:"@).push("messages:"@)) by {
        reveal_strlit("export");
        reveal_strlit("export:");
        reveal_strlit("conversation");
        reveal_strlit("conversation:");
        reveal_strlit("messages");
        reveal_strlit("messages:");
        reveal_strlit(":");
        let found = key_lines(entries, 0);
        assert(found[0] =~= "export:"@);
        assert(found[1] =~= "conversation:"@);
        assert(found[2] =~= "messages:"@);
    }
}

/// In the list of messages, each message has one line at the column of the
/// dashes, with its identifier, and nothing else stands there.
pub proof fn law_one_dash_for_each_message(config: Config, messages: Seq<Message>)
    requires
        forall|k: int| 0 <= k < messages.len() ==> message_numbers_plain(#[trigger] messages[k]),
    ensures
        standing_at(ended_lines(items_text(message_nodes(config, messages), 2)), 2)
            == messages.map_values(
            |message: Message| "  - guid: "@ + quoted(message.guid@),
        ),
{
    let nodes = message_nodes(config, messages);
    lemma_messages(config, messages);
    law_dashes_at_column(nodes, 2);
    let expected = messages.map_values(|message: Message| "  - guid: "@ + quoted(message.guid@));
    assert forall|i: int| 0 <= i < messages.len() implies #[trigger] dash_lines(nodes, 2)[i]
        == expected[i] by {
        lemma_message_dash_line(config, messages[i]);
    }
    assert(dash_lines(nodes, 2) =~= expected);
}

proof fn lemma_entry_of(entries: Seq<(Seq<char>, Node)>, i: int)
    requires
        well_formed_entries(entries),
        0 <= i < entries.len(),
    ensures
        is_key(entries[i].0),
        well_formed(entries[i].1),
    decreases entries.len(),
{
    if i < entries.len() - 1 {
        lemma_entry_of(entries.drop_last(), i);
    }
}

/// Points in time that are written the same say the same.
proof fn lemma_same_stamp(a: Stamp, b: Stamp)
    requires
        stamp_node(a) == stamp_node(b),
    ensures
        a.raw == b.raw,
        a.raw != 0 ==> a.local.deep_view() == b.local.deep_view() && a.shown@ == b.shown@,
{
    law_stamp_fields(a);
    law_stamp_fields(b);
    law_decimal_read_back(a.raw as int);
    law_decimal_read_back(b.raw as int);
}

/// Truth values that are written the same are the same.
proof fn lemma_same_bool(a: bool, b: bool)
    requires
        bool_node(a) == bool_node(b),
    ensures
        a == b,
{
    reveal_strlit("true");
    reveal_strlit("false");
    assert("true"@.len() != "false"@.len());
}

/// Integers that are written the same, or not at all, are the same.
proof fn lemma_same_opt_i32(a: Option<i32>, b: Option<i32>)
    requires
        opt_i32_node(a) == opt_i32_node(b),
    ensures
        a == b,
{
    if let Some(n) = a {
        law_decimal_read_back(n as int);
    }
    if let Some(n) = b {
        law_decimal_read_back(n as int);
    }
}

/// The entries of a message, by their places.
proof fn lemma_message_parts(config: Config, message: Message)
    ensures
        ({
            let entries = message_node(config, message)->Mapping_0;
            &&& entries[0].1 == Node::Quoted(message.guid@)
            &&& entries[1].1 == int_node(message.rowid as int)
            &&& entries[2].1 == opt_i32_node(message.chat_id)
            &&& entries[3].1 == opt_i32_node(message.deleted_from)
            &&& entries[4].1 == bool_node(message.is_from_me)
            &&& entries[5].1 == bool_node(message.is_read)
            &&& entries[6].1 == Node::Quoted(message.sender@)
            &&& entries[7].1 == opt_str_node(message.service.deep_view())
            &&& entries[8].1 == opt_str_node(message.destination_caller_id.deep_view())
            &&& entries[9].1 == opt_str_node(message.subject.deep_view())
            &&& entries[10].1 == Node::Mapping(variant_entries(message))
            &&& entries[11].1 == Node::Mapping(timestamps_entries(message))
            &&& entries[12].1 == opt_str_node(message.time_until_read.deep_view())
            &&& entries[13].1 == literal_opt_node(message.text.deep_view())
            &&& entries[14].1 == translation_node(message)
            &&& entries[15].1 == Node::List(
                component_nodes(message, config.attachment_no_filename@),
            )
            &&& entries[16].1 == attachments_node(message_attachment_items(message.attachments@))
            &&& entries[17].1 == tapbacks_node(message)
            &&& entries[18].1 == replies_node(message)
            &&& entries[19].1 == Node::Literal(message_text(config, message))
            &&& entries[20].1 == Node::Mapping(raw_entries(message))
        }),
{
    let entries = message_node(config, message)->Mapping_0;
    let rest = message_entries(config, message);
    assert(entries =~= seq![("guid"@, Node::Quoted(message.guid@))] + rest);
}

/// Two messages that are written the same are the same in all that is written
/// of them: nothing is lost in the text.
pub proof fn law_message_read_one_way(config: Config, a: Message, b: Message)
    requires
        message_numbers_plain(a),
        message_numbers_plain(b),
        item_text(message_node(config, a), 2) == item_text(message_node(config, b), 2),
    ensures
        message_node(config, a) == message_node(config, b),
        a.guid@ == b.guid@,
        a.rowid == b.rowid,
        a.chat_id == b.chat_id,
        a.deleted_from == b.deleted_from,
        a.is_from_me == b.is_from_me,
        a.is_read == b.is_read,
        a.sender@ == b.sender@,
        a.service.deep_view() == b.service.deep_view(),
        a.destination_caller_id.deep_view() == b.destination_caller_id.deep_view(),
        a.subject.deep_view() == b.subject.deep_view(),
        a.time_until_read.deep_view() == b.time_until_read.deep_view(),
        a.text.deep_view() == b.text.deep_view(),
        a.sent.raw == b.sent.raw,
        a.delivered.raw == b.delivered.raw,
        a.read.raw == b.read.raw,
        a.edited.raw == b.edited.raw,
        a.sent.raw != 0 ==> a.sent.local.deep_view() == b.sent.local.deep_view() && a.sent.shown@
            == b.sent.shown@,
        a.delivered.raw != 0 ==> a.delivered.local.deep_view() == b.delivered.local.deep_view()
            && a.delivered.shown@ == b.delivered.shown@,
        a.read.raw != 0 ==> a.read.local.deep_view() == b.read.local.deep_view() && a.read.shown@
            == b.read.shown@,
        a.edited.raw != 0 ==> a.edited.local.deep_view() == b.edited.local.deep_view()
            && a.edited.shown@ == b.edited.shown@,
        variant_entries(a) == variant_entries(b),
        translation_node(a) == translation_node(b),
        component_nodes(a, config.attachment_no_filename@) == component_nodes(
            b,
            config.attachment_no_filename@,
        ),
        a.attachments@.len() == b.attachments@.len(),
        message_attachment_items(a.attachments@) == message_attachment_items(b.attachments@),
        tapbacks_node(a) == tapbacks_node(b),
        replies_node(a) == replies_node(b),
        message_text(config, a) == message_text(config, b),
{
    lemma_message(config, a);
    lemma_message(config, b);
    law_item_read_one_way(message_node(config, a), message_node(config, b), 2);
    lemma_message_parts(config, a);
    lemma_message_parts(config, b);
    lemma_same_parts(config, a, b);
}

proof fn lemma_same_parts(config: Config, a: Message, b: Message)
    requires
        int_node(a.rowid as int) == int_node(b.rowid as int),
        opt_i32_node(a.chat_id) == opt_i32_node(b.chat_id),
        opt_i32_node(a.deleted_from) == opt_i32_node(b.deleted_from),
        bool_node(a.is_from_me) == bool_node(b.is_from_me),
        bool_node(a.is_read) == bool_node(b.is_read),
        timestamps_entries(a) == timestamps_entries(b),
        attachments_node(message_attachment_items(a.attachments@)) == attachments_node(
            message_attachment_items(b.attachments@),
        ),
    ensures
        a.rowid == b.rowid,
        a.chat_id == b.chat_id,
        a.deleted_from == b.deleted_from,
        a.is_from_me == b.is_from_me,
        a.is_read == b.is_read,
        stamp_node(a.sent) == stamp_node(b.sent),
        a.sent.raw == b.sent.raw,
        a.delivered.raw == b.delivered.raw,
        a.read.raw == b.read.raw,
        a.edited.raw == b.edited.raw,
        a.sent.raw != 0 ==> a.sent.local.deep_view() == b.sent.local.deep_view() && a.sent.shown@
            == b.sent.shown@,
        a.delivered.raw != 0 ==> a.delivered.local.deep_view() == b.delivered.local.deep_view()
            && a.delivered.shown@ == b.delivered.shown@,
        a.read.raw != 0 ==> a.read.local.deep_view() == b.read.local.deep_view() && a.read.shown@
            == b.read.shown@,
        a.edited.raw != 0 ==> a.edited.local.deep_view() == b.edited.local.deep_view()
            && a.edited.shown@ == b.edited.shown@,
        message_attachment_items(a.attachments@) == message_attachment_items(b.attachments@),
        a.attachments@.len() == b.attachments@.len(),
{
    law_decimal_read_back(a.rowid as int);
    law_decimal_read_back(b.rowid as int);
    lemma_same_opt_i32(a.chat_id, b.chat_id);
    lemma_same_opt_i32(a.deleted_from, b.deleted_from);
    lemma_same_bool(a.is_from_me, b.is_from_me);
    lemma_same_bool(a.is_read, b.is_read);
    let x = timestamps_entries(a);
    let y = timestamps_entries(b);
    assert(x[0].1 == stamp_node(a.sent) && y[0].1 == stamp_node(b.sent));
    assert(x[1].1 == stamp_node(a.delivered) && y[1].1 == stamp_node(b.delivered));
    assert(x[2].1 == stamp_node(a.read) && y[2].1 == stamp_node(b.read));
    assert(x[3].1 == stamp_node(a.edited) && y[3].1 == stamp_node(b.edited));
    lemma_same_stamp(a.sent, b.sent);
    lemma_same_stamp(a.delivered, b.delivered);
    lemma_same_stamp(a.read, b.read);
    lemma_same_stamp(a.edited, b.edited);
    let m = message_attachment_items(a.attachments@);
    let n = message_attachment_items(b.attachments@);
    assert(m.len() == a.attachments@.len() && n.len() == b.attachments@.len());
    if m.len() == 0 || n.len() == 0 {
        assert(m =~= n);
    }
}

/// Two documents that are the same text say the same of the export and of the
/// conversation, and hold the same messages in the same order.
pub proof fn law_document_read_one_way(
    config: Config,
    info: ExportInfo,
    chat: Option<Chat>,
    messages: Seq<Message>,
    other_info: ExportInfo,
    other_chat: Option<Chat>,
    other_messages: Seq<Message>,
)
    requires
        forall|i: int| 0 <= i < messages.len() ==> message_numbers_plain(#[trigger] messages[i]),
        forall|i: int|
            0 <= i < other_messages.len() ==> message_numbers_plain(#[trigger] other_messages[i]),
        document_text(info, chat, message_nodes(config, messages)) == document_text(
            other_info,
            other_chat,
            message_nodes(config, other_messages),
        ),
    ensures
        export_entries(info) == export_entries(other_info),
        conversation_entries(chat) == conversation_entries(other_chat),
        message_nodes(config, messages) == message_nodes(config, other_messages),
{
    let a = document_entries(info, chat, message_nodes(config, messages));
    let b = document_entries(other_info, other_chat, message_nodes(config, other_messages));
    lemma_messages(config, messages);
    lemma_messages(config, other_messages);
    lemma_document(info, chat, message_nodes(config, messages));
    lemma_document(other_info, other_chat, message_nodes(config, other_messages));
    assert(entries_text(a, 0) =~= ("---\n"@ + entries_text(a, 0)).skip("---\n"@.len() as int));
    assert(entries_text(b, 0) =~= ("---\n"@ + entries_text(b, 0)).skip("---\n"@.len() as int));
    law_entries_read_one_way(a, b, 0);
    assert(a[0].1 == b[0].1);
    assert(a[1].1 == b[1].1);
    assert(a[2].1 == b[2].1);
}

} // verus!
