//! A message as an item of the document.
use vstd::prelude::*;

use crate::component::component_nodes;
use crate::export::YAML;
use crate::record::{Attachment, Component, Config, Message, Translation};
use crate::rendered::message_text;
use crate::reply::{
    attachment_item, attachments_node, law_attachment_item, replies_node, write_attachment_item,
};
use crate::scalar::{
    bool_node, borrow, int_node, literal_opt_node, opt_i32_node, opt_str_node, write_item,
    write_item_str, write_key, write_kv_bool, write_kv_empty_list, write_kv_i32,
    write_kv_literal_opt_str, write_kv_literal_str, write_kv_null, write_kv_opt_i32,
    write_kv_opt_str, write_kv_str,
};
use crate::tapback::{stamp_node, tapbacks_node, write_stamp};
use crate::text::decimal;
use crate::tree::{
    entry_text, item_text, items_text, keys_of, lemma_item_at, lemma_list, lemma_mapping, lemma_next_entry,
    lemma_nothing, lemma_record, record, Node,
};
use crate::variant::variant_entries;

verus! {

/// When a message was sent, delivered, read and edited.
pub open spec fn timestamps_entries(message: Message) -> Seq<(Seq<char>, Node)> {
    Seq::empty()
        .push(("sent"@, stamp_node(message.sent)))
        .push(("delivered"@, stamp_node(message.delivered)))
        .push(("read"@, stamp_node(message.read)))
        .push(("edited"@, stamp_node(message.edited)))
}

/// A translation.
pub open spec fn translation_entries(translation: Translation) -> Seq<(Seq<char>, Node)> {
    Seq::empty()
        .push(("translated_text"@, Node::Quoted(translation.translated_text@)))
        .push(("translation_lang"@, Node::Quoted(translation.translation_lang@)))
        .push(("source_lang"@, Node::Quoted(translation.source_lang@)))
}

/// The translation of a message, or null where it was not translated or the
/// translation is not to be had.
pub open spec fn translation_node(message: Message) -> Node {
    match message.translation {
        Some(translation) => if message.is_translated {
            Node::Mapping(translation_entries(translation))
        } else {
            Node::Null
        },
        None => Node::Null,
    }
}

/// The attachments of a message, by where the export has them.
pub open spec fn message_attachment_items(attachments: Seq<Attachment>) -> Seq<Node> {
    attachments.map_values(
        |attachment: Attachment| attachment_item(attachment.rowid, attachment.path@),
    )
}

/// A description of each component.
pub open spec fn description_nodes(components: Seq<Component>) -> Seq<Node> {
    components.map_values(|component: Component| Node::Quoted(component.description@))
}

/// The components as they are described.
pub open spec fn raw_entries(message: Message) -> Seq<(Seq<char>, Node)> {
    Seq::empty().push(("components_debug"@, Node::List(description_nodes(message.components@))))
}

/// What is written of a message below its identifier.
pub open spec fn message_entries(config: Config, message: Message) -> Seq<(Seq<char>, Node)> {
    Seq::empty()
        .push(("rowid"@, int_node(message.rowid as int)))
        .push(("chat_id"@, opt_i32_node(message.chat_id)))
        .push(("deleted_from"@, opt_i32_node(message.deleted_from)))
        .push(("is_from_me"@, bool_node(message.is_from_me)))
        .push(("is_read"@, bool_node(message.is_read)))
        .push(("sender"@, Node::Quoted(message.sender@)))
        .push(("service"@, opt_str_node(message.service.deep_view())))
        .push(("destination_caller_id"@, opt_str_node(message.destination_caller_id.deep_view())))
        .push(("subject"@, opt_str_node(message.subject.deep_view())))
        .push(("variant"@, Node::Mapping(variant_entries(message))))
        .push(("timestamps"@, Node::Mapping(timestamps_entries(message))))
        .push(("time_until_read"@, opt_str_node(message.time_until_read.deep_view())))
        .push(("text"@, literal_opt_node(message.text.deep_view())))
        .push(("translation"@, translation_node(message)))
        .push(
            (
                "components"@,
                Node::List(component_nodes(message, config.attachment_no_filename@)),
            ),
        )
        .push(("attachments"@, attachments_node(message_attachment_items(message.attachments@))))
        .push(("tapbacks"@, tapbacks_node(message)))
        .push(("replies"@, replies_node(message)))
        .push(("rendered"@, Node::Literal(message_text(config, message))))
        .push(("raw"@, Node::Mapping(raw_entries(message))))
}

/// A message.
pub open spec fn message_node(config: Config, message: Message) -> Node {
    record(("guid"@, Node::Quoted(message.guid@)), message_entries(config, message))
}

/// Appends when a message was sent, delivered, read and edited.
fn write_timestamps(out: &mut String, message: &Message)
    ensures
        final(out)@ == old(out)@ + entry_text(
            "timestamps"@,
            Node::Mapping(timestamps_entries(*message)),
            4,
        ),
{
    broadcast use lemma_next_entry;

    write_key(out, 4, "timestamps");
    proof {
        lemma_nothing(out@, 6);
    }
    write_stamp(out, 6, "sent", &message.sent);
    write_stamp(out, 6, "delivered", &message.delivered);
    write_stamp(out, 6, "read", &message.read);
    write_stamp(out, 6, "edited", &message.edited);
    proof {
        lemma_mapping(old(out)@, "timestamps"@, timestamps_entries(*message), 4);
    }
}

/// Appends the translation of a message.
fn write_translation(out: &mut String, message: &Message)
    ensures
        final(out)@ == old(out)@ + entry_text("translation"@, translation_node(*message), 4),
{
    broadcast use lemma_next_entry;

    match &message.translation {
        Some(translation) if message.is_translated => {
            write_key(out, 4, "translation");
            proof {
                lemma_nothing(out@, 6);
            }
            write_kv_str(out, 6, "translated_text", translation.translated_text.as_str());
            write_kv_str(out, 6, "translation_lang", translation.translation_lang.as_str());
            write_kv_str(out, 6, "source_lang", translation.source_lang.as_str());
            proof {
                lemma_mapping(old(out)@, "translation"@, translation_entries(*translation), 4);
            }
        },
        _ => write_kv_null(out, 4, "translation"),
    }
}

/// Appends where the export has the attachments of a message.
fn write_attachments(out: &mut String, attachments: &Vec<Attachment>)
    ensures
        final(out)@ == old(out)@ + entry_text(
            "attachments"@,
            attachments_node(message_attachment_items(attachments@)),
            4,
        ),
{
    if attachments.len() == 0 {
        write_kv_empty_list(out, 4, "attachments");
        return;
    }
    write_key(out, 4, "attachments");
    let ghost head = out@;
    let ghost nodes = message_attachment_items(attachments@);
    proof {
        lemma_nothing(head, 6);
        assert(nodes.take(0) =~= Seq::empty());
    }
    let mut i: usize = 0;
    while i < attachments.len()
        invariant
            i <= attachments.len(),
            nodes == message_attachment_items(attachments@),
            out@ == head + items_text(nodes.take(i as int), 6),
        decreases attachments.len() - i,
    {
        write_attachment_item(out, 6, attachments[i].rowid, attachments[i].path.as_str());
        proof {
            lemma_item_at(head, nodes, i as int, 6);
        }
        i = i + 1;
    }
    proof {
        assert(nodes.take(i as int) =~= nodes);
        lemma_list(old(out)@, "attachments"@, nodes, 4);
    }
}

/// Appends the components as they are described.
fn write_raw(out: &mut String, message: &Message)
    ensures
        final(out)@ == old(out)@ + entry_text("raw"@, Node::Mapping(raw_entries(*message)), 4),
{
    broadcast use lemma_next_entry;

    write_key(out, 4, "raw");
    let ghost outer = out@;
    proof {
        lemma_nothing(outer, 6);
    }
    write_key(out, 6, "components_debug");
    let ghost head = out@;
    let ghost nodes = description_nodes(message.components@);
    proof {
        lemma_nothing(head, 8);
        assert(nodes.take(0) =~= Seq::empty());
    }
    let mut i: usize = 0;
    while i < message.components.len()
        invariant
            i <= message.components.len(),
            nodes == description_nodes(message.components@),
            out@ == head + items_text(nodes.take(i as int), 8),
        decreases message.components.len() - i,
    {
        write_item(out, 8, message.components[i].description.as_str());
        proof {
            lemma_item_at(head, nodes, i as int, 8);
        }
        i = i + 1;
    }
    proof {
        assert(nodes.take(i as int) =~= nodes);
        lemma_list(outer, "components_debug"@, nodes, 6);
        lemma_mapping(old(out)@, "raw"@, raw_entries(*message), 4);
    }
}

impl<'a> YAML<'a> {
    /// A message as an item of the document.
    pub fn format_message_yaml(&self, message: &Message) -> (res: String)
        ensures
            res@ == item_text(message_node(*self.config, *message), 2),
    {
        broadcast use lemma_next_entry;

        let mut out = String::new();
        let ghost start = out@;
        write_item_str(&mut out, 2, "guid", message.guid.as_str());
        proof {
            lemma_nothing(out@, 4);
        }
        write_kv_i32(&mut out, 4, "rowid", message.rowid);
        write_kv_opt_i32(&mut out, 4, "chat_id", message.chat_id);
        write_kv_opt_i32(&mut out, 4, "deleted_from", message.deleted_from);
        write_kv_bool(&mut out, 4, "is_from_me", message.is_from_me);
        write_kv_bool(&mut out, 4, "is_read", message.is_read);
        write_kv_str(&mut out, 4, "sender", message.sender.as_str());
        write_kv_opt_str(&mut out, 4, "service", borrow(&message.service));
        write_kv_opt_str(
            &mut out,
            4,
            "destination_caller_id",
            borrow(&message.destination_caller_id),
        );
        write_kv_opt_str(&mut out, 4, "subject", borrow(&message.subject));
        self.write_variant(&mut out, message);
        write_timestamps(&mut out, message);
        write_kv_opt_str(&mut out, 4, "time_until_read", borrow(&message.time_until_read));
        write_kv_literal_opt_str(&mut out, 4, "text", borrow(&message.text));
        write_translation(&mut out, message);
        let ghost before = out@;
        write_key(&mut out, 4, "components");
        self.write_components(&mut out, message);
        proof {
            lemma_list(
                before,
                "components"@,
                component_nodes(*message, self.config.attachment_no_filename@),
                4,
            );
        }
        write_attachments(&mut out, &message.attachments);
        self.write_tapbacks(&mut out, message);
        self.write_replies(&mut out, message);
        let rendered = self.rendered_block(message);
        write_kv_literal_str(&mut out, 4, "rendered", rendered.as_str());
        write_raw(&mut out, message);
        proof {
            lemma_record(
                start,
                ("guid"@, Node::Quoted(message.guid@)),
                message_entries(*self.config, *message),
                2,
            );
            assert(start + item_text(message_node(*self.config, *message), 2) =~= item_text(
                message_node(*self.config, *message),
                2,
            ));
        }
        out
    }
}

/// A message says when it was sent, delivered, read and edited.
pub proof fn law_message_timestamps(message: Message)
    ensures
        ({
            let entries = timestamps_entries(message);
            &&& keys_of(entries) == Seq::empty()
                .push("sent"@)
                .push("delivered"@)
                .push("read"@)
                .push("edited"@)
            &&& entries.contains(("sent"@, stamp_node(message.sent)))
            &&& entries.contains(("delivered"@, stamp_node(message.delivered)))
            &&& entries.contains(("read"@, stamp_node(message.read)))
            &&& entries.contains(("edited"@, stamp_node(message.edited)))
        }),
{
    let entries = timestamps_entries(message);
    assert(entries[0] == ("sent"@, stamp_node(message.sent)));
    assert(entries[1] == ("delivered"@, stamp_node(message.delivered)));
    assert(entries[2] == ("read"@, stamp_node(message.read)));
    assert(entries[3] == ("edited"@, stamp_node(message.edited)));
    assert(keys_of(entries) =~= Seq::empty()
        .push("sent"@)
        .push("delivered"@)
        .push("read"@)
        .push("edited"@));
}

/// A translation says its text and both languages.
pub proof fn law_translation_fields(translation: Translation)
    ensures
        ({
            let entries = translation_entries(translation);
            &&& keys_of(entries) == Seq::empty()
                .push("translated_text"@)
                .push("translation_lang"@)
                .push("source_lang"@)
            &&& entries.contains(("translated_text"@, Node::Quoted(translation.translated_text@)))
            &&& entries.contains(("translation_lang"@, Node::Quoted(translation.translation_lang@)))
            &&& entries.contains(("source_lang"@, Node::Quoted(translation.source_lang@)))
        }),
{
    let entries = translation_entries(translation);
    assert(entries[0] == ("translated_text"@, Node::Quoted(translation.translated_text@)));
    assert(entries[1] == ("translation_lang"@, Node::Quoted(translation.translation_lang@)));
    assert(entries[2] == ("source_lang"@, Node::Quoted(translation.source_lang@)));
    assert(keys_of(entries) =~= Seq::empty()
        .push("translated_text"@)
        .push("translation_lang"@)
        .push("source_lang"@));
}

/// A message has a translation exactly where it is known to have been
/// translated and the translation is there.
pub proof fn law_translation_written(message: Message)
    ensures
        message.is_translated && message.translation is Some <==> translation_node(message)
            is Mapping,
        !(message.is_translated && message.translation is Some) ==> translation_node(message)
            == Node::Null,
        message.is_translated && message.translation is Some ==> translation_node(message)
            == Node::Mapping(translation_entries(message.translation->0)),
{
}

/// The attachments of a message are listed one for one, in order, each by its
/// row and its path, and so are the descriptions of its components.
pub proof fn law_message_lists(message: Message)
    ensures
        message_attachment_items(message.attachments@).len() == message.attachments@.len(),
        forall|i: int|
            0 <= i < message.attachments@.len() ==> #[trigger] message_attachment_items(
                message.attachments@,
            )[i] == Node::Mapping(
                seq![
                    ("rowid"@, Node::Plain(decimal(message.attachments@[i].rowid as int))),
                    ("path"@, Node::Quoted(message.attachments@[i].path@)),
                ],
            ),
        raw_entries(message).len() == 1,
        raw_entries(message)[0].0 == "components_debug"@,
        raw_entries(message)[0].1 is List,
        (raw_entries(message)[0].1->List_0).len() == message.components@.len(),
        forall|i: int|
            0 <= i < message.components@.len() ==> #[trigger] (raw_entries(
                message,
            )[0].1->List_0)[i] == Node::Quoted(message.components@[i].description@),
{
    assert forall|i: int| 0 <= i < message.attachments@.len() implies #[trigger]
        message_attachment_items(message.attachments@)[i] == Node::Mapping(
        seq![
            ("rowid"@, Node::Plain(decimal(message.attachments@[i].rowid as int))),
            ("path"@, Node::Quoted(message.attachments@[i].path@)),
        ],
    ) by {
        law_attachment_item(message.attachments@[i].rowid, message.attachments@[i].path@);
    }
}

/// A message is written with all that is known of it, each under its own key; the
/// truth values are `true` exactly where they hold.
pub proof fn law_message_fields(config: Config, message: Message)
    ensures
        ({
            let node = message_node(config, message);
            let entries = node->Mapping_0;
            &&& node is Mapping
            &&& keys_of(entries) == Seq::empty()
                .push("guid"@)
                .push("rowid"@)
                .push("chat_id"@)
                .push("deleted_from"@)
                .push("is_from_me"@)
                .push("is_read"@)
                .push("sender"@)
                .push("service"@)
                .push("destination_caller_id"@)
                .push("subject"@)
                .push("variant"@)
                .push("timestamps"@)
                .push("time_until_read"@)
                .push("text"@)
                .push("translation"@)
                .push("components"@)
                .push("attachments"@)
                .push("tapbacks"@)
                .push("replies"@)
                .push("rendered"@)
                .push("raw"@)
            &&& entries.contains(("guid"@, Node::Quoted(message.guid@)))
            &&& entries.contains(("rowid"@, Node::Plain(decimal(message.rowid as int))))
            &&& entries.contains(("chat_id"@, opt_i32_node(message.chat_id)))
            &&& entries.contains(("deleted_from"@, opt_i32_node(message.deleted_from)))
            &&& entries.contains(("is_from_me"@, Node::Plain(if message.is_from_me { "true"@ } else { "false"@ })))
            &&& entries.contains(("is_read"@, Node::Plain(if message.is_read { "true"@ } else { "false"@ })))
            &&& entries.contains(("sender"@, Node::Quoted(message.sender@)))
            &&& entries.contains(("service"@, opt_str_node(message.service.deep_view())))
            &&& entries.contains(("destination_caller_id"@, opt_str_node(message.destination_caller_id.deep_view())))
            &&& entries.contains(("subject"@, opt_str_node(message.subject.deep_view())))
            &&& entries.contains(("variant"@, Node::Mapping(variant_entries(message))))
            &&& entries.contains(("timestamps"@, Node::Mapping(timestamps_entries(message))))
            &&& entries.contains(("time_until_read"@, opt_str_node(message.time_until_read.deep_view())))
            &&& entries.contains(("text"@, literal_opt_node(message.text.deep_view())))
            &&& entries.contains(("translation"@, translation_node(message)))
            &&& entries.contains(("components"@, Node::List(component_nodes(message, config.attachment_no_filename@))))
            &&& entries.contains(("attachments"@, if message.attachments@.len() == 0 {
                Node::EmptyList
            } else {
                Node::List(message_attachment_items(message.attachments@))
            }))
            &&& entries.contains(("tapbacks"@, tapbacks_node(message)))
            &&& entries.contains(("replies"@, replies_node(message)))
            &&& entries.contains(("rendered"@, Node::Literal(message_text(config, message))))
            &&& entries.contains(("raw"@, Node::Mapping(raw_entries(message))))
        }),
{
    let entries = (message_node(config, message))->Mapping_0;
    let rest = message_entries(config, message);
    assert(entries =~= seq![("guid"@, Node::Quoted(message.guid@))] + rest);
    assert(entries[0] == ("guid"@, Node::Quoted(message.guid@)));
    assert(entries[1] == ("rowid"@, Node::Plain(decimal(message.rowid as int))));
    assert(entries[2] == ("chat_id"@, opt_i32_node(message.chat_id)));
    assert(entries[3] == ("deleted_from"@, opt_i32_node(message.deleted_from)));
    assert(entries[4] == ("is_from_me"@, Node::Plain(if message.is_from_me { "true"@ } else { "false"@ })));
    assert(entries[5] == ("is_read"@, Node::Plain(if message.is_read { "true"@ } else { "false"@ })));
    assert(entries[6] == ("sender"@, Node::Quoted(message.sender@)));
    assert(entries[7] == ("service"@, opt_str_node(message.service.deep_view())));
    assert(entries[8] == ("destination_caller_id"@, opt_str_node(message.destination_caller_id.deep_view())));
    assert(entries[9] == ("subject"@, opt_str_node(message.subject.deep_view())));
    assert(entries[10] == ("variant"@, Node::Mapping(variant_entries(message))));
    assert(entries[11] == ("timestamps"@, Node::Mapping(timestamps_entries(message))));
    assert(entries[12] == ("time_until_read"@, opt_str_node(message.time_until_read.deep_view())));
    assert(entries[13] == ("text"@, literal_opt_node(message.text.deep_view())));
    assert(entries[14] == ("translation"@, translation_node(message)));
    assert(entries[15] == ("components"@, Node::List(component_nodes(message, config.attachment_no_filename@))));
    assert(entries[16] == ("attachments"@, if message.attachments@.len() == 0 {
                Node::EmptyList
            } else {
                Node::List(message_attachment_items(message.attachments@))
            }));
    assert(entries[17] == ("tapbacks"@, tapbacks_node(message)));
    assert(entries[18] == ("replies"@, replies_node(message)));
    assert(entries[19] == ("rendered"@, Node::Literal(message_text(config, message))));
    assert(entries[20] == ("raw"@, Node::Mapping(raw_entries(message))));
    assert(keys_of(entries) =~= Seq::empty()
        .push("guid"@)
        .push("rowid"@)
        .push("chat_id"@)
        .push("deleted_from"@)
        .push("is_from_me"@)
        .push("is_read"@)
        .push("sender"@)
        .push("service"@)
        .push("destination_caller_id"@)
        .push("subject"@)
        .push("variant"@)
        .push("timestamps"@)
        .push("time_until_read"@)
        .push("text"@)
        .push("translation"@)
        .push("components"@)
        .push("attachments"@)
        .push("tapbacks"@)
        .push("replies"@)
        .push("rendered"@)
        .push("raw"@));
}

} // verus!
