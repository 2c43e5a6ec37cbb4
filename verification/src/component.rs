//! The components of a message, in the order of its bubbles.
use vstd::prelude::*;

use crate::export::YAML;
use crate::record::{
    Attachment, AttachmentMeta, BubbleComponent, Component, Message, TextAttributes,
};
use crate::scalar::{
    bool_node, borrow, int_node, literal_opt_node, opt_number_node, opt_str_node, write_item,
    write_item_str, write_item_usize, write_key, write_kv_bool, write_kv_empty_list, write_kv_i32,
    write_kv_i64, write_kv_literal_opt_str, write_kv_null, write_kv_opt_f64, write_kv_opt_str,
    write_kv_str, write_kv_usize,
};
use crate::text::{byte_range, decimal, slice_bytes};
use crate::tree::{
    entries_text, entry_text, item_text, items_text, keys_of, lemma_item_at, lemma_list, lemma_mapping,
    lemma_next_entry, lemma_nothing, lemma_record, record, Node,
};

verus! {

/// Double-quoted scalars.
pub open spec fn quoted_nodes(values: Seq<String>) -> Seq<Node> {
    values.map_values(|value: String| Node::Quoted(value@))
}

/// The part of the text that an attribute speaks of, or null where it is not
/// in the text.
pub open spec fn slice_node(text: Option<Seq<char>>, start: int, end: int) -> Node {
    match text {
        Some(text) => match byte_range(text, start, end) {
            Some(slice) => Node::Literal(slice),
            None => Node::Null,
        },
        None => Node::Null,
    }
}

/// A list of descriptions.
pub open spec fn effects_node(effects: Seq<String>) -> Node {
    if effects.len() == 0 {
        Node::EmptyList
    } else {
        Node::List(quoted_nodes(effects))
    }
}

/// An attribute of the text.
pub open spec fn attribute_node(text: Option<Seq<char>>, attr: TextAttributes) -> Node {
    record(
        ("start"@, int_node(attr.start as int)),
        Seq::empty()
            .push(("end"@, int_node(attr.end as int)))
            .push(("slice"@, slice_node(text, attr.start as int, attr.end as int)))
            .push(("effects_debug"@, effects_node(attr.effects@))),
    )
}

/// The attributes of the text.
pub open spec fn attribute_nodes(text: Option<Seq<char>>, attrs: Seq<TextAttributes>) -> Seq<Node> {
    attrs.map_values(|attr: TextAttributes| attribute_node(text, attr))
}

/// The text and its attributes.
pub open spec fn text_entries(text: Option<Seq<char>>, attrs: Seq<TextAttributes>) -> Seq<
    (Seq<char>, Node),
> {
    Seq::empty()
        .push(("text"@, literal_opt_node(text)))
        .push(
            (
                "attributes"@,
                if attrs.len() == 0 {
                    Node::EmptyList
                } else {
                    Node::List(attribute_nodes(text, attrs))
                },
            ),
        )
}

/// Appends descriptions as the items of a list.
pub(crate) fn write_items(out: &mut String, spaces: usize, values: &Vec<String>)
    ensures
        final(out)@ == old(out)@ + items_text(quoted_nodes(values@), spaces as nat),
{
    let ghost head = out@;
    let ghost nodes = quoted_nodes(values@);
    proof {
        lemma_nothing(head, spaces as nat);
        assert(nodes.take(0) =~= Seq::empty());
    }
    let mut i: usize = 0;
    while i < values.len()
        invariant
            i <= values.len(),
            nodes == quoted_nodes(values@),
            out@ == head + items_text(nodes.take(i as int), spaces as nat),
        decreases values.len() - i,
    {
        write_item(out, spaces, values[i].as_str());
        proof {
            lemma_item_at(head, nodes, i as int, spaces as nat);
        }
        i = i + 1;
    }
    proof {
        assert(nodes.take(i as int) =~= nodes);
    }
}

/// Appends an attribute of the text.
fn write_attribute(out: &mut String, text: Option<&str>, attr: &TextAttributes)
    ensures
        final(out)@ == old(out)@ + item_text(attribute_node(text.deep_view(), *attr), 10),
{
    broadcast use lemma_next_entry;

    let ghost rest = Seq::empty()
        .push(("end"@, int_node(attr.end as int)))
        .push(("slice"@, slice_node(text.deep_view(), attr.start as int, attr.end as int)));
    write_item_usize(out, 10, "start", attr.start);
    let ghost head = out@;
    proof {
        lemma_nothing(head, 12);
    }
    write_kv_usize(out, 12, "end", attr.end);
    let slice: Option<&str> = match text {
        Some(text) => slice_bytes(text, attr.start, attr.end),
        None => None,
    };
    write_kv_literal_opt_str(out, 12, "slice", slice);
    assert(literal_opt_node(slice.deep_view()) == slice_node(text.deep_view(), attr.start as int, attr.end as int));
    assert(out@ == head + entries_text(rest, 12));
    let ghost before = out@;
    if attr.effects.len() == 0 {
        write_kv_empty_list(out, 12, "effects_debug");
    } else {
        write_key(out, 12, "effects_debug");
        write_items(out, 14, &attr.effects);
        proof {
            lemma_list(before, "effects_debug"@, quoted_nodes(attr.effects@), 12);
        }
    }
    proof {
        lemma_record(
            old(out)@,
            ("start"@, int_node(attr.start as int)),
            rest.push(("effects_debug"@, effects_node(attr.effects@))),
            10,
        );
    }
}

/// An attachment.
pub open spec fn attachment_entries(attachment: Attachment) -> Seq<(Seq<char>, Node)> {
    Seq::empty()
        .push(("rowid"@, int_node(attachment.rowid as int)))
        .push(("filename"@, opt_str_node(attachment.filename.deep_view())))
        .push(("transfer_name"@, opt_str_node(attachment.transfer_name.deep_view())))
        .push(("uti"@, opt_str_node(attachment.uti.deep_view())))
        .push(("mime_type"@, opt_str_node(attachment.mime_type.deep_view())))
        .push(("total_bytes"@, int_node(attachment.total_bytes as int)))
        .push(("is_sticker"@, bool_node(attachment.is_sticker)))
        .push(("hide_attachment"@, int_node(attachment.hide_attachment as int)))
        .push(("emoji_description"@, opt_str_node(attachment.emoji_description.deep_view())))
        .push(("path"@, Node::Quoted(attachment.path@)))
        .push(("sticker"@, sticker_node(attachment)))
}

/// Where a sticker comes from, or null where the attachment is no sticker.
pub open spec fn sticker_node(attachment: Attachment) -> Node {
    if attachment.is_sticker {
        Node::Mapping(
            Seq::empty()
                .push(("source_debug"@, opt_str_node(attachment.sticker_source.deep_view())))
                .push(("application_name"@, opt_str_node(attachment.sticker_application.deep_view()))),
        )
    } else {
        Node::Null
    }
}

/// What the text says of an attachment.
pub open spec fn meta_entries(meta: AttachmentMeta) -> Seq<(Seq<char>, Node)> {
    Seq::empty()
        .push(("guid"@, opt_str_node(meta.guid.deep_view())))
        .push(("transcription"@, literal_opt_node(meta.transcription.deep_view())))
        .push(("height"@, opt_number_node(meta.height.deep_view())))
        .push(("width"@, opt_number_node(meta.width.deep_view())))
        .push(("name"@, opt_str_node(meta.name.deep_view())))
}

/// An attachment, and what the text says of it.
pub open spec fn attachment_component_entries(
    attachment: Attachment,
    meta: AttachmentMeta,
) -> Seq<(Seq<char>, Node)> {
    Seq::empty()
        .push(("attachment"@, Node::Mapping(attachment_entries(attachment))))
        .push(("meta"@, Node::Mapping(meta_entries(meta))))
}

/// An attachment that the database does not have.
pub open spec fn missing_attachment_entries(no_filename: Seq<char>) -> Seq<(Seq<char>, Node)> {
    Seq::empty()
        .push(("attachment"@, Node::Null))
        .push(("meta"@, Node::Null))
        .push(("error"@, Node::Quoted(no_filename)))
}

/// Appends where a sticker comes from.
fn write_sticker(out: &mut String, attachment: &Attachment)
    ensures
        final(out)@ == old(out)@ + entry_text("sticker"@, sticker_node(*attachment), 10),
{
    broadcast use lemma_next_entry;

    if attachment.is_sticker {
        write_key(out, 10, "sticker");
        proof {
            lemma_nothing(out@, 12);
        }
        write_kv_opt_str(out, 12, "source_debug", borrow(&attachment.sticker_source));
        write_kv_opt_str(out, 12, "application_name", borrow(&attachment.sticker_application));
        proof {
            lemma_mapping(
                old(out)@,
                "sticker"@,
                sticker_node(*attachment)->Mapping_0,
                10,
            );
        }
    } else {
        write_kv_null(out, 10, "sticker");
    }
}

/// How many of the components are attachments.
pub open spec fn attachments_among(components: Seq<Component>) -> nat
    decreases components.len(),
{
    if components.len() == 0 {
        0
    } else {
        let before = attachments_among(components.drop_last());
        match components.last().body {
            BubbleComponent::Attachment(_) => before + 1,
            _ => before,
        }
    }
}

/// The attachment that belongs to the component with index `i`: the first
/// attachment component has the first attachment, and so on.
pub open spec fn attachment_of(
    components: Seq<Component>,
    attachments: Seq<Attachment>,
    i: int,
) -> Option<Attachment> {
    let index = attachments_among(components.take(i));
    if index < attachments.len() {
        Some(attachments[index as int])
    } else {
        None
    }
}

/// The component of `message` with index `i`.
pub open spec fn component_node(message: Message, no_filename: Seq<char>, i: int) -> Node {
    match message.components@[i].body {
        BubbleComponent::Text(attrs) => record(
            ("kind"@, Node::Quoted("text"@)),
            text_entries(message.text.deep_view(), attrs@),
        ),
        BubbleComponent::Attachment(meta) => record(
            ("kind"@, Node::Quoted("attachment"@)),
            match attachment_of(message.components@, message.attachments@, i) {
                Some(attachment) => attachment_component_entries(attachment, meta),
                None => missing_attachment_entries(no_filename),
            },
        ),
        BubbleComponent::App => record(
            ("kind"@, Node::Quoted("app"@)),
            Seq::empty().push(
                ("balloon_bundle_id"@, opt_str_node(message.balloon_bundle_id.deep_view())),
            ),
        ),
        BubbleComponent::Retracted => record(
            ("kind"@, Node::Quoted("retracted"@)),
            Seq::empty(),
        ),
    }
}

/// The components of `message`.
pub open spec fn component_nodes(message: Message, no_filename: Seq<char>) -> Seq<Node> {
    Seq::new(message.components@.len(), |i: int| component_node(message, no_filename, i))
}

/// How many of the attachments that a message has stand in its bubbles, and so
/// have to be in place before the message is written: the first ones, as many
/// as there are attachment components.
pub fn attachments_in_bubbles(components: &Vec<Component>, available: usize) -> (res: usize)
    ensures
        res == if attachments_among(components@) < available {
            attachments_among(components@)
        } else {
            available as nat
        },
        res <= available,
        res <= components@.filter(|component: Component| component.body is Attachment).len(),
        res == available || res == components@.filter(
            |component: Component| component.body is Attachment,
        ).len(),
{
    let mut used: usize = 0;
    let mut i: usize = 0;
    while i < components.len()
        invariant
            i <= components.len(),
            used == if attachments_among(components@.take(i as int)) < available {
                attachments_among(components@.take(i as int))
            } else {
                available as nat
            },
        decreases components.len() - i,
    {
        proof {
            assert(components@.take(i + 1).drop_last() =~= components@.take(i as int));
        }
        if let BubbleComponent::Attachment(_) = &components[i].body {
            if used < available {
                used = used + 1;
            }
        }
        i = i + 1;
    }
    proof {
        assert(components@.take(i as int) =~= components@);
        lemma_attachments_counted(
            components@,
            |component: Component| component.body is Attachment,
        );
    }
    used
}

impl<'a> YAML<'a> {
    /// Appends the components of a message.
    pub fn write_components(&self, out: &mut String, message: &Message)
        ensures
            final(out)@ == old(out)@ + items_text(
                component_nodes(*message, self.config.attachment_no_filename@),
                6,
            ),
    {
        let ghost nodes = component_nodes(*message, self.config.attachment_no_filename@);
        let ghost head = out@;
        proof {
            lemma_nothing(head, 6);
            assert(nodes.take(0) =~= Seq::empty());
        }
        let mut attachment_index: usize = 0;
        let mut i: usize = 0;
        while i < message.components.len()
            invariant
                i <= message.components.len(),
                attachment_index == attachments_among(message.components@.take(i as int)),
                attachment_index <= i,
                nodes == component_nodes(*message, self.config.attachment_no_filename@),
                out@ == head + items_text(nodes.take(i as int), 6),
            decreases message.components.len() - i,
        {
            proof {
                assert(message.components@.take(i + 1).drop_last()
                    =~= message.components@.take(i as int));
            }
            let attachment: Option<&Attachment> = if attachment_index < message.attachments.len() {
                Some(&message.attachments[attachment_index])
            } else {
                None
            };
            self.write_component(out, message, i, attachment);
            if let BubbleComponent::Attachment(_) = &message.components[i].body {
                attachment_index = attachment_index + 1;
            }
            proof {
                lemma_item_at(head, nodes, i as int, 6);
            }
            i = i + 1;
        }
        proof {
            assert(nodes.take(i as int) =~= nodes);
        }
    }

    /// Appends the component with index `i`.
    fn write_component(
        &self,
        out: &mut String,
        message: &Message,
        i: usize,
        attachment: Option<&Attachment>,
    )
        requires
            i < message.components@.len(),
            attachment_of(message.components@, message.attachments@, i as int) == (
            match attachment {
                Some(a) => Some(*a),
                None => None,
            }),
        ensures
            final(out)@ == old(out)@ + item_text(
                component_node(*message, self.config.attachment_no_filename@, i as int),
                6,
            ),
    {
        broadcast use lemma_next_entry;

        let ghost start = out@;
        match &message.components[i].body {
            BubbleComponent::Text(attrs) => {
                write_item_str(out, 6, "kind", "text");
                self.write_text_attributes(out, borrow(&message.text), attrs);
                proof {
                    lemma_record(
                        start,
                        ("kind"@, Node::Quoted("text"@)),
                        text_entries(message.text.deep_view(), attrs@),
                        6,
                    );
                }
            },
            BubbleComponent::Attachment(meta) => {
                write_item_str(out, 6, "kind", "attachment");
                match attachment {
                    Some(attachment) => {
                        self.write_attachment_component(out, attachment, meta);
                        proof {
                            lemma_record(
                                start,
                                ("kind"@, Node::Quoted("attachment"@)),
                                attachment_component_entries(*attachment, *meta),
                                6,
                            );
                        }
                    },
                    None => {
                        proof {
                            lemma_nothing(out@, 8);
                        }
                        write_kv_null(out, 8, "attachment");
                        write_kv_null(out, 8, "meta");
                        write_kv_str(
                            out,
                            8,
                            "error",
                            self.config.attachment_no_filename.as_str(),
                        );
                        proof {
                            lemma_record(
                                start,
                                ("kind"@, Node::Quoted("attachment"@)),
                                missing_attachment_entries(self.config.attachment_no_filename@),
                                6,
                            );
                        }
                    },
                }
            },
            BubbleComponent::App => {
                write_item_str(out, 6, "kind", "app");
                proof {
                    lemma_nothing(out@, 8);
                }
                write_kv_opt_str(out, 8, "balloon_bundle_id", borrow(&message.balloon_bundle_id));
                proof {
                    lemma_record(
                        start,
                        ("kind"@, Node::Quoted("app"@)),
                        Seq::empty().push(
                            (
                                "balloon_bundle_id"@,
                                opt_str_node(message.balloon_bundle_id.deep_view()),
                            ),
                        ),
                        6,
                    );
                }
            },
            BubbleComponent::Retracted => {
                write_item_str(out, 6, "kind", "retracted");
                proof {
                    lemma_nothing(out@, 8);
                    lemma_record(
                        start,
                        ("kind"@, Node::Quoted("retracted"@)),
                        Seq::empty(),
                        6,
                    );
                }
            },
        }
    }

    /// Appends the text of a component and its attributes.
    pub fn write_text_attributes(
        &self,
        out: &mut String,
        text: Option<&str>,
        attrs: &Vec<TextAttributes>,
    )
        ensures
            final(out)@ == old(out)@ + entries_text(text_entries(text.deep_view(), attrs@), 8),
    {
        broadcast use lemma_next_entry;

        let ghost start = out@;
        proof {
            lemma_nothing(start, 8);
        }
        write_kv_literal_opt_str(out, 8, "text", text);
        if attrs.len() == 0 {
            write_kv_empty_list(out, 8, "attributes");
            return;
        }
        let ghost before = out@;
        write_key(out, 8, "attributes");
        let ghost head = out@;
        let ghost nodes = attribute_nodes(text.deep_view(), attrs@);
        proof {
            lemma_nothing(head, 10);
            assert(nodes.take(0) =~= Seq::empty());
        }
        let mut i: usize = 0;
        while i < attrs.len()
            invariant
                i <= attrs.len(),
                nodes == attribute_nodes(text.deep_view(), attrs@),
                out@ == head + items_text(nodes.take(i as int), 10),
            decreases attrs.len() - i,
        {
            write_attribute(out, text, &attrs[i]);
            proof {
                lemma_item_at(head, nodes, i as int, 10);
            }
            i = i + 1;
        }
        proof {
            assert(nodes.take(i as int) =~= nodes);
            lemma_list(before, "attributes"@, nodes, 8);
        }
    }

    /// Appends an attachment and what the text says of it.
    pub fn write_attachment_component(
        &self,
        out: &mut String,
        attachment: &Attachment,
        meta: &AttachmentMeta,
    )
        ensures
            final(out)@ == old(out)@ + entries_text(
                attachment_component_entries(*attachment, *meta),
                8,
            ),
    {
        broadcast use lemma_next_entry;

        let ghost start = out@;
        proof {
            lemma_nothing(start, 8);
        }
        write_key(out, 8, "attachment");
        let ghost head = out@;
        proof {
            lemma_nothing(head, 10);
        }
        write_kv_i32(out, 10, "rowid", attachment.rowid);
        write_kv_opt_str(out, 10, "filename", borrow(&attachment.filename));
        write_kv_opt_str(out, 10, "transfer_name", borrow(&attachment.transfer_name));
        write_kv_opt_str(out, 10, "uti", borrow(&attachment.uti));
        write_kv_opt_str(out, 10, "mime_type", borrow(&attachment.mime_type));
        write_kv_i64(out, 10, "total_bytes", attachment.total_bytes);
        write_kv_bool(out, 10, "is_sticker", attachment.is_sticker);
        write_kv_i32(out, 10, "hide_attachment", attachment.hide_attachment);
        write_kv_opt_str(out, 10, "emoji_description", borrow(&attachment.emoji_description));
        write_kv_str(out, 10, "path", attachment.path.as_str());
        write_sticker(out, attachment);
        assert(out@ == head + entries_text(attachment_entries(*attachment), 10));
        proof {
            lemma_mapping(start, "attachment"@, attachment_entries(*attachment), 8);
        }
        let ghost before = out@;
        write_key(out, 8, "meta");
        proof {
            lemma_nothing(out@, 10);
        }
        write_kv_opt_str(out, 10, "guid", borrow(&meta.guid));
        write_kv_literal_opt_str(out, 10, "transcription", borrow(&meta.transcription));
        write_kv_opt_f64(out, 10, "height", borrow(&meta.height));
        write_kv_opt_f64(out, 10, "width", borrow(&meta.width));
        write_kv_opt_str(out, 10, "name", borrow(&meta.name));
        proof {
            lemma_mapping(before, "meta"@, meta_entries(*meta), 8);
        }
    }
}

proof fn lemma_attachments_before(components: Seq<Component>, i: int)
    requires
        0 <= i < components.len(),
    ensures
        attachments_among(components.take(i)) <= attachments_among(components),
        components[i].body is Attachment ==> attachments_among(components.take(i))
            < attachments_among(components),
    decreases components.len(),
{
    if i == components.len() - 1 {
        assert(components.take(i) =~= components.drop_last());
    } else {
        lemma_attachments_before(components.drop_last(), i);
        assert(components.drop_last().take(i) =~= components.take(i));
    }
}

/// Every attachment that a bubble shows is among those that have to be in place
/// before the message is written.
pub proof fn law_shown_attachments_in_place(
    components: Seq<Component>,
    attachments: Seq<Attachment>,
    i: int,
)
    requires
        0 <= i < components.len(),
        components[i].body is Attachment,
        attachment_of(components, attachments, i) is Some,
    ensures
        attachments_among(components.take(i)) < attachments_among(components),
        attachments_among(components.take(i)) < attachments.len(),
        attachment_of(components, attachments, i) == Some(
            attachments[attachments_among(components.take(i)) as int],
        ),
{
    lemma_attachments_before(components, i);
}

/// Strings are written one for one, in order.
pub proof fn law_strings_one_for_one(values: Seq<String>)
    ensures
        quoted_nodes(values).len() == values.len(),
        forall|i: int|
            0 <= i < values.len() ==> #[trigger] quoted_nodes(values)[i] == Node::Quoted(values[i]@),
        effects_node(values) == if values.len() == 0 {
            Node::EmptyList
        } else {
            Node::List(quoted_nodes(values))
        },
{
}

/// An attribute says its range, the part of the text that the range is, and how
/// that part is shown.
pub proof fn law_attribute_fields(text: Option<Seq<char>>, attr: TextAttributes)
    ensures
        ({
            let node = attribute_node(text, attr);
            let entries = node->Mapping_0;
            &&& node is Mapping
            &&& keys_of(entries) == Seq::empty()
                .push("start"@)
                .push("end"@)
                .push("slice"@)
                .push("effects_debug"@)
            &&& entries.contains(("start"@, Node::Plain(decimal(attr.start as int))))
            &&& entries.contains(("end"@, Node::Plain(decimal(attr.end as int))))
            &&& entries.contains(("slice"@, match text {
                Some(text) => literal_opt_node(byte_range(text, attr.start as int, attr.end as int)),
                None => Node::Null,
            }))
            &&& entries.contains(("effects_debug"@, effects_node(attr.effects@)))
        }),
{
    let entries = (attribute_node(text, attr))->Mapping_0;
    assert(entries[0] == ("start"@, Node::Plain(decimal(attr.start as int))));
    assert(entries[1] == ("end"@, Node::Plain(decimal(attr.end as int))));
    assert(entries[2] == ("slice"@, match text {
                Some(text) => literal_opt_node(byte_range(text, attr.start as int, attr.end as int)),
                None => Node::Null,
            }));
    assert(entries[3] == ("effects_debug"@, effects_node(attr.effects@)));
    assert(keys_of(entries) =~= Seq::empty()
        .push("start"@)
        .push("end"@)
        .push("slice"@)
        .push("effects_debug"@));
}

/// The text of a component comes with its attributes, one for one and in order.
pub proof fn law_text_fields(text: Option<Seq<char>>, attrs: Seq<TextAttributes>)
    ensures
        text_entries(text, attrs).len() == 2,
        text_entries(text, attrs)[0] == ("text"@, literal_opt_node(text)),
        text_entries(text, attrs)[1].0 == "attributes"@,
        attrs.len() == 0 ==> text_entries(text, attrs)[1].1 == Node::EmptyList,
        attrs.len() > 0 ==> ({
            let value = text_entries(text, attrs)[1].1;
            let items = value->List_0;
            &&& value is List
            &&& items.len() == attrs.len()
            &&& forall|i: int|
                0 <= i < attrs.len() ==> #[trigger] items[i] == attribute_node(text, attrs[i])
        }),
{
}

/// An attachment is written with all that is known of it.
pub proof fn law_attachment_fields(attachment: Attachment)
    ensures
        ({
            let entries = attachment_entries(attachment);
            &&& keys_of(entries) == Seq::empty()
                .push("rowid"@)
                .push("filename"@)
                .push("transfer_name"@)
                .push("uti"@)
                .push("mime_type"@)
                .push("total_bytes"@)
                .push("is_sticker"@)
                .push("hide_attachment"@)
                .push("emoji_description"@)
                .push("path"@)
                .push("sticker"@)
            &&& entries.contains(("rowid"@, Node::Plain(decimal(attachment.rowid as int))))
            &&& entries.contains(("filename"@, opt_str_node(attachment.filename.deep_view())))
            &&& entries.contains(("transfer_name"@, opt_str_node(attachment.transfer_name.deep_view())))
            &&& entries.contains(("uti"@, opt_str_node(attachment.uti.deep_view())))
            &&& entries.contains(("mime_type"@, opt_str_node(attachment.mime_type.deep_view())))
            &&& entries.contains(("total_bytes"@, Node::Plain(decimal(attachment.total_bytes as int))))
            &&& entries.contains(("is_sticker"@, Node::Plain(if attachment.is_sticker { "true"@ } else { "false"@ })))
            &&& entries.contains(("hide_attachment"@, Node::Plain(decimal(attachment.hide_attachment as int))))
            &&& entries.contains(("emoji_description"@, opt_str_node(attachment.emoji_description.deep_view())))
            &&& entries.contains(("path"@, Node::Quoted(attachment.path@)))
            &&& entries.contains(("sticker"@, sticker_node(attachment)))
        }),
{
    let entries = attachment_entries(attachment);
    assert(entries[0] == ("rowid"@, Node::Plain(decimal(attachment.rowid as int))));
    assert(entries[1] == ("filename"@, opt_str_node(attachment.filename.deep_view())));
    assert(entries[2] == ("transfer_name"@, opt_str_node(attachment.transfer_name.deep_view())));
    assert(entries[3] == ("uti"@, opt_str_node(attachment.uti.deep_view())));
    assert(entries[4] == ("mime_type"@, opt_str_node(attachment.mime_type.deep_view())));
    assert(entries[5] == ("total_bytes"@, Node::Plain(decimal(attachment.total_bytes as int))));
    assert(entries[6] == ("is_sticker"@, Node::Plain(if attachment.is_sticker { "true"@ } else { "false"@ })));
    assert(entries[7] == ("hide_attachment"@, Node::Plain(decimal(attachment.hide_attachment as int))));
    assert(entries[8] == ("emoji_description"@, opt_str_node(attachment.emoji_description.deep_view())));
    assert(entries[9] == ("path"@, Node::Quoted(attachment.path@)));
    assert(entries[10] == ("sticker"@, sticker_node(attachment)));
    assert(keys_of(entries) =~= Seq::empty()
        .push("rowid"@)
        .push("filename"@)
        .push("transfer_name"@)
        .push("uti"@)
        .push("mime_type"@)
        .push("total_bytes"@)
        .push("is_sticker"@)
        .push("hide_attachment"@)
        .push("emoji_description"@)
        .push("path"@)
        .push("sticker"@));
}

/// A sticker says where it comes from.
pub proof fn law_sticker_fields(attachment: Attachment)
    requires
        attachment.is_sticker,
    ensures
        ({
            let node = sticker_node(attachment);
            let entries = node->Mapping_0;
            &&& node is Mapping
            &&& keys_of(entries) == Seq::empty()
                .push("source_debug"@)
                .push("application_name"@)
            &&& entries.contains(("source_debug"@, opt_str_node(attachment.sticker_source.deep_view())))
            &&& entries.contains(("application_name"@, opt_str_node(attachment.sticker_application.deep_view())))
        }),
{
    let entries = (sticker_node(attachment))->Mapping_0;
    assert(entries[0] == ("source_debug"@, opt_str_node(attachment.sticker_source.deep_view())));
    assert(entries[1] == ("application_name"@, opt_str_node(attachment.sticker_application.deep_view())));
    assert(keys_of(entries) =~= Seq::empty()
        .push("source_debug"@)
        .push("application_name"@));
}

/// An attachment that is no sticker says nothing of where a sticker comes from.
pub proof fn law_no_sticker(attachment: Attachment)
    requires
        !attachment.is_sticker,
    ensures
        attachment_entries(attachment).contains(("sticker"@, Node::Null)),
{
    assert(attachment_entries(attachment)[10] == ("sticker"@, Node::Null));
}

/// What the text says of an attachment is written field by field.
pub proof fn law_meta_fields(meta: AttachmentMeta)
    ensures
        ({
            let entries = meta_entries(meta);
            &&& keys_of(entries) == Seq::empty()
                .push("guid"@)
                .push("transcription"@)
                .push("height"@)
                .push("width"@)
                .push("name"@)
            &&& entries.contains(("guid"@, opt_str_node(meta.guid.deep_view())))
            &&& entries.contains(("transcription"@, literal_opt_node(meta.transcription.deep_view())))
            &&& entries.contains(("height"@, opt_number_node(meta.height.deep_view())))
            &&& entries.contains(("width"@, opt_number_node(meta.width.deep_view())))
            &&& entries.contains(("name"@, opt_str_node(meta.name.deep_view())))
        }),
{
    let entries = meta_entries(meta);
    assert(entries[0] == ("guid"@, opt_str_node(meta.guid.deep_view())));
    assert(entries[1] == ("transcription"@, literal_opt_node(meta.transcription.deep_view())));
    assert(entries[2] == ("height"@, opt_number_node(meta.height.deep_view())));
    assert(entries[3] == ("width"@, opt_number_node(meta.width.deep_view())));
    assert(entries[4] == ("name"@, opt_str_node(meta.name.deep_view())));
    assert(keys_of(entries) =~= Seq::empty()
        .push("guid"@)
        .push("transcription"@)
        .push("height"@)
        .push("width"@)
        .push("name"@));
}

/// An attachment comes with what the text says of it.
pub proof fn law_attachment_with_meta(attachment: Attachment, meta: AttachmentMeta)
    ensures
        attachment_component_entries(attachment, meta).len() == 2,
        attachment_component_entries(attachment, meta)[0] == (
            "attachment"@,
            Node::Mapping(attachment_entries(attachment)),
        ),
        attachment_component_entries(attachment, meta)[1] == (
            "meta"@,
            Node::Mapping(meta_entries(meta)),
        ),
{
}

proof fn lemma_attachments_counted(components: Seq<Component>, shows: spec_fn(Component) -> bool)
    requires
        forall|component: Component| #[trigger]
            shows(component) == (component.body is Attachment),
    ensures
        attachments_among(components) == components.filter(shows).len(),
    decreases components.len(),
{
    reveal(Seq::filter);
    if components.len() > 0 {
        lemma_attachments_counted(components.drop_last(), shows);
    }
}

/// The attachment components take the attachments in order, and no other
/// component takes one: the attachment of a component is the one that has as
/// many before it as there are attachment components before the component.
pub proof fn law_attachments_in_order(
    components: Seq<Component>,
    attachments: Seq<Attachment>,
    i: int,
)
    requires
        0 <= i < components.len(),
    ensures
        ({
            let before = components.take(i).filter(
                |component: Component| component.body is Attachment,
            ).len() as int;
            attachment_of(components, attachments, i) == if before < attachments.len() {
                Some(attachments[before])
            } else {
                None
            }
        }),
{
    lemma_attachments_counted(
        components.take(i),
        |component: Component| component.body is Attachment,
    );
}

/// There is an item for each component, in the order of the bubbles. A text has
/// the text of the message, an attachment its own attachment or says that there
/// is none, an app its name, and a retracted part nothing besides.
pub proof fn law_components_in_bubble_order(message: Message, no_filename: Seq<char>, i: int)
    requires
        0 <= i < message.components@.len(),
    ensures
        component_nodes(message, no_filename).len() == message.components@.len(),
        component_nodes(message, no_filename)[i] is Mapping,
        ({
            let entries = component_nodes(message, no_filename)[i]->Mapping_0;
            let rest = entries.drop_first();
            let before = message.components@.take(i).filter(
                |component: Component| component.body is Attachment,
            ).len() as int;
            &&& entries.len() > 0
            &&& match message.components@[i].body {
                BubbleComponent::Text(attrs) => entries[0] == ("kind"@, Node::Quoted("text"@))
                    && rest == text_entries(message.text.deep_view(), attrs@),
                BubbleComponent::Attachment(meta) => entries[0] == (
                    "kind"@,
                    Node::Quoted("attachment"@),
                ) && if before < message.attachments@.len() {
                    rest == attachment_component_entries(message.attachments@[before], meta)
                } else {
                    rest == Seq::empty().push(("attachment"@, Node::Null)).push(
                        ("meta"@, Node::Null),
                    ).push(("error"@, Node::Quoted(no_filename)))
                },
                BubbleComponent::App => entries[0] == ("kind"@, Node::Quoted("app"@)) && rest
                    == seq![
                    ("balloon_bundle_id"@, opt_str_node(message.balloon_bundle_id.deep_view())),
                ],
                BubbleComponent::Retracted => entries[0] == ("kind"@, Node::Quoted("retracted"@))
                    && rest.len() == 0,
            }
        }),
{
    let entries = component_nodes(message, no_filename)[i]->Mapping_0;
    law_attachments_in_order(message.components@, message.attachments@, i);
    match message.components@[i].body {
        BubbleComponent::Text(attrs) => {
            assert(entries.drop_first() =~= text_entries(message.text.deep_view(), attrs@));
        },
        BubbleComponent::Attachment(meta) => {
            match attachment_of(message.components@, message.attachments@, i) {
                Some(attachment) => {
                    assert(entries.drop_first() =~= attachment_component_entries(attachment, meta));
                },
                None => {
                    assert(entries.drop_first() =~= missing_attachment_entries(no_filename));
                },
            }
        },
        BubbleComponent::App => {
            assert(entries.drop_first() =~= seq![
                ("balloon_bundle_id"@, opt_str_node(message.balloon_bundle_id.deep_view())),
            ]);
        },
        BubbleComponent::Retracted => {},
    }
}

} // verus!
