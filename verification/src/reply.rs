//! The replies to a message.
use vstd::prelude::*;

use crate::export::YAML;
use crate::record::{AttachmentRef, Message, ReplyGroup, ReplyMessage};
use crate::rendered::reply_text;
use crate::scalar::{
    bool_node, borrow, int_node, literal_opt_node, opt_str_node, write_item_i32, write_item_usize,
    write_key, write_kv_bool, write_kv_empty_list, write_kv_i32, write_kv_literal_opt_str,
    write_kv_literal_str, write_kv_opt_str, write_kv_str,
};
use crate::tapback::{sent_node, write_sent};
use crate::text::{decimal, indent};
use crate::tree::{
    entry_text, item_text, items_text, keys_of, lemma_item_at, lemma_list, lemma_next_entry, lemma_next_item,
    lemma_nothing, lemma_record, record, Node,
};

verus! {

/// An attachment, by where the export has it.
pub open spec fn attachment_item(rowid: i32, path: Seq<char>) -> Node {
    record(
        ("rowid"@, int_node(rowid as int)),
        Seq::empty().push(("path"@, Node::Quoted(path))),
    )
}

/// Attachments, by where the export has them.
pub open spec fn attachment_items(attachments: Seq<AttachmentRef>) -> Seq<Node> {
    attachments.map_values(
        |attachment: AttachmentRef| attachment_item(attachment.rowid, attachment.path@),
    )
}

/// A list of attachments.
pub open spec fn attachments_node(items: Seq<Node>) -> Node {
    if items.len() == 0 {
        Node::EmptyList
    } else {
        Node::List(items)
    }
}

/// Appends an attachment, by where the export has it.
pub(crate) fn write_attachment_item(out: &mut String, spaces: usize, rowid: i32, path: &str)
    requires
        spaces + 2 <= usize::MAX,
    ensures
        final(out)@ == old(out)@ + item_text(attachment_item(rowid, path@), spaces as nat),
{
    broadcast use lemma_next_entry;

    let inner: usize = spaces + 2;
    write_item_i32(out, spaces, "rowid", rowid);
    proof {
        lemma_nothing(out@, inner as nat);
    }
    write_kv_str(out, inner, "path", path);
    proof {
        lemma_record(
            old(out)@,
            ("rowid"@, int_node(rowid as int)),
            Seq::empty().push(("path"@, Node::Quoted(path@))),
            spaces as nat,
        );
    }
}

/// Appends the attachments of a reply.
fn write_reply_attachments(out: &mut String, attachments: &Vec<AttachmentRef>)
    ensures
        final(out)@ == old(out)@ + entry_text(
            "attachments"@,
            attachments_node(attachment_items(attachments@)),
            8,
        ),
{
    if attachments.len() == 0 {
        write_kv_empty_list(out, 8, "attachments");
        return;
    }
    write_key(out, 8, "attachments");
    let ghost head = out@;
    let ghost nodes = attachment_items(attachments@);
    proof {
        lemma_nothing(head, 10);
        assert(nodes.take(0) =~= Seq::empty());
    }
    let mut i: usize = 0;
    while i < attachments.len()
        invariant
            i <= attachments.len(),
            nodes == attachment_items(attachments@),
            out@ == head + items_text(nodes.take(i as int), 10),
        decreases attachments.len() - i,
    {
        write_attachment_item(out, 10, attachments[i].rowid, attachments[i].path.as_str());
        proof {
            lemma_item_at(head, nodes, i as int, 10);
        }
        i = i + 1;
    }
    proof {
        assert(nodes.take(i as int) =~= nodes);
        lemma_list(old(out)@, "attachments"@, nodes, 8);
    }
}

/// A reply to the part of a message with index `part_index`.
pub open spec fn reply_node(part_index: usize, reply: ReplyMessage) -> Node {
    record(("part_index"@, int_node(part_index as int)), reply_entries(reply))
}

/// What is written of a reply below its part.
pub open spec fn reply_entries(reply: ReplyMessage) -> Seq<(Seq<char>, Node)> {
    Seq::empty()
        .push(("guid"@, Node::Quoted(reply.guid@)))
        .push(("rowid"@, int_node(reply.rowid as int)))
        .push(("is_from_me"@, bool_node(reply.is_from_me)))
        .push(("sender"@, Node::Quoted(reply.sender@)))
        .push(("timestamps"@, sent_node(reply.sent)))
        .push(("text"@, literal_opt_node(reply.text.deep_view())))
        .push(("thread_originator_guid"@, opt_str_node(reply.thread_originator_guid.deep_view())))
        .push(("thread_originator_part"@, opt_str_node(reply.thread_originator_part.deep_view())))
        .push(("attachments"@, attachments_node(attachment_items(reply.attachments@))))
        .push(("rendered"@, Node::Literal(reply_text(reply))))
}

/// The replies to one part of a message; the reactions among them are left out.
pub open spec fn part_nodes(part_index: usize, replies: Seq<ReplyMessage>) -> Seq<Node>
    decreases replies.len(),
{
    if replies.len() == 0 {
        Seq::empty()
    } else if replies.last().is_tapback {
        part_nodes(part_index, replies.drop_last())
    } else {
        part_nodes(part_index, replies.drop_last()).push(reply_node(part_index, replies.last()))
    }
}

/// The replies, part by part.
pub open spec fn reply_nodes(groups: Seq<ReplyGroup>) -> Seq<Node>
    decreases groups.len(),
{
    if groups.len() == 0 {
        Seq::empty()
    } else {
        reply_nodes(groups.drop_last()) + part_nodes(
            groups.last().part_index,
            groups.last().replies@,
        )
    }
}

/// The replies to a message.
pub open spec fn replies_node(message: Message) -> Node {
    if message.replies@.len() == 0 {
        Node::EmptyListBelow
    } else {
        Node::List(reply_nodes(message.replies@))
    }
}

impl<'a> YAML<'a> {
    /// Appends a reply.
    fn write_reply(&self, out: &mut String, part_index: usize, reply: &ReplyMessage)
        ensures
            final(out)@ == old(out)@ + item_text(reply_node(part_index, *reply), 6),
    {
        broadcast use lemma_next_entry;

        write_item_usize(out, 6, "part_index", part_index);
        proof {
            lemma_nothing(out@, 8);
        }
        write_kv_str(out, 8, "guid", reply.guid.as_str());
        write_kv_i32(out, 8, "rowid", reply.rowid);
        write_kv_bool(out, 8, "is_from_me", reply.is_from_me);
        write_kv_str(out, 8, "sender", reply.sender.as_str());
        write_sent(out, &reply.sent);
        write_kv_literal_opt_str(out, 8, "text", borrow(&reply.text));
        write_kv_opt_str(out, 8, "thread_originator_guid", borrow(&reply.thread_originator_guid));
        write_kv_opt_str(out, 8, "thread_originator_part", borrow(&reply.thread_originator_part));
        write_reply_attachments(out, &reply.attachments);
        let rendered = self.rendered_reply_block(reply);
        write_kv_literal_str(out, 8, "rendered", rendered.as_str());
        proof {
            lemma_record(
                old(out)@,
                ("part_index"@, int_node(part_index as int)),
                reply_entries(*reply),
                6,
            );
        }
    }

    /// Appends the replies to a message.
    pub fn write_replies(&self, out: &mut String, message: &Message)
        ensures
            final(out)@ == old(out)@ + entry_text("replies"@, replies_node(*message), 4),
    {
        let ghost start = out@;
        let groups = &message.replies;
        write_key(out, 4, "replies");
        let ghost head = out@;
        if groups.len() == 0 {
            indent(out, 6);
            out.append("[]\n");
            return;
        }
        proof {
            lemma_nothing(head, 6);
            assert(reply_nodes(groups@.take(0)) =~= Seq::empty());
        }
        let mut i: usize = 0;
        while i < groups.len()
            invariant
                i <= groups.len(),
                out@ == head + items_text(reply_nodes(groups@.take(i as int)), 6),
            decreases groups.len() - i,
        {
            let group = &groups[i];
            let ghost done = reply_nodes(groups@.take(i as int));
            proof {
                assert(groups@.take(i + 1).drop_last() =~= groups@.take(i as int));
                assert(done + part_nodes(group.part_index, group.replies@.take(0)) =~= done);
            }
            let mut j: usize = 0;
            while j < group.replies.len()
                invariant
                    j <= group.replies.len(),
                    out@ == head + items_text(
                        done + part_nodes(group.part_index, group.replies@.take(j as int)),
                        6,
                    ),
                decreases group.replies.len() - j,
            {
                let reply = &group.replies[j];
                let ghost now = done + part_nodes(group.part_index, group.replies@.take(j as int));
                proof {
                    assert(group.replies@.take(j + 1).drop_last() =~= group.replies@.take(
                        j as int,
                    ));
                }
                if !reply.is_tapback {
                    self.write_reply(out, group.part_index, reply);
                    proof {
                        let node = reply_node(group.part_index, *reply);
                        lemma_next_item(head, now, node, 6);
                        assert(done + part_nodes(group.part_index, group.replies@.take(j + 1))
                            =~= now.push(node));
                    }
                }
                j = j + 1;
            }
            proof {
                assert(group.replies@.take(j as int) =~= group.replies@);
            }
            i = i + 1;
        }
        proof {
            assert(groups@.take(i as int) =~= groups@);
            lemma_list(start, "replies"@, reply_nodes(groups@), 4);
        }
    }
}

/// Attachments are listed one for one, in order, each by its row and its path;
/// where there are none, the list is empty.
pub proof fn law_attachments_listed(attachments: Seq<AttachmentRef>, items: Seq<Node>)
    ensures
        attachment_items(attachments).len() == attachments.len(),
        forall|i: int|
            0 <= i < attachments.len() ==> #[trigger] attachment_items(attachments)[i]
                == Node::Mapping(
                seq![
                    ("rowid"@, Node::Plain(decimal(attachments[i].rowid as int))),
                    ("path"@, Node::Quoted(attachments[i].path@)),
                ],
            ),
        attachments_node(items) == if items.len() == 0 {
            Node::EmptyList
        } else {
            Node::List(items)
        },
{
    assert forall|i: int| 0 <= i < attachments.len() implies #[trigger] attachment_items(
        attachments,
    )[i] == Node::Mapping(
        seq![
            ("rowid"@, Node::Plain(decimal(attachments[i].rowid as int))),
            ("path"@, Node::Quoted(attachments[i].path@)),
        ],
    ) by {
        law_attachment_item(attachments[i].rowid, attachments[i].path@);
    }
}

/// An attachment in a list says its row and its path.
pub proof fn law_attachment_item(rowid: i32, path: Seq<char>)
    ensures
        attachment_item(rowid, path) == Node::Mapping(
            seq![
                ("rowid"@, Node::Plain(decimal(rowid as int))),
                ("path"@, Node::Quoted(path)),
            ],
        ),
{
    assert(attachment_item(rowid, path)->Mapping_0 =~= seq![
        ("rowid"@, Node::Plain(decimal(rowid as int))),
        ("path"@, Node::Quoted(path)),
    ]);
}

/// A reply is written with its part and all that is known of it.
pub proof fn law_reply_fields(part_index: usize, reply: ReplyMessage)
    ensures
        ({
            let node = reply_node(part_index, reply);
            let entries = node->Mapping_0;
            &&& node is Mapping
            &&& keys_of(entries) == Seq::empty()
                .push("part_index"@)
                .push("guid"@)
                .push("rowid"@)
                .push("is_from_me"@)
                .push("sender"@)
                .push("timestamps"@)
                .push("text"@)
                .push("thread_originator_guid"@)
                .push("thread_originator_part"@)
                .push("attachments"@)
                .push("rendered"@)
            &&& entries.contains(("part_index"@, Node::Plain(decimal(part_index as int))))
            &&& entries.contains(("guid"@, Node::Quoted(reply.guid@)))
            &&& entries.contains(("rowid"@, Node::Plain(decimal(reply.rowid as int))))
            &&& entries.contains(("is_from_me"@, Node::Plain(if reply.is_from_me { "true"@ } else { "false"@ })))
            &&& entries.contains(("sender"@, Node::Quoted(reply.sender@)))
            &&& entries.contains(("timestamps"@, sent_node(reply.sent)))
            &&& entries.contains(("text"@, literal_opt_node(reply.text.deep_view())))
            &&& entries.contains(("thread_originator_guid"@, opt_str_node(reply.thread_originator_guid.deep_view())))
            &&& entries.contains(("thread_originator_part"@, opt_str_node(reply.thread_originator_part.deep_view())))
            &&& entries.contains(("attachments"@, attachments_node(attachment_items(reply.attachments@))))
            &&& entries.contains(("rendered"@, Node::Literal(reply_text(reply))))
        }),
{
    let entries = (reply_node(part_index, reply))->Mapping_0;
    let rest = reply_entries(reply);
    assert(entries =~= seq![("part_index"@, int_node(part_index as int))] + rest);
    assert(entries[0] == ("part_index"@, Node::Plain(decimal(part_index as int))));
    assert(entries[1] == ("guid"@, Node::Quoted(reply.guid@)));
    assert(entries[2] == ("rowid"@, Node::Plain(decimal(reply.rowid as int))));
    assert(entries[3] == ("is_from_me"@, Node::Plain(if reply.is_from_me { "true"@ } else { "false"@ })));
    assert(entries[4] == ("sender"@, Node::Quoted(reply.sender@)));
    assert(entries[5] == ("timestamps"@, sent_node(reply.sent)));
    assert(entries[6] == ("text"@, literal_opt_node(reply.text.deep_view())));
    assert(entries[7] == ("thread_originator_guid"@, opt_str_node(reply.thread_originator_guid.deep_view())));
    assert(entries[8] == ("thread_originator_part"@, opt_str_node(reply.thread_originator_part.deep_view())));
    assert(entries[9] == ("attachments"@, attachments_node(attachment_items(reply.attachments@))));
    assert(entries[10] == ("rendered"@, Node::Literal(reply_text(reply))));
    assert(keys_of(entries) =~= Seq::empty()
        .push("part_index"@)
        .push("guid"@)
        .push("rowid"@)
        .push("is_from_me"@)
        .push("sender"@)
        .push("timestamps"@)
        .push("text"@)
        .push("thread_originator_guid"@)
        .push("thread_originator_part"@)
        .push("attachments"@)
        .push("rendered"@));
}

proof fn lemma_part_filtered(
    part_index: usize,
    replies: Seq<ReplyMessage>,
    kept: spec_fn(ReplyMessage) -> bool,
    node: spec_fn(ReplyMessage) -> Node,
)
    requires
        forall|reply: ReplyMessage| #[trigger] kept(reply) == !reply.is_tapback,
        forall|reply: ReplyMessage| #[trigger] node(reply) == reply_node(part_index, reply),
    ensures
        part_nodes(part_index, replies) == replies.filter(kept).map_values(node),
    decreases replies.len(),
{
    reveal(Seq::filter);
    if replies.len() > 0 {
        lemma_part_filtered(part_index, replies.drop_last(), kept, node);
    }
    assert(part_nodes(part_index, replies) =~= replies.filter(kept).map_values(node));
}

/// Of the replies to one part, those are written that are no reactions: all of
/// them, and in order.
pub proof fn law_replies_of_part(part_index: usize, replies: Seq<ReplyMessage>)
    ensures
        part_nodes(part_index, replies) == replies.filter(
            |reply: ReplyMessage| !reply.is_tapback,
        ).map_values(|reply: ReplyMessage| reply_node(part_index, reply)),
{
    lemma_part_filtered(
        part_index,
        replies,
        |reply: ReplyMessage| !reply.is_tapback,
        |reply: ReplyMessage| reply_node(part_index, reply),
    );
}

/// Replies are written part after part, and those of every part.
pub proof fn law_replies_part_by_part(a: Seq<ReplyGroup>, b: Seq<ReplyGroup>, group: ReplyGroup)
    ensures
        reply_nodes(a + b) == reply_nodes(a) + reply_nodes(b),
        reply_nodes(seq![group]) == part_nodes(group.part_index, group.replies@),
    decreases b.len(),
{
    let one = seq![group];
    assert(one.drop_last() =~= Seq::empty());
    assert(reply_nodes(one.drop_last()) =~= Seq::empty());
    assert(reply_nodes(one) =~= part_nodes(group.part_index, group.replies@));
    if b.len() == 0 {
        assert(a + b =~= a);
    } else {
        law_replies_part_by_part(a, b.drop_last(), group);
        assert((a + b).drop_last() =~= a + b.drop_last());
    }
    assert(reply_nodes(a + b) =~= reply_nodes(a) + reply_nodes(b));
}

/// Where no part has replies, an empty list stands below the key; otherwise
/// there is a list of them.
pub proof fn law_replies_written(message: Message)
    ensures
        message.replies@.len() == 0 ==> replies_node(message) == Node::EmptyListBelow,
        message.replies@.len() > 0 ==> replies_node(message) == Node::List(
            reply_nodes(message.replies@),
        ),
{
}

} // verus!
