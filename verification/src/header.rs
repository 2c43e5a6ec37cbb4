//! The top of a file, up to its first message.
use vstd::prelude::*;

use crate::component::{quoted_nodes, write_items};
use crate::record::{Chat, ExportInfo};
use crate::scalar::{
    bool_node, borrow, int_node, opt_str_node, write_item, write_key, write_kv_bool, write_kv_i32,
    write_kv_opt_str, write_kv_str,
};
use crate::text::{decimal, spaces};
use crate::tree::{
    entries_text, entry_text, item_text, keys_of, lemma_list, lemma_mapping, lemma_next_entry,
    lemma_next_item, lemma_nothing, Node,
};

verus! {

/// What is said of the export.
pub open spec fn export_entries(info: ExportInfo) -> Seq<(Seq<char>, Node)> {
    Seq::empty()
        .push(("generator"@, Node::Quoted("imessage-exporter"@)))
        .push(("version"@, Node::Quoted(info.version@)))
        .push(("platform"@, Node::Quoted(info.platform@)))
        .push(("db_path"@, Node::Quoted(info.db_path@)))
        .push(("export_path"@, Node::Quoted(info.export_path@)))
        .push(("copy_method"@, Node::Quoted(info.copy_method@)))
}

/// Who takes part in a conversation.
pub open spec fn participant_nodes(chat: Chat) -> Seq<Node> {
    match chat.participants {
        Some(participants) => quoted_nodes(participants@),
        None => Seq::empty().push(Node::Quoted("Unknown"@)),
    }
}

/// What is said of a conversation; messages without one are orphaned.
pub open spec fn conversation_entries(chat: Option<Chat>) -> Seq<(Seq<char>, Node)> {
    match chat {
        Some(chat) => Seq::empty()
            .push(("chat_rowid"@, int_node(chat.rowid as int)))
            .push(("chat_identifier"@, Node::Quoted(chat.chat_identifier@)))
            .push(("service_name"@, opt_str_node(chat.service_name.deep_view())))
            .push(("display_name"@, opt_str_node(chat.display_name.deep_view())))
            .push(("name"@, Node::Quoted(chat.name@)))
            .push(("participants"@, Node::List(participant_nodes(chat)))),
        None => Seq::empty()
            .push(("orphaned"@, bool_node(true)))
            .push(("name"@, Node::Quoted("orphaned"@))),
    }
}

/// The entries of a document before its messages.
pub open spec fn header_entries(info: ExportInfo, chat: Option<Chat>) -> Seq<(Seq<char>, Node)> {
    Seq::empty()
        .push(("export"@, Node::Mapping(export_entries(info))))
        .push(("conversation"@, Node::Mapping(conversation_entries(chat))))
}

/// A whole document: what is said of the export and of the conversation, and
/// the messages.
pub open spec fn document_text(
    info: ExportInfo,
    chat: Option<Chat>,
    messages: Seq<Node>,
) -> Seq<char> {
    "---\n"@ + entries_text(
        header_entries(info, chat).push(("messages"@, Node::List(messages))),
        0,
    )
}

/// What a borrowed conversation is.
pub open spec fn chat_of(chat: Option<&Chat>) -> Option<Chat> {
    match chat {
        Some(chat) => Some(*chat),
        None => None,
    }
}

/// Appends what is said of the export.
fn write_export(out: &mut String, info: &ExportInfo)
    ensures
        final(out)@ == old(out)@ + entry_text("export"@, Node::Mapping(export_entries(*info)), 0),
{
    broadcast use lemma_next_entry;

    write_key(out, 0, "export");
    proof {
        lemma_nothing(out@, 2);
    }
    write_kv_str(out, 2, "generator", "imessage-exporter");
    write_kv_str(out, 2, "version", info.version.as_str());
    write_kv_str(out, 2, "platform", info.platform.as_str());
    write_kv_str(out, 2, "db_path", info.db_path.as_str());
    write_kv_str(out, 2, "export_path", info.export_path.as_str());
    write_kv_str(out, 2, "copy_method", info.copy_method.as_str());
    proof {
        lemma_mapping(old(out)@, "export"@, export_entries(*info), 0);
    }
}

/// Appends who takes part in a conversation.
fn write_participants(out: &mut String, chat: &Chat)
    ensures
        final(out)@ == old(out)@ + entry_text(
            "participants"@,
            Node::List(participant_nodes(*chat)),
            2,
        ),
{
    broadcast use lemma_next_item;

    write_key(out, 2, "participants");
    proof {
        lemma_nothing(out@, 4);
    }
    match &chat.participants {
        Some(participants) => write_items(out, 4, participants),
        None => write_item(out, 4, "Unknown"),
    }
    proof {
        lemma_list(old(out)@, "participants"@, participant_nodes(*chat), 2);
    }
}

/// Appends what is said of a conversation.
fn write_conversation(out: &mut String, chat: Option<&Chat>)
    ensures
        final(out)@ == old(out)@ + entry_text(
            "conversation"@,
            Node::Mapping(conversation_entries(chat_of(chat))),
            0,
        ),
{
    broadcast use lemma_next_entry;

    write_key(out, 0, "conversation");
    let ghost head = out@;
    proof {
        lemma_nothing(head, 2);
    }
    match chat {
        Some(chat) => {
            write_kv_i32(out, 2, "chat_rowid", chat.rowid);
            write_kv_str(out, 2, "chat_identifier", chat.chat_identifier.as_str());
            write_kv_opt_str(out, 2, "service_name", borrow(&chat.service_name));
            write_kv_opt_str(out, 2, "display_name", borrow(&chat.display_name));
            write_kv_str(out, 2, "name", chat.name.as_str());
            write_participants(out, chat);
        },
        None => {
            write_kv_bool(out, 2, "orphaned", true);
            write_kv_str(out, 2, "name", "orphaned");
        },
    }
    proof {
        lemma_mapping(old(out)@, "conversation"@, conversation_entries(chat_of(chat)), 0);
    }
}

/// Appends the top of a file: the document without any messages yet.
pub fn write_yaml_header(out: &mut String, info: &ExportInfo, chatroom: Option<&Chat>)
    ensures
        final(out)@ == old(out)@ + document_text(*info, chat_of(chatroom), Seq::empty()),
        chatroom is None ==> final(out)@ == old(out)@ + document_text(*info, None, Seq::empty()),
        chatroom matches Some(chat) ==> final(out)@ == old(out)@ + document_text(
            *info,
            Some(*chat),
            Seq::empty(),
        ),
{
    broadcast use lemma_next_entry;

    let ghost start = out@;
    out.append("---\n");
    let ghost top = out@;
    proof {
        lemma_nothing(top, 0);
    }
    write_export(out, info);
    write_conversation(out, chatroom);
    let ghost before = out@;
    write_key(out, 0, "messages");
    proof {
        lemma_nothing(out@, 2);
        lemma_list(before, "messages"@, Seq::empty(), 0);
        let entries = header_entries(*info, chat_of(chatroom)).push(
            ("messages"@, Node::List(Seq::empty())),
        );
        assert(out@ == top + entries_text(entries, 0));
        assert(top + entries_text(entries, 0) =~= start + document_text(
            *info,
            chat_of(chatroom),
            Seq::empty(),
        ));
    }
}

/// Appending a message to a document gives the document with that message at
/// the end of its list.
pub proof fn law_append_message(
    info: ExportInfo,
    chat: Option<Chat>,
    messages: Seq<Node>,
    message: Node,
)
    ensures
        document_text(info, chat, messages) + item_text(message, 2) == document_text(
            info,
            chat,
            messages.push(message),
        ),
{
    let key = "messages"@;
    let before = header_entries(info, chat);
    let now = before.push((key, Node::List(messages)));
    let next = before.push((key, Node::List(messages.push(message))));
    let top = "---\n"@ + entries_text(before, 0);
    assert(now.drop_last() =~= before);
    assert(next.drop_last() =~= before);
    lemma_list(top, key, messages, 0);
    lemma_list(top, key, messages.push(message), 0);
    lemma_next_item(top + (spaces(0) + key + ":\n"@), messages, message, 2);
    assert(document_text(info, chat, messages) =~= top + entry_text(key, Node::List(messages), 0));
    assert(document_text(info, chat, messages.push(message)) =~= top + entry_text(
        key,
        Node::List(messages.push(message)),
        0,
    ));
}

/// The top of a file says what made it and from what.
pub proof fn law_export_fields(info: ExportInfo)
    ensures
        ({
            let entries = export_entries(info);
            &&& keys_of(entries) == Seq::empty()
                .push("generator"@)
                .push("version"@)
                .push("platform"@)
                .push("db_path"@)
                .push("export_path"@)
                .push("copy_method"@)
            &&& entries.contains(("generator"@, Node::Quoted("imessage-exporter"@)))
            &&& entries.contains(("version"@, Node::Quoted(info.version@)))
            &&& entries.contains(("platform"@, Node::Quoted(info.platform@)))
            &&& entries.contains(("db_path"@, Node::Quoted(info.db_path@)))
            &&& entries.contains(("export_path"@, Node::Quoted(info.export_path@)))
            &&& entries.contains(("copy_method"@, Node::Quoted(info.copy_method@)))
        }),
{
    let entries = export_entries(info);
    assert(entries[0] == ("generator"@, Node::Quoted("imessage-exporter"@)));
    assert(entries[1] == ("version"@, Node::Quoted(info.version@)));
    assert(entries[2] == ("platform"@, Node::Quoted(info.platform@)));
    assert(entries[3] == ("db_path"@, Node::Quoted(info.db_path@)));
    assert(entries[4] == ("export_path"@, Node::Quoted(info.export_path@)));
    assert(entries[5] == ("copy_method"@, Node::Quoted(info.copy_method@)));
    assert(keys_of(entries) =~= Seq::empty()
        .push("generator"@)
        .push("version"@)
        .push("platform"@)
        .push("db_path"@)
        .push("export_path"@)
        .push("copy_method"@));
}

/// A conversation is written with all that is known of it.
pub proof fn law_conversation_fields(chat: Chat)
    ensures
        ({
            let entries = conversation_entries(Some(chat));
            &&& keys_of(entries) == Seq::empty()
                .push("chat_rowid"@)
                .push("chat_identifier"@)
                .push("service_name"@)
                .push("display_name"@)
                .push("name"@)
                .push("participants"@)
            &&& entries.contains(("chat_rowid"@, Node::Plain(decimal(chat.rowid as int))))
            &&& entries.contains(("chat_identifier"@, Node::Quoted(chat.chat_identifier@)))
            &&& entries.contains(("service_name"@, opt_str_node(chat.service_name.deep_view())))
            &&& entries.contains(("display_name"@, opt_str_node(chat.display_name.deep_view())))
            &&& entries.contains(("name"@, Node::Quoted(chat.name@)))
            &&& entries.contains(("participants"@, Node::List(participant_nodes(chat))))
        }),
{
    let entries = conversation_entries(Some(chat));
    assert(entries[0] == ("chat_rowid"@, Node::Plain(decimal(chat.rowid as int))));
    assert(entries[1] == ("chat_identifier"@, Node::Quoted(chat.chat_identifier@)));
    assert(entries[2] == ("service_name"@, opt_str_node(chat.service_name.deep_view())));
    assert(entries[3] == ("display_name"@, opt_str_node(chat.display_name.deep_view())));
    assert(entries[4] == ("name"@, Node::Quoted(chat.name@)));
    assert(entries[5] == ("participants"@, Node::List(participant_nodes(chat))));
    assert(keys_of(entries) =~= Seq::empty()
        .push("chat_rowid"@)
        .push("chat_identifier"@)
        .push("service_name"@)
        .push("display_name"@)
        .push("name"@)
        .push("participants"@));
}

/// Those who take part are listed one for one, in order; where that is not on
/// record, somebody unknown does.
pub proof fn law_participants_listed(chat: Chat)
    ensures
        chat.participants is None ==> participant_nodes(chat) == seq![Node::Quoted("Unknown"@)],
        chat.participants matches Some(participants) ==> {
            &&& participant_nodes(chat).len() == participants@.len()
            &&& forall|i: int|
                0 <= i < participants@.len() ==> #[trigger] participant_nodes(chat)[i]
                    == Node::Quoted(participants@[i]@)
        },
{
    if chat.participants is None {
        assert(participant_nodes(chat) =~= seq![Node::Quoted("Unknown"@)]);
    }
}

/// Messages without a conversation are said to be orphaned.
pub proof fn law_orphaned_fields()
    ensures
        conversation_entries(None) == seq![
            ("orphaned"@, Node::Plain("true"@)),
            ("name"@, Node::Quoted("orphaned"@)),
        ],
{
    assert(conversation_entries(None) =~= seq![
        ("orphaned"@, Node::Plain("true"@)),
        ("name"@, Node::Quoted("orphaned"@)),
    ]);
}

/// A document is a line of dashes, what is said of the export, what is said of
/// the conversation, and the messages.
pub proof fn law_document_in_order(info: ExportInfo, chat: Option<Chat>, messages: Seq<Node>)
    ensures
        document_text(info, chat, messages) == "---\n"@ + entry_text(
            "export"@,
            Node::Mapping(export_entries(info)),
            0,
        ) + entry_text("conversation"@, Node::Mapping(conversation_entries(chat)), 0) + entry_text(
            "messages"@,
            Node::List(messages),
            0,
        ),
{
    let none = Seq::<(Seq<char>, Node)>::empty();
    let one = none.push(("export"@, Node::Mapping(export_entries(info))));
    let two = one.push(("conversation"@, Node::Mapping(conversation_entries(chat))));
    let all = two.push(("messages"@, Node::List(messages)));
    assert(one.drop_last() =~= none);
    assert(two.drop_last() =~= one);
    assert(all.drop_last() =~= two);
    assert(entries_text(none, 0) =~= Seq::empty());
    assert(header_entries(info, chat) =~= two);
    assert(entries_text(one, 0) =~= entry_text("export"@, Node::Mapping(export_entries(info)), 0));
    assert(entries_text(two, 0) == entries_text(one, 0) + entry_text(
        "conversation"@,
        Node::Mapping(conversation_entries(chat)),
        0,
    ));
    assert(entries_text(all, 0) == entries_text(two, 0) + entry_text(
        "messages"@,
        Node::List(messages),
        0,
    ));
    assert(document_text(info, chat, messages) == "---\n"@ + entries_text(all, 0));
    assert(document_text(info, chat, messages) =~= "---\n"@ + entry_text(
        "export"@,
        Node::Mapping(export_entries(info)),
        0,
    ) + entry_text("conversation"@, Node::Mapping(conversation_entries(chat)), 0) + entry_text(
        "messages"@,
        Node::List(messages),
        0,
    ));
}

} // verus!
