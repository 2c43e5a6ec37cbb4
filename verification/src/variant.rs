//! What a message is.
use vstd::prelude::*;

use crate::export::YAML;
use crate::record::{CustomBalloon, Message, Tapback, TapbackAction, Variant};
use crate::scalar::{
    borrow, int_node, opt_str_node, write_key, write_kv_i32, write_kv_opt_str, write_kv_str,
};
use crate::text::decimal;
use crate::tree::{entries_text, entry_text, lemma_mapping, lemma_next_entry, lemma_nothing, Node};

verus! {

/// The name of an app.
pub open spec fn app_type(balloon: CustomBalloon) -> Seq<char> {
    match balloon {
        CustomBalloon::URL => "url"@,
        CustomBalloon::Handwriting => "handwriting"@,
        CustomBalloon::DigitalTouch => "digital_touch"@,
        CustomBalloon::ApplePay => "apple_pay"@,
        CustomBalloon::Fitness => "fitness"@,
        CustomBalloon::Slideshow => "slideshow"@,
        CustomBalloon::FindMy => "find_my"@,
        CustomBalloon::CheckIn => "check_in"@,
        CustomBalloon::Polls => "polls"@,
        CustomBalloon::Application(_) => "application"@,
    }
}

/// The name of an app.
fn app_type_name(balloon: &CustomBalloon) -> (res: &'static str)
    ensures
        res@ == app_type(*balloon),
{
    match balloon {
        CustomBalloon::URL => "url",
        CustomBalloon::Handwriting => "handwriting",
        CustomBalloon::DigitalTouch => "digital_touch",
        CustomBalloon::ApplePay => "apple_pay",
        CustomBalloon::Fitness => "fitness",
        CustomBalloon::Slideshow => "slideshow",
        CustomBalloon::FindMy => "find_my",
        CustomBalloon::CheckIn => "check_in",
        CustomBalloon::Polls => "polls",
        CustomBalloon::Application(_) => "application",
    }
}

/// The name of what was done with a reaction.
pub open spec fn action(action: TapbackAction) -> Seq<char> {
    match action {
        TapbackAction::Added => "added"@,
        TapbackAction::Removed => "removed"@,
    }
}

/// The name of what was done with a reaction.
fn action_name(action: &TapbackAction) -> (res: &'static str)
    ensures
        res@ == self::action(*action),
{
    match action {
        TapbackAction::Added => "added",
        TapbackAction::Removed => "removed",
    }
}

/// The name of a reaction.
pub open spec fn tapback_type(tapback: Tapback) -> Seq<char> {
    match tapback {
        Tapback::Loved => "loved"@,
        Tapback::Liked => "liked"@,
        Tapback::Disliked => "disliked"@,
        Tapback::Laughed => "laughed"@,
        Tapback::Emphasized => "emphasized"@,
        Tapback::Questioned => "questioned"@,
        Tapback::Sticker => "sticker"@,
        Tapback::Emoji(_) => "emoji"@,
    }
}

/// The name of a reaction.
fn tapback_type_name(tapback: &Tapback) -> (res: &'static str)
    ensures
        res@ == tapback_type(*tapback),
{
    match tapback {
        Tapback::Loved => "loved",
        Tapback::Liked => "liked",
        Tapback::Disliked => "disliked",
        Tapback::Laughed => "laughed",
        Tapback::Emphasized => "emphasized",
        Tapback::Questioned => "questioned",
        Tapback::Sticker => "sticker",
        Tapback::Emoji(_) => "emoji",
    }
}

/// The entries that name a reaction: what was done, which reaction, and the
/// emoji where the reaction is one.
pub open spec fn tapback_entries(
    before: Seq<(Seq<char>, Node)>,
    type_key: Seq<char>,
    done: TapbackAction,
    tapback: Tapback,
) -> Seq<(Seq<char>, Node)> {
    let named = before
        .push(("action"@, Node::Quoted(action(done))))
        .push((type_key, Node::Quoted(tapback_type(tapback))));
    match tapback {
        Tapback::Emoji(emoji) => named.push(("emoji"@, opt_str_node(emoji.deep_view()))),
        _ => named,
    }
}

/// The name of what a message is.
pub open spec fn kind(variant: Variant, is_announcement: bool) -> Seq<char> {
    match variant {
        Variant::Normal => if is_announcement {
            "announcement"@
        } else {
            "normal"@
        },
        Variant::Edited => "edited"@,
        Variant::SharePlay => "shareplay"@,
        Variant::App(_) => "app"@,
        Variant::PollUpdate => "poll_update"@,
        Variant::Vote => "poll_vote"@,
        Variant::Tapback(_, _, _) => "tapback"@,
        Variant::Unknown(_) => "unknown"@,
    }
}

/// The name of what a message is.
fn kind_name(variant: &Variant, is_announcement: bool) -> (res: &'static str)
    ensures
        res@ == kind(*variant, is_announcement),
{
    match variant {
        Variant::Normal => if is_announcement {
            "announcement"
        } else {
            "normal"
        },
        Variant::Edited => "edited",
        Variant::SharePlay => "shareplay",
        Variant::App(_) => "app",
        Variant::PollUpdate => "poll_update",
        Variant::Vote => "poll_vote",
        Variant::Tapback(_, _, _) => "tapback",
        Variant::Unknown(_) => "unknown",
    }
}

/// What a message is, with what is known of a message of that sort.
pub open spec fn variant_entries(message: Message) -> Seq<(Seq<char>, Node)> {
    let named = Seq::empty().push(
        ("kind"@, Node::Quoted(kind(message.variant, message.is_announcement))),
    );
    match message.variant {
        Variant::App(balloon) => named
            .push(("balloon_bundle_id"@, opt_str_node(message.balloon_bundle_id.deep_view())))
            .push(("app_type"@, Node::Quoted(app_type(balloon)))),
        Variant::PollUpdate => named
            .push(("balloon_bundle_id"@, opt_str_node(message.balloon_bundle_id.deep_view()))),
        Variant::Tapback(_, done, tapback) => tapback_entries(
            named,
            "tapback_type"@,
            done,
            tapback,
        ),
        Variant::Unknown(code) => named.push(("code"@, int_node(code as int))),
        _ => named,
    }
}

/// Appends the entries that name a reaction.
pub(crate) fn write_tapback(
    out: &mut String,
    spaces: usize,
    type_key: &str,
    done: &TapbackAction,
    tapback: &Tapback,
    Ghost(head): Ghost<Seq<char>>,
    Ghost(before): Ghost<Seq<(Seq<char>, Node)>>,
)
    requires
        old(out)@ == head + entries_text(before, spaces as nat),
    ensures
        final(out)@ == head + entries_text(
            tapback_entries(before, type_key@, *done, *tapback),
            spaces as nat,
        ),
{
    broadcast use lemma_next_entry;

    write_kv_str(out, spaces, "action", action_name(done));
    write_kv_str(out, spaces, type_key, tapback_type_name(tapback));
    match tapback {
        Tapback::Emoji(emoji) => {
            write_kv_opt_str(out, spaces, "emoji", borrow(emoji));
        },
        _ => {},
    }
}

impl<'a> YAML<'a> {
    /// Appends what a message is.
    pub fn write_variant(&self, out: &mut String, message: &Message)
        ensures
            final(out)@ == old(out)@ + entry_text(
                "variant"@,
                Node::Mapping(variant_entries(*message)),
                4,
            ),
    {
        broadcast use lemma_next_entry;

        write_key(out, 4, "variant");
        let ghost head = out@;
        let ghost none: Seq<(Seq<char>, Node)> = Seq::empty();
        proof {
            lemma_nothing(head, 6);
        }
        write_kv_str(out, 6, "kind", kind_name(&message.variant, message.is_announcement));
        let ghost named = none.push(
            ("kind"@, Node::Quoted(kind(message.variant, message.is_announcement))),
        );
        match &message.variant {
            Variant::App(balloon) => {
                write_kv_opt_str(out, 6, "balloon_bundle_id", borrow(&message.balloon_bundle_id));
                write_kv_str(out, 6, "app_type", app_type_name(balloon));
            },
            Variant::PollUpdate => {
                write_kv_opt_str(out, 6, "balloon_bundle_id", borrow(&message.balloon_bundle_id));
            },
            Variant::Tapback(_, done, tapback) => {
                write_tapback(out, 6, "tapback_type", done, tapback, Ghost(head), Ghost(named));
            },
            Variant::Unknown(code) => {
                write_kv_i32(out, 6, "code", *code);
            },
            _ => {},
        }
        proof {
            lemma_mapping(old(out)@, "variant"@, variant_entries(*message), 4);
        }
    }
}

/// The entries that name a reaction come after those that were there. The first
/// says what was done, the second which reaction it is, whatever was done, and a
/// third which emoji, only where the reaction is one.
pub proof fn law_reaction_named(
    before: Seq<(Seq<char>, Node)>,
    type_key: Seq<char>,
    done: TapbackAction,
    tapback: Tapback,
)
    ensures
        ({
            let entries = tapback_entries(before, type_key, done, tapback);
            let n = before.len() as int;
            &&& before.is_prefix_of(entries)
            &&& entries.len() == n + if tapback is Emoji { 3int } else { 2int }
            &&& entries[n].0 == "action"@
            &&& done is Added <==> entries[n].1 == Node::Quoted("added"@)
            &&& done is Removed <==> entries[n].1 == Node::Quoted("removed"@)
            &&& entries[n + 1].0 == type_key
            &&& tapback is Loved <==> entries[n + 1].1 == Node::Quoted("loved"@)
            &&& tapback is Liked <==> entries[n + 1].1 == Node::Quoted("liked"@)
            &&& tapback is Disliked <==> entries[n + 1].1 == Node::Quoted("disliked"@)
            &&& tapback is Laughed <==> entries[n + 1].1 == Node::Quoted("laughed"@)
            &&& tapback is Emphasized <==> entries[n + 1].1 == Node::Quoted("emphasized"@)
            &&& tapback is Questioned <==> entries[n + 1].1 == Node::Quoted("questioned"@)
            &&& tapback is Sticker <==> entries[n + 1].1 == Node::Quoted("sticker"@)
            &&& tapback is Emoji <==> entries[n + 1].1 == Node::Quoted("emoji"@)
            &&& tapback matches Tapback::Emoji(emoji) ==> entries[n + 2] == (
                "emoji"@,
                match emoji {
                    Some(emoji) => Node::Quoted(emoji@),
                    None => Node::Null,
                },
            )
        }),
{
    reveal_strlit("added");
    reveal_strlit("removed");
    lemma_reaction_names(tapback);
    assert("added"@.len() != "removed"@.len());
    let entries = tapback_entries(before, type_key, done, tapback);
    assert(entries[before.len() as int].1 == Node::Quoted(action(done)));
    assert(entries[before.len() as int + 1].1 == Node::Quoted(tapback_type(tapback)));
}

/// A name belongs to one reaction.
proof fn lemma_reaction_names(tapback: Tapback)
    ensures
        tapback is Loved <==> tapback_type(tapback) == "loved"@,
        tapback is Liked <==> tapback_type(tapback) == "liked"@,
        tapback is Disliked <==> tapback_type(tapback) == "disliked"@,
        tapback is Laughed <==> tapback_type(tapback) == "laughed"@,
        tapback is Emphasized <==> tapback_type(tapback) == "emphasized"@,
        tapback is Questioned <==> tapback_type(tapback) == "questioned"@,
        tapback is Sticker <==> tapback_type(tapback) == "sticker"@,
        tapback is Emoji <==> tapback_type(tapback) == "emoji"@,
{
    reveal_strlit("loved");
    reveal_strlit("liked");
    reveal_strlit("disliked");
    reveal_strlit("laughed");
    reveal_strlit("emphasized");
    reveal_strlit("questioned");
    reveal_strlit("sticker");
    reveal_strlit("emoji");
    assert("loved"@.len() == 5 && "loved"@[0] == 'l' && "loved"@[1] == 'o');
    assert("liked"@.len() == 5 && "liked"@[0] == 'l' && "liked"@[1] == 'i');
    assert("disliked"@.len() == 8 && "disliked"@[0] == 'd' && "disliked"@[1] == 'i');
    assert("laughed"@.len() == 7 && "laughed"@[0] == 'l' && "laughed"@[1] == 'a');
    assert("emphasized"@.len() == 10 && "emphasized"@[0] == 'e' && "emphasized"@[1] == 'm');
    assert("questioned"@.len() == 10 && "questioned"@[0] == 'q' && "questioned"@[1] == 'u');
    assert("sticker"@.len() == 7 && "sticker"@[0] == 's' && "sticker"@[1] == 't');
    assert("emoji"@.len() == 5 && "emoji"@[0] == 'e' && "emoji"@[1] == 'm');
}

/// Two reactions of which the same is written are the same reaction.
pub proof fn law_reactions_told_apart(
    before: Seq<(Seq<char>, Node)>,
    type_key: Seq<char>,
    done: TapbackAction,
    tapback: Tapback,
    other_done: TapbackAction,
    other: Tapback,
)
    requires
        tapback_entries(before, type_key, done, tapback) == tapback_entries(
            before,
            type_key,
            other_done,
            other,
        ),
    ensures
        done == other_done,
        tapback is Loved <==> other is Loved,
        tapback is Liked <==> other is Liked,
        tapback is Disliked <==> other is Disliked,
        tapback is Laughed <==> other is Laughed,
        tapback is Emphasized <==> other is Emphasized,
        tapback is Questioned <==> other is Questioned,
        tapback is Sticker <==> other is Sticker,
        tapback is Emoji <==> other is Emoji,
        tapback is Emoji ==> (tapback->Emoji_0).deep_view() == (other->Emoji_0).deep_view(),
{
    law_reaction_named(before, type_key, done, tapback);
    law_reaction_named(before, type_key, other_done, other);
    let entries = tapback_entries(before, type_key, done, tapback);
    assert(entries[before.len() as int].1 == Node::Quoted(action(done)));
    assert(entries[before.len() as int].1 == Node::Quoted(action(other_done)));
}

/// What a message is, in its first entry; the entries that come after depend on
/// that. An app names itself and its sort, a change to a poll its app, a reaction
/// itself, and a message of an unknown type its code.
pub proof fn law_variant_named(message: Message)
    ensures
        ({
            let entries = variant_entries(message);
            let variant = message.variant;
            let bundle = (
                "balloon_bundle_id"@,
                match message.balloon_bundle_id {
                    Some(id) => Node::Quoted(id@),
                    None => Node::Null,
                },
            );
            &&& entries.len() > 0
            &&& entries[0] == ("kind"@, Node::Quoted(match variant {
                Variant::Normal if message.is_announcement => "announcement"@,
                Variant::Normal => "normal"@,
                Variant::Edited => "edited"@,
                Variant::SharePlay => "shareplay"@,
                Variant::App(_) => "app"@,
                Variant::PollUpdate => "poll_update"@,
                Variant::Vote => "poll_vote"@,
                Variant::Tapback(_, _, _) => "tapback"@,
                Variant::Unknown(_) => "unknown"@,
            }))
            &&& variant is Normal || variant is Edited || variant is SharePlay || variant is Vote
                ==> entries.len() == 1
            &&& variant matches Variant::App(balloon) ==> entries.len() == 3 && entries[1] == bundle
                && entries[2] == ("app_type"@, Node::Quoted(match balloon {
                CustomBalloon::URL => "url"@,
                CustomBalloon::Handwriting => "handwriting"@,
                CustomBalloon::DigitalTouch => "digital_touch"@,
                CustomBalloon::ApplePay => "apple_pay"@,
                CustomBalloon::Fitness => "fitness"@,
                CustomBalloon::Slideshow => "slideshow"@,
                CustomBalloon::FindMy => "find_my"@,
                CustomBalloon::CheckIn => "check_in"@,
                CustomBalloon::Polls => "polls"@,
                CustomBalloon::Application(_) => "application"@,
            }))
            &&& variant is PollUpdate ==> entries.len() == 2 && entries[1] == bundle
            &&& variant matches Variant::Tapback(_, done, tapback) ==> entries == tapback_entries(
                seq![entries[0]],
                "tapback_type"@,
                done,
                tapback,
            )
            &&& variant matches Variant::Unknown(code) ==> entries.len() == 2 && entries[1] == (
                "code"@,
                Node::Plain(decimal(code as int)),
            )
        }),
{
    let named = Seq::empty().push(
        ("kind"@, Node::Quoted(kind(message.variant, message.is_announcement))),
    );
    assert(named =~= seq![named[0]]);
    if let Variant::Tapback(_, done, tapback) = message.variant {
        law_reaction_named(named, "tapback_type"@, done, tapback);
        assert(variant_entries(message)[0] == named[0]);
    }
}

} // verus!
