//! Messages as people read them.
use vstd::prelude::*;

use crate::export::YAML;
use crate::record::{Attachment, Config, Message, ReplyMessage, TapbackGroup, TapbackMessage};
use crate::tapback::{listed, tapbacks_of, with_part};
use crate::text::ends_with_newline;

verus! {

/// When something was sent, and by whom.
pub open spec fn heading(when: Seq<char>, who: Seq<char>) -> Seq<char> {
    when + " "@ + who + "\n"@
}

/// The text, ended by a newline; nothing where there is no text.
pub open spec fn closed_text(text: Option<Seq<char>>) -> Seq<char> {
    match text {
        Some(text) => if text.len() == 0 || text.last() == '\n' {
            text
        } else {
            text.push('\n')
        },
        None => Seq::empty(),
    }
}

/// A reply as people read it.
pub open spec fn reply_text(reply: ReplyMessage) -> Seq<char> {
    heading(reply.sent.shown@, reply.sender@) + closed_text(reply.text.deep_view())
}

/// An item for each name.
pub open spec fn bullets(names: Seq<Seq<char>>) -> Seq<char>
    decreases names.len(),
{
    if names.len() == 0 {
        Seq::empty()
    } else {
        bullets(names.drop_last()) + ("  - "@ + names.last() + "\n"@)
    }
}

/// A title and an item for each name; nothing where there are no names.
pub open spec fn titled(title: Seq<char>, names: Seq<Seq<char>>) -> Seq<char> {
    if names.len() == 0 {
        Seq::empty()
    } else {
        title + bullets(names)
    }
}

/// Where the attachments are.
pub open spec fn paths(attachments: Seq<Attachment>) -> Seq<Seq<char>> {
    attachments.map_values(|attachment: Attachment| attachment.path@)
}

/// The name that stands for the owner of the messages.
pub open spec fn own_name(config: Config) -> Seq<char> {
    match config.custom_name {
        Some(name) => name@,
        None => config.me@,
    }
}

/// Who reacted, and how.
pub open spec fn reaction(config: Config, tapback: TapbackMessage) -> Seq<char> {
    (if tapback.is_from_me {
        own_name(config)
    } else {
        tapback.contact@
    }) + ": "@ + tapback.variant_description@
}

/// Who reacted, and how, for each reaction.
pub open spec fn reactions(config: Config, tapbacks: Seq<(usize, TapbackMessage)>) -> Seq<
    Seq<char>,
> {
    tapbacks.map_values(|tapback: (usize, TapbackMessage)| reaction(config, tapback.1))
}

/// A message as people read it.
pub open spec fn message_text(config: Config, message: Message) -> Seq<char> {
    heading(message.sent.shown@, message.sender@) + (if message.is_deleted {
        "This message was deleted from the conversation!\n"@
    } else {
        Seq::empty()
    }) + (match message.subject {
        Some(subject) => "Subject: "@ + subject@ + "\n"@,
        None => Seq::empty(),
    }) + closed_text(message.text.deep_view()) + titled(
        "Attachments:\n"@,
        paths(message.attachments@),
    ) + titled("Tapbacks:\n"@, reactions(config, tapbacks_of(message)))
}

/// Appends the text, ended by a newline.
fn push_closed_text(out: &mut String, text: &Option<String>)
    ensures
        final(out)@ == old(out)@ + closed_text(text.deep_view()),
{
    if let Some(text) = text {
        if !text.as_str().is_empty() {
            out.append(text.as_str());
            if !ends_with_newline(text.as_str()) {
                out.push('\n');
            }
        }
    }
}

/// Appends an item.
fn push_bullet(out: &mut String, name: &str)
    ensures
        final(out)@ == old(out)@ + ("  - "@ + name@ + "\n"@),
{
    out.append("  - ");
    out.append(name);
    out.append("\n");
}

/// Appends where the attachments are.
fn push_attachments(out: &mut String, attachments: &Vec<Attachment>)
    ensures
        final(out)@ == old(out)@ + titled("Attachments:\n"@, paths(attachments@)),
{
    if attachments.len() == 0 {
        return;
    }
    out.append("Attachments:\n");
    let ghost head = out@;
    let ghost names = paths(attachments@);
    let mut i: usize = 0;
    while i < attachments.len()
        invariant
            i <= attachments.len(),
            names == paths(attachments@),
            out@ == head + bullets(names.take(i as int)),
        decreases attachments.len() - i,
    {
        push_bullet(out, attachments[i].path.as_str());
        proof {
            assert(names.take(i + 1).drop_last() =~= names.take(i as int));
        }
        i = i + 1;
    }
    proof {
        assert(names.take(i as int) =~= names);
    }
}

impl<'a> YAML<'a> {
    /// A reply as people read it.
    pub fn rendered_reply_block(&self, reply: &ReplyMessage) -> (res: String)
        ensures
            res@ == reply_text(*reply),
    {
        let mut out = String::new();
        out.append(reply.sent.shown.as_str());
        out.append(" ");
        out.append(reply.sender.as_str());
        out.append("\n");
        push_closed_text(&mut out, &reply.text);
        out
    }

    /// A message as people read it.
    pub fn rendered_block(&self, message: &Message) -> (res: String)
        ensures
            res@ == message_text(*self.config, *message),
    {
        let mut out = String::new();
        out.append(message.sent.shown.as_str());
        out.append(" ");
        out.append(message.sender.as_str());
        out.append("\n");
        if message.is_deleted {
            out.append("This message was deleted from the conversation!\n");
        }
        if let Some(subject) = &message.subject {
            out.append("Subject: ");
            out.append(subject.as_str());
            out.append("\n");
        }
        push_closed_text(&mut out, &message.text);
        push_attachments(&mut out, &message.attachments);
        if let Some(groups) = &message.tapbacks {
            self.push_tapbacks(&mut out, groups);
        }
        out
    }

    /// Appends the reactions, if there are any.
    fn push_tapbacks(&self, out: &mut String, groups: &Vec<TapbackGroup>)
        ensures
            final(out)@ == old(out)@ + titled(
                "Tapbacks:\n"@,
                reactions(*self.config, listed(groups@)),
            ),
    {
        let mut any = false;
        let mut k: usize = 0;
        while k < groups.len()
            invariant
                k <= groups.len(),
                any == (listed(groups@.take(k as int)).len() > 0),
            decreases groups.len() - k,
        {
            proof {
                assert(groups@.take(k + 1).drop_last() =~= groups@.take(k as int));
            }
            if groups[k].tapbacks.len() > 0 {
                any = true;
            }
            k = k + 1;
        }
        proof {
            assert(groups@.take(k as int) =~= groups@);
        }
        if !any {
            return;
        }
        out.append("Tapbacks:\n");
        let ghost head = out@;
        let mut i: usize = 0;
        proof {
            assert(head + bullets(reactions(*self.config, listed(groups@.take(0)))) =~= head);
        }
        while i < groups.len()
            invariant
                i <= groups.len(),
                out@ == head + bullets(reactions(*self.config, listed(groups@.take(i as int)))),
            decreases groups.len() - i,
        {
            let group = &groups[i];
            let ghost done = listed(groups@.take(i as int));
            proof {
                assert(groups@.take(i + 1).drop_last() =~= groups@.take(i as int));
                assert(done + with_part(group.part_index, group.tapbacks@.take(0)) =~= done);
            }
            let mut j: usize = 0;
            while j < group.tapbacks.len()
                invariant
                    j <= group.tapbacks.len(),
                    out@ == head + bullets(
                        reactions(
                            *self.config,
                            done + with_part(group.part_index, group.tapbacks@.take(j as int)),
                        ),
                    ),
                decreases group.tapbacks.len() - j,
            {
                let line = self.reaction_line(&group.tapbacks[j]);
                push_bullet(out, line.as_str());
                proof {
                    let now = done + with_part(group.part_index, group.tapbacks@.take(j as int));
                    let next = done + with_part(group.part_index, group.tapbacks@.take(j + 1));
                    let item = (group.part_index, group.tapbacks@[j as int]);
                    assert(next =~= now.push(item));
                    assert(reactions(*self.config, next).drop_last() =~= reactions(
                        *self.config,
                        now,
                    ));
                }
                j = j + 1;
            }
            proof {
                assert(group.tapbacks@.take(j as int) =~= group.tapbacks@);
            }
            i = i + 1;
        }
    }

    /// Who reacted, and how.
    fn reaction_line(&self, tapback: &TapbackMessage) -> (res: String)
        ensures
            res@ == reaction(*self.config, *tapback),
    {
        let mut line = String::new();
        if tapback.is_from_me {
            match &self.config.custom_name {
                Some(name) => line.append(name.as_str()),
                None => line.append(self.config.me.as_str()),
            }
        } else {
            line.append(tapback.contact.as_str());
        }
        line.append(": ");
        line.append(tapback.variant_description.as_str());
        line
    }
}

proof fn lemma_bullets(names: Seq<Seq<char>>)
    requires
        names.len() > 0,
    ensures
        bullets(names).len() > 0,
        bullets(names).last() == '\n',
{
    reveal_strlit("\n");
}

/// What people read of a message ends with a line end, so that a block of it
/// has whole lines.
pub proof fn law_rendered_ends_line(config: Config, message: Message)
    ensures
        message_text(config, message).len() > 0,
        message_text(config, message).last() == '\n',
{
    reveal_strlit("\n");
    reveal_strlit("This message was deleted from the conversation!\n");
    let files = paths(message.attachments@);
    let tapbacks = reactions(config, tapbacks_of(message));
    if files.len() > 0 {
        lemma_bullets(files);
    }
    if tapbacks.len() > 0 {
        lemma_bullets(tapbacks);
    }
}

/// What people read of a reply ends with a line end as well.
pub proof fn law_rendered_reply_ends_line(reply: ReplyMessage)
    ensures
        reply_text(reply).len() > 0,
        reply_text(reply).last() == '\n',
{
    reveal_strlit("\n");
}

/// The text is written as it is, and ends in one newline more only where it
/// does not end in one; an empty text and none at all are written the same.
pub proof fn law_text_closed(text: Seq<char>)
    ensures
        closed_text(None) == Seq::<char>::empty(),
        closed_text(Some(Seq::empty())) == Seq::<char>::empty(),
        text.len() > 0 && text.last() == '\n' ==> closed_text(Some(text)) == text,
        text.len() > 0 && text.last() != '\n' ==> closed_text(Some(text)) == text + "\n"@,
{
    reveal_strlit("\n");
    assert(text.push('\n') =~= text + "\n"@);
}

/// A reply as people read it: when and who, on a line, and the text.
pub proof fn law_reply_read(reply: ReplyMessage)
    ensures
        reply_text(reply) == reply.sent.shown@ + " "@ + reply.sender@ + "\n"@ + closed_text(
            reply.text.deep_view(),
        ),
{
}

/// A list for people: nothing where there is nothing to list, and otherwise its
/// title and a line for each name, in order.
pub proof fn law_lists_read(
    title: Seq<char>,
    a: Seq<Seq<char>>,
    b: Seq<Seq<char>>,
    name: Seq<char>,
)
    ensures
        titled(title, Seq::empty()) == Seq::<char>::empty(),
        titled(title, seq![name]) == title + "  - "@ + name + "\n"@,
        a.len() > 0 ==> titled(title, a + seq![name]) == titled(title, a) + "  - "@ + name + "\n"@,
        a.len() > 0 ==> titled(title, a + b) == titled(title, a) + bullets(b),
        bullets(a + b) == bullets(a) + bullets(b),
        bullets(seq![name]) == "  - "@ + name + "\n"@,
    decreases b.len(),
{
    let one = seq![name];
    assert(one.drop_last() =~= Seq::empty());
    assert(bullets(one.drop_last()) =~= Seq::empty());
    assert(bullets(one) =~= "  - "@ + name + "\n"@);
    assert(titled(title, one) =~= title + "  - "@ + name + "\n"@);
    assert((a + one).drop_last() =~= a);
    if a.len() > 0 {
        assert(titled(title, a + one) =~= titled(title, a) + "  - "@ + name + "\n"@);
    }
    if b.len() == 0 {
        assert(a + b =~= a);
    } else {
        law_lists_read(title, a, b.drop_last(), name);
        assert((a + b).drop_last() =~= a + b.drop_last());
    }
    assert(bullets(a + b) =~= bullets(a) + bullets(b));
    if a.len() > 0 {
        assert(titled(title, a + b) =~= titled(title, a) + bullets(b));
    }
}

/// The attachments are listed by their paths, and the reactions by who reacted
/// and how, one for one and in order. The owner of the messages goes by the
/// chosen name, where there is one, and anybody else by their own.
pub proof fn law_names_read(
    config: Config,
    attachments: Seq<Attachment>,
    tapbacks: Seq<(usize, TapbackMessage)>,
)
    ensures
        paths(attachments).len() == attachments.len(),
        forall|i: int|
            0 <= i < attachments.len() ==> #[trigger] paths(attachments)[i] == attachments[i].path@,
        reactions(config, tapbacks).len() == tapbacks.len(),
        forall|i: int|
            0 <= i < tapbacks.len() ==> #[trigger] reactions(config, tapbacks)[i] == (
            if !tapbacks[i].1.is_from_me {
                tapbacks[i].1.contact@
            } else {
                match config.custom_name {
                    Some(name) => name@,
                    None => config.me@,
                }
            }) + ": "@ + tapbacks[i].1.variant_description@,
{
}

/// A message as people read it: when and who on a line, whether it was deleted,
/// the subject on a line where there is one, the text, the attachments, and the
/// reactions. Each part stands there whatever the others are.
pub proof fn law_message_read(config: Config, message: Message)
    ensures
        ({
            let top = message.sent.shown@ + " "@ + message.sender@ + "\n"@;
            let notice = if message.is_deleted {
                "This message was deleted from the conversation!\n"@
            } else {
                Seq::empty()
            };
            let subject = match message.subject {
                Some(subject) => "Subject: "@ + subject@ + "\n"@,
                None => Seq::empty(),
            };
            message_text(config, message) == top + notice + subject + closed_text(
                message.text.deep_view(),
            ) + titled("Attachments:\n"@, paths(message.attachments@)) + titled(
                "Tapbacks:\n"@,
                reactions(config, tapbacks_of(message)),
            )
        }),
{
}

/// A subject adds its line to what people read, after the heading and the notice
/// of a deleted message, and changes nothing else, deleted or not.
pub proof fn law_subject_adds_line(config: Config, with: Message, without: Message)
    requires
        with.subject is Some,
        without == (Message { subject: None, ..with }),
    ensures
        exists|before: Seq<char>, after: Seq<char>|
            message_text(config, without) == before + after && message_text(config, with)
                == #[trigger] (before + ("Subject: "@ + (with.subject->0)@ + "\n"@) + after)
                && before == with.sent.shown@ + " "@ + with.sender@ + "\n"@ + (
            if with.is_deleted {
                "This message was deleted from the conversation!\n"@
            } else {
                Seq::empty()
            }),
{
    let before = with.sent.shown@ + " "@ + with.sender@ + "\n"@ + (if with.is_deleted {
        "This message was deleted from the conversation!\n"@
    } else {
        Seq::empty()
    });
    let line = "Subject: "@ + (with.subject->0)@ + "\n"@;
    let after = closed_text(with.text.deep_view()) + titled(
        "Attachments:\n"@,
        paths(with.attachments@),
    ) + titled("Tapbacks:\n"@, reactions(config, tapbacks_of(with)));
    assert(message_text(config, without) =~= before + after);
    assert(message_text(config, with) =~= before + ("Subject: "@ + (with.subject->0)@ + "\n"@)
        + after);
}

/// That a message was deleted adds the notice after the heading, and changes
/// nothing else.
pub proof fn law_deletion_adds_notice(config: Config, deleted: Message, kept: Message)
    requires
        deleted.is_deleted,
        kept == (Message { is_deleted: false, ..deleted }),
    ensures
        exists|after: Seq<char>|
            message_text(config, kept) == #[trigger] (kept.sent.shown@ + " "@ + kept.sender@
                + "\n"@ + after) && message_text(config, deleted) == kept.sent.shown@ + " "@
                + kept.sender@ + "\n"@ + "This message was deleted from the conversation!\n"@
                + after,
{
    let after = (if kept.subject is Some {
        "Subject: "@ + (kept.subject->0)@ + "\n"@
    } else {
        Seq::empty()
    }) + closed_text(kept.text.deep_view()) + titled(
        "Attachments:\n"@,
        paths(kept.attachments@),
    ) + titled("Tapbacks:\n"@, reactions(config, tapbacks_of(kept)));
    assert(message_text(config, kept) =~= kept.sent.shown@ + " "@ + kept.sender@ + "\n"@ + after);
    assert(message_text(config, deleted) =~= kept.sent.shown@ + " "@ + kept.sender@ + "\n"@
        + "This message was deleted from the conversation!\n"@ + after);
}

} // verus!
