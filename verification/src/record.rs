//! What is known of a message before it is written, as plain values.
use vstd::prelude::*;

verus! {

/// The settings and fixed wordings of an export.
#[derive(Debug)]
pub struct Config {
    /// The name that stands for the owner of the messages, where one was chosen.
    pub custom_name: Option<String>,
    /// The name that stands for the owner otherwise.
    pub me: String,
    /// What is said of an attachment that the database does not have.
    pub attachment_no_filename: String,
}

/// A point in time.
#[derive(Debug)]
pub struct Stamp {
    /// The stored number; zero where nothing happened.
    pub raw: i64,
    /// The local time in RFC 3339 notation, where the number is a time.
    pub local: Option<String>,
    /// The local time for people, or why there is none.
    pub shown: String,
}

/// What a message is.
#[derive(Debug)]
pub enum Variant {
    /// Text and attachments.
    Normal,
    /// A message that was edited or unsent.
    Edited,
    /// A SharePlay invitation.
    SharePlay,
    /// A message of an app.
    App(CustomBalloon),
    /// A change to a poll.
    PollUpdate,
    /// A vote in a poll.
    Vote,
    /// A reaction to the part of a message with this index.
    Tapback(usize, TapbackAction, Tapback),
    /// A message of an unknown type.
    Unknown(i32),
}

/// The app that a message belongs to.
#[derive(Debug)]
pub enum CustomBalloon {
    URL,
    Handwriting,
    DigitalTouch,
    ApplePay,
    Fitness,
    Slideshow,
    FindMy,
    CheckIn,
    Polls,
    /// Any other app, by its bundle.
    Application(String),
}

/// Whether a reaction was given or taken back.
#[derive(Debug)]
pub enum TapbackAction {
    Added,
    Removed,
}

/// A reaction.
#[derive(Debug)]
pub enum Tapback {
    Loved,
    Liked,
    Disliked,
    Laughed,
    Emphasized,
    Questioned,
    Sticker,
    /// A reaction with an emoji, where it is known which.
    Emoji(Option<String>),
}

/// A range of the text, in bytes, and how it is shown.
#[derive(Debug)]
pub struct TextAttributes {
    pub start: usize,
    pub end: usize,
    /// A description of each effect.
    pub effects: Vec<String>,
}

/// What the text of a message says of an attachment.
#[derive(Debug)]
pub struct AttachmentMeta {
    pub guid: Option<String>,
    pub transcription: Option<String>,
    /// The height in decimal notation.
    pub height: Option<String>,
    /// The width in decimal notation.
    pub width: Option<String>,
    pub name: Option<String>,
}

/// A part of a message, in the order of the bubbles.
#[derive(Debug)]
pub enum BubbleComponent {
    Text(Vec<TextAttributes>),
    Attachment(AttachmentMeta),
    App,
    Retracted,
}

/// A part of a message, with a description of it.
#[derive(Debug)]
pub struct Component {
    pub body: BubbleComponent,
    pub description: String,
}

/// An attachment of a message.
#[derive(Debug)]
pub struct Attachment {
    pub rowid: i32,
    pub filename: Option<String>,
    pub transfer_name: Option<String>,
    pub uti: Option<String>,
    pub mime_type: Option<String>,
    pub total_bytes: i64,
    pub is_sticker: bool,
    pub hide_attachment: i32,
    pub emoji_description: Option<String>,
    /// Where the export has the attachment.
    pub path: String,
    /// A description of where a sticker comes from, where a bubble shows one.
    pub sticker_source: Option<String>,
    /// The app that a sticker comes from, where a bubble shows one.
    pub sticker_application: Option<String>,
}

/// The translation of a message.
#[derive(Debug)]
pub struct Translation {
    pub translated_text: String,
    pub translation_lang: String,
    pub source_lang: String,
}

/// A reaction to a message.
#[derive(Debug)]
pub struct TapbackMessage {
    pub guid: String,
    pub rowid: i32,
    pub is_from_me: bool,
    /// Who reacted.
    pub sender: String,
    /// Who reacted, where it was not the owner of the messages.
    pub contact: String,
    pub sent: Stamp,
    pub associated_message_guid: Option<String>,
    pub associated_message_type: Option<i32>,
    pub associated_message_emoji: Option<String>,
    pub variant: Variant,
    /// A description of the variant.
    pub variant_description: String,
}

/// The reactions to one part of a message.
#[derive(Debug)]
pub struct TapbackGroup {
    pub part_index: usize,
    pub tapbacks: Vec<TapbackMessage>,
}

/// An attachment as lists name it.
#[derive(Debug)]
pub struct AttachmentRef {
    pub rowid: i32,
    /// Where the export has the attachment.
    pub path: String,
}

/// A reply to a message.
#[derive(Debug)]
pub struct ReplyMessage {
    pub guid: String,
    pub rowid: i32,
    pub is_from_me: bool,
    /// Whether this is a reaction to a reply.
    pub is_tapback: bool,
    /// Who sent it, where it is a reply.
    pub sender: String,
    pub sent: Stamp,
    pub text: Option<String>,
    pub thread_originator_guid: Option<String>,
    pub thread_originator_part: Option<String>,
    pub attachments: Vec<AttachmentRef>,
}

/// The replies to one part of a message.
#[derive(Debug)]
pub struct ReplyGroup {
    pub part_index: usize,
    pub replies: Vec<ReplyMessage>,
}

/// A message, with all that is written of it.
#[derive(Debug)]
pub struct Message {
    pub guid: String,
    pub rowid: i32,
    pub chat_id: Option<i32>,
    pub deleted_from: Option<i32>,
    pub is_from_me: bool,
    pub is_read: bool,
    pub is_deleted: bool,
    pub is_announcement: bool,
    pub sender: String,
    pub service: Option<String>,
    pub destination_caller_id: Option<String>,
    pub subject: Option<String>,
    pub variant: Variant,
    pub balloon_bundle_id: Option<String>,
    pub sent: Stamp,
    pub delivered: Stamp,
    pub read: Stamp,
    pub edited: Stamp,
    pub time_until_read: Option<String>,
    pub text: Option<String>,
    /// Whether the message is known to have been translated.
    pub is_translated: bool,
    pub translation: Option<Translation>,
    pub components: Vec<Component>,
    pub attachments: Vec<Attachment>,
    /// The reactions, where any are on record.
    pub tapbacks: Option<Vec<TapbackGroup>>,
    pub replies: Vec<ReplyGroup>,
}

/// A conversation.
#[derive(Debug)]
pub struct Chat {
    pub rowid: i32,
    pub chat_identifier: String,
    pub service_name: Option<String>,
    pub display_name: Option<String>,
    pub name: String,
    /// Who takes part, where that is on record.
    pub participants: Option<Vec<String>>,
}

/// What is said of the export at the top of each file.
#[derive(Debug)]
pub struct ExportInfo {
    pub version: String,
    pub platform: String,
    pub db_path: String,
    pub export_path: String,
    pub copy_method: String,
}

} // verus!
