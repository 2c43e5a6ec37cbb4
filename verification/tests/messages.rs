use imessage_yaml::component::attachments_in_bubbles;
use imessage_yaml::export::{Destination, YAML};
use imessage_yaml::header::write_yaml_header;
use imessage_yaml::record::{
    Attachment, AttachmentMeta, AttachmentRef, BubbleComponent, Chat, Component, Config, CustomBalloon,
    ExportInfo, Message, ReplyGroup, ReplyMessage, Stamp, Tapback, TapbackAction, TapbackGroup, TapbackMessage,
    TextAttributes, Translation, Variant,
};

fn text(s: &str) -> String {
    String::from(s)
}

fn some(s: &str) -> Option<String> {
    Some(String::from(s))
}

fn config() -> Config {
    Config { custom_name: None, me: text("Me"), attachment_no_filename: text("no file") }
}

fn never() -> Stamp {
    Stamp { raw: 0, local: some("ignored"), shown: text("epoch") }
}

fn at(raw: i64, shown: &str) -> Stamp {
    Stamp { raw, local: some("local"), shown: text(shown) }
}

fn message() -> Message {
    Message {
        guid: text("G"),
        rowid: 1,
        chat_id: Some(2),
        deleted_from: None,
        is_from_me: false,
        is_read: true,
        is_deleted: false,
        is_announcement: false,
        sender: text("Ann"),
        service: some("SMS"),
        destination_caller_id: None,
        subject: None,
        variant: Variant::Normal,
        balloon_bundle_id: None,
        sent: at(10, "noon"),
        delivered: never(),
        read: never(),
        edited: never(),
        time_until_read: None,
        text: some("hi"),
        is_translated: false,
        translation: None,
        components: Vec::new(),
        attachments: Vec::new(),
        tapbacks: None,
        replies: Vec::new(),
    }
}

fn attachment(rowid: i32, path: &str, is_sticker: bool) -> Attachment {
    Attachment {
        rowid,
        filename: some("f.png"),
        transfer_name: None,
        uti: some("public.png"),
        mime_type: None,
        total_bytes: 4_000_000_000,
        is_sticker,
        hide_attachment: 0,
        emoji_description: None,
        path: text(path),
        sticker_source: some("UserGenerated"),
        sticker_application: None,
    }
}

fn meta() -> AttachmentMeta {
    AttachmentMeta {
        guid: some("A"),
        transcription: some("la\nla"),
        height: Some(2.5f64.to_string()),
        width: None,
        name: some("n"),
    }
}

fn component(body: BubbleComponent, description: &str) -> Component {
    Component { body, description: text(description) }
}

fn tapback(is_from_me: bool, variant: Variant) -> TapbackMessage {
    TapbackMessage {
        guid: text("T"),
        rowid: 3,
        is_from_me,
        sender: text("Bob"),
        contact: text("Bobby"),
        sent: at(11, "one"),
        associated_message_guid: some("p:0/G"),
        associated_message_type: Some(2000),
        associated_message_emoji: None,
        variant,
        variant_description: text("Tapback(..)"),
    }
}

fn reply(is_tapback: bool) -> ReplyMessage {
    ReplyMessage {
        guid: text("R"),
        rowid: 4,
        is_from_me: true,
        is_tapback,
        sender: text("Me"),
        sent: at(12, "two"),
        text: some("yes\n"),
        thread_originator_guid: some("G"),
        thread_originator_part: None,
        attachments: vec![AttachmentRef { rowid: 6, path: text("r/6") }],
    }
}

/// What is expected of the message above, between its variant and its text.
fn head(variant: &str) -> String {
    let mut out = String::new();
    out.push_str("  - guid: \"G\"\n");
    out.push_str("    rowid: 1\n");
    out.push_str("    chat_id: 2\n");
    out.push_str("    deleted_from: null\n");
    out.push_str("    is_from_me: false\n");
    out.push_str("    is_read: true\n");
    out.push_str("    sender: \"Ann\"\n");
    out.push_str("    service: \"SMS\"\n");
    out.push_str("    destination_caller_id: null\n");
    out.push_str("    subject: null\n");
    out.push_str("    variant:\n");
    out.push_str(variant);
    out.push_str("    timestamps:\n");
    out.push_str("      sent:\n");
    out.push_str("        raw: 10\n");
    out.push_str("        local: \"local\"\n");
    out.push_str("        display: \"noon\"\n");
    for key in ["delivered", "read", "edited"] {
        out.push_str("      ");
        out.push_str(key);
        out.push_str(":\n        raw: 0\n        local: null\n        display: null\n");
    }
    out.push_str("    time_until_read: null\n");
    out.push_str("    text: |\n      hi\n");
    out
}

const NORMAL: &str = "      kind: \"normal\"\n";

#[test]
fn a_plain_message() {
    let config = config();
    let yaml = YAML::new(&config);
    let mut expected = head(NORMAL);
    expected.push_str("    translation: null\n");
    expected.push_str("    components:\n");
    expected.push_str("    attachments: []\n");
    expected.push_str("    tapbacks:\n      []\n");
    expected.push_str("    replies:\n      []\n");
    expected.push_str("    rendered: |\n      noon Ann\n      hi\n      \n");
    expected.push_str("    raw:\n      components_debug:\n");
    assert_eq!(yaml.format_message_yaml(&message()), expected);
}

#[test]
fn a_full_message() {
    let config = config();
    let yaml = YAML::new(&config);
    let mut m = message();
    m.is_translated = true;
    m.translation = Some(Translation {
        translated_text: text("salut"),
        translation_lang: text("fr"),
        source_lang: text("en"),
    });
    m.components = vec![
        component(BubbleComponent::Text(Vec::new()), "Text([])"),
        component(BubbleComponent::Attachment(meta()), "Attachment(\"x\")"),
    ];
    m.attachments = vec![attachment(5, "a/5", false)];
    m.tapbacks = Some(vec![TapbackGroup {
        part_index: 1,
        tapbacks: vec![tapback(
            true,
            Variant::Tapback(1, TapbackAction::Added, Tapback::Loved),
        )],
    }]);
    m.replies = vec![ReplyGroup { part_index: 0, replies: vec![reply(false)] }];
    let mut expected = head(NORMAL);
    expected.push_str("    translation:\n");
    expected.push_str("      translated_text: \"salut\"\n");
    expected.push_str("      translation_lang: \"fr\"\n");
    expected.push_str("      source_lang: \"en\"\n");
    expected.push_str("    components:\n");
    expected.push_str("      - kind: \"text\"\n");
    expected.push_str("        text: |\n          hi\n");
    expected.push_str("        attributes: []\n");
    expected.push_str("      - kind: \"attachment\"\n");
    expected.push_str("        attachment:\n");
    expected.push_str("          rowid: 5\n");
    expected.push_str("          filename: \"f.png\"\n");
    expected.push_str("          transfer_name: null\n");
    expected.push_str("          uti: \"public.png\"\n");
    expected.push_str("          mime_type: null\n");
    expected.push_str("          total_bytes: 4000000000\n");
    expected.push_str("          is_sticker: false\n");
    expected.push_str("          hide_attachment: 0\n");
    expected.push_str("          emoji_description: null\n");
    expected.push_str("          path: \"a/5\"\n");
    expected.push_str("          sticker: null\n");
    expected.push_str("        meta:\n");
    expected.push_str("          guid: \"A\"\n");
    expected.push_str("          transcription: |\n            la\n            la\n");
    expected.push_str("          height: 2.5\n");
    expected.push_str("          width: null\n");
    expected.push_str("          name: \"n\"\n");
    expected.push_str("    attachments:\n");
    expected.push_str("      - rowid: 5\n");
    expected.push_str("        path: \"a/5\"\n");
    expected.push_str("    tapbacks:\n");
    expected.push_str("      - part_index: 1\n");
    expected.push_str("        guid: \"T\"\n");
    expected.push_str("        rowid: 3\n");
    expected.push_str("        is_from_me: true\n");
    expected.push_str("        sender: \"Bob\"\n");
    expected.push_str("        timestamps:\n");
    expected.push_str("          sent:\n");
    expected.push_str("            raw: 11\n");
    expected.push_str("            local: \"local\"\n");
    expected.push_str("            display: \"one\"\n");
    expected.push_str("        associated_message_guid: \"p:0/G\"\n");
    expected.push_str("        associated_message_type: 2000\n");
    expected.push_str("        associated_message_emoji: null\n");
    expected.push_str("        interpreted:\n");
    expected.push_str("          action: \"added\"\n");
    expected.push_str("          type: \"loved\"\n");
    expected.push_str("    replies:\n");
    expected.push_str("      - part_index: 0\n");
    expected.push_str("        guid: \"R\"\n");
    expected.push_str("        rowid: 4\n");
    expected.push_str("        is_from_me: true\n");
    expected.push_str("        sender: \"Me\"\n");
    expected.push_str("        timestamps:\n");
    expected.push_str("          sent:\n");
    expected.push_str("            raw: 12\n");
    expected.push_str("            local: \"local\"\n");
    expected.push_str("            display: \"two\"\n");
    expected.push_str("        text: |\n          yes\n          \n");
    expected.push_str("        thread_originator_guid: \"G\"\n");
    expected.push_str("        thread_originator_part: null\n");
    expected.push_str("        attachments:\n");
    expected.push_str("          - rowid: 6\n");
    expected.push_str("            path: \"r/6\"\n");
    expected.push_str("        rendered: |\n          two Me\n          yes\n          \n");
    expected.push_str("    rendered: |\n");
    expected.push_str("      noon Ann\n      hi\n");
    expected.push_str("      Attachments:\n        - a/5\n");
    expected.push_str("      Tapbacks:\n        - Me: Tapback(..)\n      \n");
    expected.push_str("    raw:\n      components_debug:\n");
    expected.push_str("        - \"Text([])\"\n");
    expected.push_str("        - \"Attachment(\\\"x\\\")\"\n");
    assert_eq!(yaml.format_message_yaml(&m), expected);
}

#[test]
fn a_translation_is_only_written_where_there_is_one() {
    let config = config();
    let yaml = YAML::new(&config);
    let mut m = message();
    m.is_translated = true;
    assert!(yaml.format_message_yaml(&m).contains("    translation: null\n"));
    m.is_translated = false;
    m.translation = Some(Translation {
        translated_text: text("salut"),
        translation_lang: text("fr"),
        source_lang: text("en"),
    });
    assert!(yaml.format_message_yaml(&m).contains("    translation: null\n"));
}

fn variant_of(m: &Message) -> String {
    let config = config();
    let yaml = YAML::new(&config);
    let mut out = String::new();
    yaml.write_variant(&mut out, m);
    out
}

#[test]
fn variants() {
    let mut m = message();
    assert_eq!(variant_of(&m), "    variant:\n      kind: \"normal\"\n");
    m.is_announcement = true;
    assert_eq!(variant_of(&m), "    variant:\n      kind: \"announcement\"\n");
    m.variant = Variant::Edited;
    assert_eq!(variant_of(&m), "    variant:\n      kind: \"edited\"\n");
    m.variant = Variant::SharePlay;
    assert_eq!(variant_of(&m), "    variant:\n      kind: \"shareplay\"\n");
    m.variant = Variant::Vote;
    assert_eq!(variant_of(&m), "    variant:\n      kind: \"poll_vote\"\n");
    m.variant = Variant::PollUpdate;
    assert_eq!(
        variant_of(&m),
        "    variant:\n      kind: \"poll_update\"\n      balloon_bundle_id: null\n"
    );
    m.variant = Variant::Unknown(-4);
    assert_eq!(variant_of(&m), "    variant:\n      kind: \"unknown\"\n      code: -4\n");
}

#[test]
fn apps() {
    let mut m = message();
    m.balloon_bundle_id = some("com.app");
    for (balloon, name) in [
        (CustomBalloon::URL, "url"),
        (CustomBalloon::Handwriting, "handwriting"),
        (CustomBalloon::DigitalTouch, "digital_touch"),
        (CustomBalloon::ApplePay, "apple_pay"),
        (CustomBalloon::Fitness, "fitness"),
        (CustomBalloon::Slideshow, "slideshow"),
        (CustomBalloon::FindMy, "find_my"),
        (CustomBalloon::CheckIn, "check_in"),
        (CustomBalloon::Polls, "polls"),
        (CustomBalloon::Application(text("z")), "application"),
    ] {
        m.variant = Variant::App(balloon);
        assert_eq!(
            variant_of(&m),
            format!(
                "    variant:\n      kind: \"app\"\n      balloon_bundle_id: \"com.app\"\n      app_type: \"{}\"\n",
                name
            )
        );
    }
}

#[test]
fn reactions_as_messages() {
    let mut m = message();
    for (kind, name) in [
        (Tapback::Loved, "loved"),
        (Tapback::Liked, "liked"),
        (Tapback::Disliked, "disliked"),
        (Tapback::Laughed, "laughed"),
        (Tapback::Emphasized, "emphasized"),
        (Tapback::Questioned, "questioned"),
        (Tapback::Sticker, "sticker"),
    ] {
        m.variant = Variant::Tapback(0, TapbackAction::Removed, kind);
        assert_eq!(
            variant_of(&m),
            format!(
                "    variant:\n      kind: \"tapback\"\n      action: \"removed\"\n      tapback_type: \"{}\"\n",
                name
            )
        );
    }
    m.variant = Variant::Tapback(0, TapbackAction::Added, Tapback::Emoji(None));
    assert_eq!(
        variant_of(&m),
        "    variant:\n      kind: \"tapback\"\n      action: \"added\"\n      tapback_type: \"emoji\"\n      emoji: null\n"
    );
    m.variant = Variant::Tapback(0, TapbackAction::Added, Tapback::Emoji(some("\u{1f389}")));
    assert_eq!(
        variant_of(&m),
        "    variant:\n      kind: \"tapback\"\n      action: \"added\"\n      tapback_type: \"emoji\"\n      emoji: \"\u{1f389}\"\n"
    );
}

#[test]
fn text_attributes_with_slices() {
    let config = config();
    let yaml = YAML::new(&config);
    let attributes = |start: usize, end: usize, effects: Vec<String>| TextAttributes { start, end, effects };
    let attrs = vec![
        attributes(0, 2, vec![text("Bold"), text("Italic")]),
        attributes(1, 3, Vec::new()),
        attributes(3, 1, Vec::new()),
        attributes(4, 5, Vec::new()),
        attributes(4, 4, Vec::new()),
    ];
    // The first character takes two bytes, and the text four in all.
    let mut out = String::new();
    yaml.write_text_attributes(&mut out, Some("\u{e9}ab"), &attrs);
    let item = |start: usize, end: usize, slice: &str| {
        format!("          - start: {}\n            end: {}\n            slice: {}\n", start, end, slice)
    };
    let mut expected = String::from("        text: |\n          \u{e9}ab\n        attributes:\n");
    expected.push_str(&item(0, 2, "|\n              \u{e9}"));
    expected.push_str("            effects_debug:\n              - \"Bold\"\n              - \"Italic\"\n");
    expected.push_str(&item(1, 3, "null"));
    expected.push_str("            effects_debug: []\n");
    expected.push_str(&item(3, 1, "null"));
    expected.push_str("            effects_debug: []\n");
    expected.push_str(&item(4, 5, "null"));
    expected.push_str("            effects_debug: []\n");
    expected.push_str(&item(4, 4, "|\n              "));
    expected.push_str("            effects_debug: []\n");
    assert_eq!(out, expected);
}

#[test]
fn slices_agree_with_string_slicing() {
    let config = config();
    let yaml = YAML::new(&config);
    let value = "a\u{e9}\u{20ac}\u{1f600}z";
    for start in 0usize..=12 {
        for end in 0usize..=12 {
            let attrs = vec![TextAttributes { start, end, effects: Vec::new() }];
            let mut out = String::new();
            yaml.write_text_attributes(&mut out, Some(value), &attrs);
            let slice = match value.get(start..end) {
                Some(part) => format!("            slice: |\n              {}\n", part),
                None => String::from("            slice: null\n"),
            };
            assert!(out.contains(&slice), "{} {}", start, end);
        }
    }
}

#[test]
fn text_attributes_without_text() {
    let config = config();
    let yaml = YAML::new(&config);
    let mut out = String::new();
    yaml.write_text_attributes(&mut out, None, &Vec::new());
    assert_eq!(out, "        text: null\n        attributes: []\n");
    let attrs = vec![TextAttributes { start: 0, end: 0, effects: Vec::new() }];
    let mut out = String::new();
    yaml.write_text_attributes(&mut out, None, &attrs);
    assert!(out.contains("            slice: null\n"));
}

#[test]
fn components_take_the_attachments_in_order() {
    let config = config();
    let yaml = YAML::new(&config);
    let mut m = message();
    m.balloon_bundle_id = some("b");
    m.components = vec![
        component(BubbleComponent::Attachment(meta()), "1"),
        component(BubbleComponent::Retracted, "2"),
        component(BubbleComponent::Attachment(meta()), "3"),
        component(BubbleComponent::App, "4"),
        component(BubbleComponent::Attachment(meta()), "5"),
    ];
    m.attachments = vec![attachment(7, "p7", true), attachment(8, "p8", false)];
    let mut out = String::new();
    yaml.write_components(&mut out, &m);
    let first = out.find("          rowid: 7\n").unwrap();
    let second = out.find("          rowid: 8\n").unwrap();
    assert!(first < out.find("      - kind: \"retracted\"\n").unwrap());
    assert!(second > out.find("      - kind: \"retracted\"\n").unwrap());
    assert!(out.contains(
        "          sticker:\n            source_debug: \"UserGenerated\"\n            application_name: null\n"
    ));
    assert!(out.ends_with(
        "      - kind: \"app\"\n        balloon_bundle_id: \"b\"\n      - kind: \"attachment\"\n        attachment: null\n        meta: null\n        error: \"no file\"\n"
    ));
    assert_eq!(attachments_in_bubbles(&m.components, 2), 2);
    assert_eq!(attachments_in_bubbles(&m.components, 5), 3);
    assert_eq!(attachments_in_bubbles(&m.components, 0), 0);
}

#[test]
fn tapbacks_of_several_parts() {
    let config = config();
    let yaml = YAML::new(&config);
    let mut m = message();
    let mut out = String::new();
    m.tapbacks = Some(vec![TapbackGroup { part_index: 0, tapbacks: Vec::new() }]);
    yaml.write_tapbacks(&mut out, &m);
    assert_eq!(out, "    tapbacks:\n      []\n");
    m.tapbacks = Some(vec![
        TapbackGroup { part_index: 2, tapbacks: vec![tapback(false, Variant::Normal)] },
        TapbackGroup { part_index: 1, tapbacks: Vec::new() },
        TapbackGroup {
            part_index: 0,
            tapbacks: vec![
                tapback(true, Variant::Tapback(0, TapbackAction::Added, Tapback::Emoji(some("e")))),
                tapback(false, Variant::Vote),
            ],
        },
    ]);
    let mut out = String::new();
    yaml.write_tapbacks(&mut out, &m);
    let parts: Vec<&str> = out.lines().filter(|line| line.starts_with("      - ")).collect();
    assert_eq!(
        parts,
        vec!["      - part_index: 2", "      - part_index: 0", "      - part_index: 0"]
    );
    assert!(out.contains(
        "        interpreted:\n          action: \"unknown\"\n          type: \"unknown\"\n"
    ));
    assert!(out.contains(
        "        interpreted:\n          action: \"added\"\n          type: \"emoji\"\n          emoji: \"e\"\n"
    ));
}

#[test]
fn reactions_among_the_replies_are_left_out() {
    let config = config();
    let yaml = YAML::new(&config);
    let mut m = message();
    m.replies = vec![ReplyGroup { part_index: 3, replies: vec![reply(true)] }];
    let mut out = String::new();
    yaml.write_replies(&mut out, &m);
    assert_eq!(out, "    replies:\n");
    m.replies = vec![
        ReplyGroup { part_index: 3, replies: vec![reply(true), reply(false), reply(true)] },
        ReplyGroup { part_index: 4, replies: vec![reply(false)] },
    ];
    let mut out = String::new();
    yaml.write_replies(&mut out, &m);
    let parts: Vec<&str> = out.lines().filter(|line| line.starts_with("      - ")).collect();
    assert_eq!(parts, vec!["      - part_index: 3", "      - part_index: 4"]);
    let mut plain = reply(false);
    plain.attachments = Vec::new();
    m.replies = vec![ReplyGroup { part_index: 0, replies: vec![plain] }];
    let mut out = String::new();
    yaml.write_replies(&mut out, &m);
    assert!(out.contains("        attachments: []\n"));
}

#[test]
fn rendered_for_people() {
    let config = Config {
        custom_name: some("Captain"),
        me: text("Me"),
        attachment_no_filename: text("no file"),
    };
    let yaml = YAML::new(&config);
    let mut m = message();
    m.is_deleted = true;
    m.subject = some("S");
    m.text = some("hi\n");
    m.attachments = vec![attachment(1, "p1", false), attachment(2, "p2", false)];
    m.tapbacks = Some(vec![TapbackGroup {
        part_index: 0,
        tapbacks: vec![tapback(true, Variant::Normal), tapback(false, Variant::Normal)],
    }]);
    assert_eq!(
        yaml.rendered_block(&m),
        "noon Ann\nThis message was deleted from the conversation!\nSubject: S\nhi\nAttachments:\n  - p1\n  - p2\nTapbacks:\n  - Captain: Tapback(..)\n  - Bobby: Tapback(..)\n"
    );
    m.is_deleted = false;
    m.subject = None;
    m.text = some("");
    m.attachments = Vec::new();
    m.tapbacks = Some(vec![TapbackGroup { part_index: 0, tapbacks: Vec::new() }]);
    assert_eq!(yaml.rendered_block(&m), "noon Ann\n");
    let mut r = reply(false);
    assert_eq!(yaml.rendered_reply_block(&r), "two Me\nyes\n");
    r.text = some("no end");
    assert_eq!(yaml.rendered_reply_block(&r), "two Me\nno end\n");
    r.text = None;
    assert_eq!(yaml.rendered_reply_block(&r), "two Me\n");
}

#[test]
fn text_cannot_pass_for_another_message() {
    let config = config();
    let yaml = YAML::new(&config);
    let mut m = message();
    m.guid = text("x\n  - guid: \"y\"");
    m.sender = text("\n    rowid: 2");
    m.text = some("\n  - guid: \"z\"\nmessages:\n");
    m.components = vec![component(BubbleComponent::Text(Vec::new()), "\n  - d")];
    let out = yaml.format_message_yaml(&m);
    let mut items = 0;
    for (i, line) in out.lines().enumerate() {
        if i == 0 {
            assert!(line.starts_with("  - guid: "));
        } else {
            assert!(line.starts_with("    "));
        }
        if line.starts_with("  - ") {
            items = items + 1;
        }
    }
    assert_eq!(items, 1);
    assert!(out.ends_with('\n'));
}

#[test]
fn different_messages_are_written_differently() {
    let config = config();
    let yaml = YAML::new(&config);
    let one = message();
    let mut other = message();
    other.text = some("hi\n");
    assert_ne!(yaml.format_message_yaml(&one), yaml.format_message_yaml(&other));
    let mut other = message();
    other.text = None;
    assert_ne!(yaml.format_message_yaml(&one), yaml.format_message_yaml(&other));
    let mut other = message();
    other.service = some("null");
    let mut none = message();
    none.service = None;
    assert_ne!(yaml.format_message_yaml(&none), yaml.format_message_yaml(&other));
}

#[test]
fn a_document_has_only_its_own_keys_at_the_margin() {
    let config = config();
    let yaml = YAML::new(&config);
    let info = ExportInfo {
        version: text("1\nmessages:"),
        platform: text("p"),
        db_path: text("d"),
        export_path: text("e\n\n"),
        copy_method: text("c"),
    };
    let mut document = String::new();
    write_yaml_header(&mut document, &info, None);
    let mut m = message();
    m.text = some("messages:\n---\nexport:");
    let first = yaml.format_message_yaml(&m);
    m.rowid = 2;
    let second = yaml.format_message_yaml(&m);
    document.push_str(&first);
    document.push_str(&second);
    let margin: Vec<&str> = document.lines().filter(|line| !line.starts_with("  ")).collect();
    assert_eq!(margin, vec!["---", "export:", "conversation:", "messages:"]);
    let dashes = document.lines().filter(|line| line.starts_with("  - ")).count();
    assert_eq!(dashes, 2);
}

fn info() -> ExportInfo {
    ExportInfo {
        version: text("1"),
        platform: text("p"),
        db_path: text("d"),
        export_path: text("e"),
        copy_method: text("c"),
    }
}

fn chat(rowid: i32) -> Chat {
    Chat {
        rowid,
        chat_identifier: text("id"),
        service_name: None,
        display_name: None,
        name: text("n"),
        participants: None,
    }
}

#[test]
fn a_whole_run_fills_its_files() {
    let config = config();
    let mut yaml = YAML::new(&config);
    yaml.start_run();
    let mut orphaned = String::new();
    write_yaml_header(&mut orphaned, &info(), None);
    let mut files: Vec<String> = Vec::new();
    // The row, the file name and the conversation, and whether it is a reaction.
    let deliveries = [
        (1, Some(("b", 10)), false),
        (1, Some(("b", 10)), false),
        (2, None, false),
        (3, Some(("c", 12)), true),
        (4, Some(("a", 11)), false),
        (5, Some(("b", 13)), false),
        (6, None, false),
    ];
    for (row, conversation, reaction) in deliveries {
        if !yaml.begin_message(row) || !yaml.select_message(reaction, false, false) {
            continue;
        }
        let mut m = message();
        m.rowid = row;
        let item = yaml.format_message_yaml(&m);
        let name = conversation.map(|(name, _)| text(name));
        match yaml.get_or_create_file(name.as_ref()) {
            Destination::Orphaned => orphaned.push_str(&item),
            Destination::Open(index) => files[index].push_str(&item),
            Destination::Create => {
                let mut file = String::new();
                write_yaml_header(&mut file, &info(), Some(&chat(conversation.unwrap().1)));
                file.push_str(&item);
                assert_eq!(yaml.file_created(name.unwrap()), files.len());
                files.push(file);
            }
        }
        assert_eq!(yaml.finish_message(), None);
    }
    let document = |room: Option<i32>, rows: Vec<i32>| {
        let mut out = String::new();
        let room = room.map(chat);
        write_yaml_header(&mut out, &info(), room.as_ref());
        for row in rows {
            let mut m = message();
            m.rowid = row;
            out.push_str(&YAML::new(&config).format_message_yaml(&m));
        }
        out
    };
    assert_eq!(yaml.files, vec!["b", "a"]);
    assert_eq!(files, vec![document(Some(10), vec![1, 5]), document(Some(11), vec![4])]);
    assert_eq!(orphaned, document(None, vec![2, 6]));
    assert_eq!(yaml.current_message, 7);
}

#[test]
fn the_keys_of_a_message_stand_at_their_column() {
    let config = config();
    let yaml = YAML::new(&config);
    let mut m = message();
    m.guid = text("g\n    raw:");
    m.subject = some("\n    rowid: 1");
    m.text = some("    rowid: 1\nraw:\n");
    m.components = vec![component(BubbleComponent::Attachment(meta()), "\n    x:")];
    m.attachments = vec![attachment(1, "p\n    y:", true)];
    m.tapbacks = Some(vec![TapbackGroup {
        part_index: 0,
        tapbacks: vec![tapback(false, Variant::Normal)],
    }]);
    m.replies = vec![ReplyGroup { part_index: 0, replies: vec![reply(false)] }];
    let out = yaml.format_message_yaml(&m);
    let keys: Vec<&str> = out
        .lines()
        .skip(1)
        .filter(|line| line.starts_with("    ") && !line.starts_with("     "))
        .map(|line| line[4..].split(':').next().unwrap())
        .collect();
    assert_eq!(
        keys,
        vec![
            "rowid",
            "chat_id",
            "deleted_from",
            "is_from_me",
            "is_read",
            "sender",
            "service",
            "destination_caller_id",
            "subject",
            "variant",
            "timestamps",
            "time_until_read",
            "text",
            "translation",
            "components",
            "attachments",
            "tapbacks",
            "replies",
            "rendered",
            "raw",
        ]
    );
    assert_eq!(out.lines().next(), Some("  - guid: \"g\\n    raw:\""));
    assert!(out.lines().skip(1).all(|line| line.starts_with("    ")));
}
