use imessage_yaml::export::{Destination, YAML};
use imessage_yaml::header::write_yaml_header;
use imessage_yaml::record::{Chat, Config, ExportInfo};
use imessage_yaml::who::{
    participant_query, sender_query, tapback_contact_query, tapback_sender_query,
};

fn config() -> Config {
    Config {
        custom_name: None,
        me: String::from("Me"),
        attachment_no_filename: String::from("no file"),
    }
}

fn info() -> ExportInfo {
    ExportInfo {
        version: String::from("1.2.3"),
        platform: String::from("macOS"),
        db_path: String::from("/db"),
        export_path: String::from("/out \"x\""),
        copy_method: String::from("disabled"),
    }
}

const EXPORT: &str = "---\nexport:\n  generator: \"imessage-exporter\"\n  version: \"1.2.3\"\n  platform: \"macOS\"\n  db_path: \"/db\"\n  export_path: \"/out \\\"x\\\"\"\n  copy_method: \"disabled\"\nconversation:\n";

#[test]
fn header_of_orphaned_messages() {
    let mut out = String::new();
    write_yaml_header(&mut out, &info(), None);
    assert_eq!(
        out,
        format!("{}  orphaned: true\n  name: \"orphaned\"\nmessages:\n", EXPORT)
    );
}

#[test]
fn header_of_a_conversation() {
    let mut chat = Chat {
        rowid: 7,
        chat_identifier: String::from("+1555"),
        service_name: Some(String::from("iMessage")),
        display_name: None,
        name: String::from("Friends"),
        participants: Some(vec![String::from("Ann"), String::from("Bob")]),
    };
    let mut out = String::new();
    write_yaml_header(&mut out, &info(), Some(&chat));
    let top = "  chat_rowid: 7\n  chat_identifier: \"+1555\"\n  service_name: \"iMessage\"\n  display_name: null\n  name: \"Friends\"\n  participants:\n";
    assert_eq!(
        out,
        format!("{}{}    - \"Ann\"\n    - \"Bob\"\nmessages:\n", EXPORT, top)
    );
    chat.participants = Some(Vec::new());
    let mut out = String::new();
    write_yaml_header(&mut out, &info(), Some(&chat));
    assert_eq!(out, format!("{}{}messages:\n", EXPORT, top));
    chat.participants = None;
    let mut out = String::new();
    write_yaml_header(&mut out, &info(), Some(&chat));
    assert_eq!(out, format!("{}{}    - \"Unknown\"\nmessages:\n", EXPORT, top));
}

#[test]
fn repeated_rows_are_written_once() {
    let config = config();
    let mut yaml = YAML::new(&config);
    assert!(yaml.begin_message(4));
    assert!(yaml.select_message(false, false, false));
    assert_eq!(yaml.finish_message(), None);
    assert!(!yaml.begin_message(4));
    assert!(!yaml.begin_message(4));
    assert!(yaml.begin_message(5));
    assert!(yaml.select_message(false, false, false));
    assert_eq!(yaml.finish_message(), None);
    assert!(yaml.begin_message(4));
    assert_eq!(yaml.current_message, 4);
    assert_eq!(yaml.current_message_row, 4);
}

#[test]
fn the_number_for_no_row_is_taken_for_a_repetition_at_first() {
    let config = config();
    let mut yaml = YAML::new(&config);
    assert!(!yaml.begin_message(-1));
    assert_eq!(yaml.current_message, 1);
    assert!(yaml.begin_message(1));
    assert!(yaml.begin_message(-1));
}

#[test]
fn reactions_and_polls_are_not_written_on_their_own() {
    let config = config();
    let mut yaml = YAML::new(&config);
    for (row, (a, b, c)) in [(true, false, false), (false, true, false), (false, false, true)]
        .into_iter()
        .enumerate()
    {
        assert!(yaml.begin_message(row as i32));
        assert!(!yaml.select_message(a, b, c));
    }
    assert_eq!(yaml.current_message, 3);
}

#[test]
fn progress_is_reported_now_and_then() {
    let config = config();
    let mut yaml = YAML::new(&config);
    let mut reports = Vec::new();
    for row in 0..200 {
        assert!(yaml.begin_message(row));
        if row == 98 {
            // The message that would be reported is not written.
            assert!(!yaml.select_message(true, false, false));
            continue;
        }
        assert!(yaml.select_message(false, false, false));
        if let Some(position) = yaml.finish_message() {
            reports.push(position);
        }
    }
    assert_eq!(reports, vec![198]);
    assert_eq!(yaml.current_message, 200);
}

#[test]
fn files_are_created_once() {
    let config = config();
    let mut yaml = YAML::new(&config);
    let ann = String::from("Ann");
    let bob = String::from("Bob");
    assert_eq!(yaml.get_or_create_file(None), Destination::Orphaned);
    assert_eq!(yaml.get_or_create_file(Some(&ann)), Destination::Create);
    assert_eq!(yaml.get_or_create_file(Some(&ann)), Destination::Create);
    assert_eq!(yaml.file_created(String::from("Ann")), 0);
    assert_eq!(yaml.get_or_create_file(Some(&ann)), Destination::Open(0));
    assert_eq!(yaml.get_or_create_file(Some(&bob)), Destination::Create);
    assert_eq!(yaml.file_created(String::from("Bob")), 1);
    assert_eq!(yaml.get_or_create_file(Some(&bob)), Destination::Open(1));
    assert_eq!(yaml.get_or_create_file(Some(&ann)), Destination::Open(0));
    assert_eq!(yaml.get_or_create_file(None), Destination::Orphaned);
    assert_eq!(yaml.files, vec!["Ann", "Bob"]);
}

#[test]
fn names_are_asked_for() {
    let query = sender_query(Some(3), true, Some(String::from("me@x")));
    assert_eq!(query.handle_id, Some(3));
    assert!(query.is_from_me);
    assert_eq!(query.destination_caller_id.as_deref(), Some("me@x"));
    let query = tapback_sender_query(None, true);
    assert_eq!(query.handle_id, None);
    assert!(query.is_from_me);
    assert_eq!(query.destination_caller_id, None);
    assert!(tapback_contact_query(Some(1), true, None).is_none());
    let query = tapback_contact_query(Some(1), false, Some(String::from("d"))).unwrap();
    assert_eq!(query.handle_id, Some(1));
    assert!(!query.is_from_me);
    assert_eq!(query.destination_caller_id.as_deref(), Some("d"));
    let query = participant_query(9);
    assert_eq!(query.handle_id, Some(9));
    assert!(!query.is_from_me);
    assert_eq!(query.destination_caller_id, None);
}

#[test]
fn one_file_is_opened_for_each_name() {
    let config = config();
    let mut yaml = YAML::new(&config);
    let names = [Some("b"), None, Some("a"), Some("b"), Some(""), Some("a"), None, Some("c")];
    let mut went = Vec::new();
    for name in names {
        let name = name.map(String::from);
        match yaml.get_or_create_file(name.as_ref()) {
            Destination::Orphaned => went.push(None),
            Destination::Open(index) => went.push(Some(index)),
            Destination::Create => went.push(Some(yaml.file_created(name.unwrap()))),
        }
    }
    assert_eq!(
        went,
        vec![Some(0), None, Some(1), Some(0), Some(2), Some(1), None, Some(3)]
    );
    assert_eq!(yaml.files, vec!["b", "a", "", "c"]);
}

#[test]
fn a_run_begins_anew() {
    let config = config();
    let mut yaml = YAML::new(&config);
    assert!(yaml.begin_message(8));
    assert!(yaml.select_message(false, false, false));
    assert_eq!(yaml.file_created(String::from("Ann")), 0);
    assert_eq!(yaml.finish_message(), None);
    yaml.start_run();
    assert_eq!(yaml.current_message, 0);
    assert_eq!(yaml.files, vec!["Ann"]);
    assert!(yaml.begin_message(8));
    let ann = String::from("Ann");
    assert_eq!(yaml.get_or_create_file(Some(&ann)), Destination::Open(0));
}
