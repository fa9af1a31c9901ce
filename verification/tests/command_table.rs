use rust_openai_bot::keyboards::{
    check_command_entries, commands_from_file_text, entries_of_file, error_msg_field,
    extract_command_from_label,
    get_main_keyboard, load_commands_with_emoji, Command, CommandEntry, CommandsError,
    ErrorMsgField, LabelPattern,
};

fn entry(key: &str, msg: Option<&str>) -> CommandEntry {
    CommandEntry {
        key: key.to_string(),
        error_msg: match msg {
            Some(m) => ErrorMsgField::Text(m.to_string()),
            None => ErrorMsgField::Missing,
        },
    }
}

fn command(name: &str) -> Command {
    Command { name: name.to_string(), action: String::new(), error_msg: String::new() }
}

#[test]
fn emoji_prefix_pattern_compiles() {
    assert!(LabelPattern::emoji_prefix().is_ok());
}

#[test]
fn labels_lose_their_emoji_and_case() {
    let p = LabelPattern::emoji_prefix().unwrap();
    assert_eq!(extract_command_from_label(&p, "🐶 Dogs"), "dogs");
    assert_eq!(extract_command_from_label(&p, "🐱   Cats  "), "cats");
    assert_eq!(extract_command_from_label(&p, "🚗Vehicles"), "vehicles");
}

#[test]
fn labels_without_emoji_are_only_trimmed_and_lowered() {
    let p = LabelPattern::emoji_prefix().unwrap();
    assert_eq!(extract_command_from_label(&p, "/Space"), "/space");
    assert_eq!(extract_command_from_label(&p, "  Nature "), "nature");
    assert_eq!(extract_command_from_label(&p, ""), "");
}

#[test]
fn only_the_first_emoji_is_removed() {
    let p = LabelPattern::emoji_prefix().unwrap();
    assert_eq!(extract_command_from_label(&p, "🐶 🐱 Pets"), "🐱 pets");
}

#[test]
fn commands_come_from_emoji_entries_in_order() {
    let p = LabelPattern::emoji_prefix().unwrap();
    let entries = vec![
        entry("plain key", None),
        entry("🐶 Dogs", Some("No dogs today")),
        entry("🚗 Fast Cars", Some("No cars")),
    ];
    let cmds = load_commands_with_emoji(&p, &entries);
    assert_eq!(
        cmds,
        vec![
            Command {
                name: "🐶 Dogs".to_string(),
                action: "dogs".to_string(),
                error_msg: "No dogs today".to_string(),
            },
            Command {
                name: "🚗 Fast Cars".to_string(),
                action: "fast_cars".to_string(),
                error_msg: "No cars".to_string(),
            },
        ]
    );
}

#[test]
fn command_query_keeps_inner_spaces_as_underscores() {
    let p = LabelPattern::emoji_prefix().unwrap();
    let entries = vec![entry("🌊 Under Water  Scenes", Some("x"))];
    let cmds = load_commands_with_emoji(&p, &entries);
    assert_eq!(cmds[0].action, "under_water__scenes");
}

#[test]
fn empty_file_gives_no_commands() {
    let p = LabelPattern::emoji_prefix().unwrap();
    assert_eq!(load_commands_with_emoji(&p, &vec![]), vec![]);
    assert_eq!(check_command_entries(&p, &vec![]), Ok(()));
}

#[test]
fn missing_error_message_is_reported_with_its_label() {
    let p = LabelPattern::emoji_prefix().unwrap();
    let entries = vec![entry("🐶 Dogs", Some("x")), entry("🐱 Cats", None), entry("🚀 Space", None)];
    assert_eq!(
        check_command_entries(&p, &entries),
        Err(CommandsError::MissingErrorMessage("🐱 Cats".to_string()))
    );
}

#[test]
fn error_message_that_is_not_text_is_reported() {
    let p = LabelPattern::emoji_prefix().unwrap();
    let entries = vec![CommandEntry { key: "🐶 Dogs".to_string(), error_msg: ErrorMsgField::NotText }];
    assert_eq!(
        check_command_entries(&p, &entries),
        Err(CommandsError::ErrorMessageNotText("🐶 Dogs".to_string()))
    );
}

#[test]
fn entries_without_emoji_need_no_error_message() {
    let p = LabelPattern::emoji_prefix().unwrap();
    let entries = vec![CommandEntry { key: "settings".to_string(), error_msg: ErrorMsgField::NotText }];
    assert_eq!(check_command_entries(&p, &entries), Ok(()));
    assert_eq!(load_commands_with_emoji(&p, &entries), vec![]);
}

#[test]
fn keyboard_puts_three_buttons_on_a_row() {
    let cmds: Vec<Command> = ["a", "b", "c", "d", "e"].iter().map(|n| command(n)).collect();
    let k = get_main_keyboard(&cmds);
    assert!(k.resize_keyboard);
    assert_eq!(
        k.rows,
        vec![
            vec!["a".to_string(), "b".to_string(), "c".to_string()],
            vec!["d".to_string(), "e".to_string()],
        ]
    );
}

#[test]
fn keyboard_of_exact_rows_and_of_nothing() {
    let six: Vec<Command> = ["1", "2", "3", "4", "5", "6"].iter().map(|n| command(n)).collect();
    let k = get_main_keyboard(&six);
    assert_eq!(k.rows.len(), 2);
    assert!(k.rows.iter().all(|r| r.len() == 3));
    let none = get_main_keyboard(&[]);
    assert!(none.rows.is_empty());
    assert!(none.resize_keyboard);
}

#[test]
fn keyboard_shows_every_label_once_in_order() {
    let names = ["🐶 Dogs", "🐱 Cats", "🚗 Cars", "🌊 Sea", "🚀 Space", "🌲 Nature", "🍕 Food"];
    let cmds: Vec<Command> = names.iter().map(|n| command(n)).collect();
    let k = get_main_keyboard(&cmds);
    let flat: Vec<String> = k.rows.iter().flatten().cloned().collect();
    assert_eq!(flat, names.iter().map(|s| s.to_string()).collect::<Vec<_>>());
    assert!(k.rows.iter().all(|r| (1..=3).contains(&r.len())));
}

#[test]
fn digits_count_as_emoji_at_the_start_of_a_label() {
    let p = LabelPattern::emoji_prefix().unwrap();
    assert_eq!(extract_command_from_label(&p, "1 Dogs"), "dogs");
    assert_eq!(extract_command_from_label(&p, "#Tag"), "tag");
}

fn cmd(name: &str, action: &str, error_msg: &str) -> Command {
    Command { name: name.to_string(), action: action.to_string(), error_msg: error_msg.to_string() }
}

#[test]
fn command_file_gives_emoji_keys_in_ascending_order() {
    let p = LabelPattern::emoji_prefix().unwrap();
    let text = "\"🐶 Big Dogs\":\n  error_msg: \"no dogs\"\nSettings:\n  foo: 1\n\"🐱 Cats\":\n  error_msg: \"no cats\"\n";
    assert_eq!(
        commands_from_file_text(&p, text),
        Ok(vec![cmd("🐱 Cats", "cats", "no cats"), cmd("🐶 Big Dogs", "big_dogs", "no dogs")])
    );
}

#[test]
fn command_file_digits_count_as_emoji_and_trailing_space_is_kept() {
    let p = LabelPattern::emoji_prefix().unwrap();
    let text = "\"1 Cats\":\n  error_msg: a\n\"🚀 Outer Space \":\n  error_msg: b\n";
    assert_eq!(
        commands_from_file_text(&p, text),
        Ok(vec![cmd("1 Cats", "cats", "a"), cmd("🚀 Outer Space ", "outer_space_", "b")])
    );
}

#[test]
fn command_file_that_is_no_mapping_is_unparsable() {
    let p = LabelPattern::emoji_prefix().unwrap();
    assert_eq!(commands_from_file_text(&p, "- just\n- a list\n"), Err(CommandsError::Unparsable));
    assert_eq!(commands_from_file_text(&p, "key: plain value\n"), Err(CommandsError::Unparsable));
    assert_eq!(commands_from_file_text(&p, "a: [unclosed\n"), Err(CommandsError::Unparsable));
}

#[test]
fn command_file_errors_name_the_first_command_at_fault() {
    let p = LabelPattern::emoji_prefix().unwrap();
    let cats_first = "\"🐶 Dogs\":\n  other: 1\n\"🐱 Cats\":\n  error_msg: 3\n";
    assert_eq!(
        commands_from_file_text(&p, cats_first),
        Err(CommandsError::ErrorMessageNotText("🐱 Cats".to_string()))
    );
    let dogs_only = "\"🐶 Dogs\":\n  other: 1\n";
    assert_eq!(
        commands_from_file_text(&p, dogs_only),
        Err(CommandsError::MissingErrorMessage("🐶 Dogs".to_string()))
    );
}

#[test]
fn command_file_keys_without_emoji_need_nothing() {
    let p = LabelPattern::emoji_prefix().unwrap();
    assert_eq!(commands_from_file_text(&p, "Settings:\n  foo: 1\n"), Ok(vec![]));
    assert_eq!(commands_from_file_text(&p, "{}"), Ok(vec![]));
}

#[test]
fn error_msg_field_is_found_among_the_fields() {
    let f = |n: &str, v: Option<&str>| (n.to_string(), v.map(|t| t.to_string()));
    assert_eq!(error_msg_field(&vec![]), ErrorMsgField::Missing);
    assert_eq!(error_msg_field(&vec![f("color", Some("red"))]), ErrorMsgField::Missing);
    assert_eq!(
        error_msg_field(&vec![f("a", None), f("error_msg", Some("sorry"))]),
        ErrorMsgField::Text("sorry".to_string())
    );
    assert_eq!(error_msg_field(&vec![f("error_msg", None)]), ErrorMsgField::NotText);
    let file = vec![("🐶 Dogs".to_string(), vec![f("error_msg", Some("x"))])];
    assert_eq!(
        entries_of_file(&file),
        vec![CommandEntry { key: "🐶 Dogs".to_string(), error_msg: ErrorMsgField::Text("x".to_string()) }]
    );
}
