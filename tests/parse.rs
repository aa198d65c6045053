use hotkey_config::config::Config;
use hotkey_config::error::{Error, ParseError};
use hotkey_config::hotkeys::{add_hotkeys, collect_hotkeys, parse_contents};
use hotkey_config::keybinding::{parse_keybinding, Hotkey, KeyBinding, Prefix, Value};
use hotkey_config::lines::{join_lines, load_to_lines, Line, LineType};
use hotkey_config::symbols::{Modifier, KEY_A, KEY_B, KEY_Q};

#[test]
fn test_join_line() {
    let line1 = Line::new("ctrl+shift+\\".to_string(), LineType::Key, 3);
    let line2 = Line::new("b".to_string(), LineType::Key, 3);
    assert_eq!(line1.join_line(&line2), Line::new("ctrl+shift+b".to_string(), LineType::Key, 3));
}

#[test]
fn test_mark_line() {
    let key = "ctrl+shift+\\".to_string();
    let command = " a".to_string();
    let comment = "# a".to_string();
    let empty = "".to_string();
    assert_eq!(LineType::Key, Line::mark_line(&key));
    assert_eq!(LineType::Command, Line::mark_line(&command));
    assert_eq!(LineType::Other, Line::mark_line(&comment));
    assert_eq!(LineType::Other, Line::mark_line(&empty));
}

#[test]
fn test_join_lines() {
    let content = "super + b
    b
super + \\
a
    a\\
    a";
    let lines = load_to_lines(content);
    let joined_lines = join_lines(lines);
    assert_eq!(
        joined_lines,
        vec![
            Line::new("super + b".to_string(), LineType::Key, 1),
            Line::new("b".to_string(), LineType::Command, 2),
            Line::new("super + a".to_string(), LineType::Key, 3),
            Line::new("aa".to_string(), LineType::Command, 5),
        ]
    );
}

#[test]
fn join_lines_of_the_listed_lines() {
    let content = ["super + b", "    b", "super + \\", "a", "    a\\", "    a"].join("\n");
    let joined = join_lines(load_to_lines(&content));
    assert_eq!(
        joined,
        vec![
            Line::new("super + b".to_string(), LineType::Key, 1),
            Line::new("b".to_string(), LineType::Command, 2),
            Line::new("super + a".to_string(), LineType::Key, 3),
            Line::new("aa".to_string(), LineType::Command, 5),
        ]
    );
}

#[test]
fn mark_line_tabs_and_indented_comments() {
    assert_eq!(Line::mark_line("\tfoo"), LineType::Command);
    assert_eq!(Line::mark_line("   # note"), LineType::Other);
    assert_eq!(Line::mark_line("   "), LineType::Other);
    assert_eq!(Line::mark_line("super + a"), LineType::Key);
}

#[test]
fn load_to_lines_drops_comments_and_numbers_from_one() {
    let lines = load_to_lines("# head\r\n\r\nsuper + a\r\n  cmd\r\n");
    assert_eq!(
        lines,
        vec![
            Line::new("super + a".to_string(), LineType::Key, 3),
            Line::new("  cmd".to_string(), LineType::Command, 4),
        ]
    );
    assert!(load_to_lines("").is_empty());
}

#[test]
fn join_lines_of_nothing_is_nothing() {
    assert!(join_lines(Vec::new()).is_empty());
}

#[test]
fn join_line_across_kinds_keeps_only_the_first() {
    let key = Line::new("super + \\".to_string(), LineType::Key, 7);
    let command = Line::new("echo".to_string(), LineType::Command, 8);
    assert_eq!(key.join_line(&command), Line::new("super + ".to_string(), LineType::Key, 7));
    let joined = join_lines(load_to_lines("super + \\\n   a"));
    assert_eq!(joined, vec![Line::new("super + ".to_string(), LineType::Key, 1)]);
}

#[test]
fn line_trim_and_continuation() {
    let line = Line::from_str("  echo hi \\  ", 4);
    assert_eq!(line.linetype, LineType::Command);
    assert!(!line.is_to_join());
    let trimmed = line.trim();
    assert_eq!(trimmed, Line::new("echo hi \\".to_string(), LineType::Command, 4));
    assert!(trimmed.is_to_join());
}

#[test]
fn sigils_in_either_order() {
    for key in ["super + shift + ~@q", "super + shift + @~q"] {
        let kb = parse_keybinding(key, 1, "cfg".to_string()).unwrap();
        assert!(kb.on_release);
        assert!(kb.send);
        assert_eq!(kb.keysym, KEY_Q);
        assert_eq!(kb.modifiers, vec![Modifier::Super, Modifier::Shift]);
    }
}

#[test]
fn single_sigils() {
    let kb = parse_keybinding("super + @q", 1, "cfg".to_string()).unwrap();
    assert!(kb.on_release && !kb.send);
    let kb = parse_keybinding("super + ~q", 1, "cfg".to_string()).unwrap();
    assert!(!kb.on_release && kb.send);
    let kb = parse_keybinding("b", 1, "cfg".to_string()).unwrap();
    assert_eq!(kb, KeyBinding::new(KEY_B, vec![]));
}

#[test]
fn invalid_modifier_names_the_line() {
    let r = parse_keybinding("super + nope + a", 12, "/etc/hk".to_string());
    assert_eq!(
        r.unwrap_err(),
        Error::InvalidConfig(ParseError::InvalidModifier("/etc/hk".to_string(), 12))
    );
}

#[test]
fn unknown_key_is_unknown_symbol() {
    let r = parse_keybinding("super + xyz123", 3, "/etc/hk".to_string());
    assert_eq!(r.unwrap_err(), Error::InvalidConfig(ParseError::UnknownSymbol("/etc/hk".to_string(), 3)));
    let r = parse_keybinding("", 4, "p".to_string());
    assert_eq!(r.unwrap_err(), Error::InvalidConfig(ParseError::UnknownSymbol("p".to_string(), 4)));
}

#[test]
fn unknown_key_is_reported_before_invalid_modifier() {
    let r = parse_keybinding("nope + xyz123", 2, "p".to_string());
    assert_eq!(r.unwrap_err(), Error::InvalidConfig(ParseError::UnknownSymbol("p".to_string(), 2)));
    let r = parse_keybinding("nope + ~@xyz123", 2, "p".to_string());
    assert_eq!(r.unwrap_err(), Error::InvalidConfig(ParseError::UnknownSymbol("p".to_string(), 2)));
}

#[test]
fn modifier_order_does_not_matter() {
    let a = parse_keybinding("ctrl+shift+a", 1, "p".to_string()).unwrap();
    let b = parse_keybinding("shift+ctrl+a", 1, "p".to_string()).unwrap();
    assert_eq!(a, b);
    assert_eq!(a.keysym, KEY_A);
    let c = parse_keybinding("ctrl+a", 1, "p".to_string()).unwrap();
    assert_ne!(a, c);
}

#[test]
fn builders_and_getters() {
    let kb = KeyBinding::new(KEY_A, vec![Modifier::Alt]).send().on_release();
    assert_eq!(kb.keysym(), KEY_A);
    assert_eq!(kb.modifiers(), vec![Modifier::Alt]);
    assert!(kb.is_send() && kb.is_on_release());
    let hk = Hotkey::new(KEY_B, vec![Modifier::Super], "echo".to_string()).on_release();
    assert_eq!((&hk).keysym(), KEY_B);
    assert_eq!((&hk).modifiers(), vec![Modifier::Super]);
    assert!(!(&hk).is_send());
    assert!((&hk).is_on_release());
    let same = Hotkey::from_keybinding(KeyBinding::new(KEY_B, vec![Modifier::Super]).on_release(), "echo".to_string());
    assert_eq!(hk, same);
}

#[test]
fn imports_are_second_words_of_import_lines() {
    let imports = Config::get_imports(
        "include /a\n# include /b\ninclude\n include /c\ninclude /d extra\ninclude\t/e\ninclude   /f  \nincluded /g\n",
    )
    .unwrap();
    let expected: Vec<String> = ["/a", "/c", "/d", "/e", "/f"].iter().map(|p| p.to_string()).collect();
    assert_eq!(imports, expected);
    let config = Config::new("/root".to_string(), "include /x\nsuper + a\n  cmd".to_string());
    assert_eq!(config.imports, vec!["/x".to_string()]);
    assert_eq!(config.path, "/root");
}

#[test]
fn load_to_configs_builds_each_import() {
    let root = Config::new("/root".to_string(), "include /x\ninclude /y".to_string());
    let configs = root.load_to_configs(&vec!["a".to_string(), "include /root".to_string()]);
    assert_eq!(configs.len(), 2);
    assert_eq!(configs[0], Config::new("/x".to_string(), "a".to_string()));
    assert_eq!(configs[1].imports, vec!["/root".to_string()]);
}

#[test]
fn merging_a_self_include_adds_nothing() {
    let root = Config::new("/root".to_string(), "include /root\nsuper + a\n  cmd".to_string());
    let loaded = root.load_to_configs(&vec![root.contents.clone()]);
    let (merged, grew) = Config::load_and_merge(vec![root.clone()], loaded);
    assert!(!grew);
    assert_eq!(merged, vec![root.clone()]);
    let other = Config::new("/other".to_string(), "b\n  x".to_string());
    let (merged, grew) = Config::load_and_merge(vec![root.clone()], vec![other.clone(), root.clone(), other.clone()]);
    assert!(grew);
    assert_eq!(merged, vec![root.clone(), other.clone()]);
    let (again, grew) = Config::load_and_merge(merged.clone(), vec![other, root]);
    assert!(!grew);
    assert_eq!(again, merged);
}

#[test]
fn hotkeys_pair_keys_with_commands() {
    let hotkeys = parse_contents("p".to_string(), "  echo first\nsuper + a\n  one\n  two\nb\n# c\n  three").unwrap();
    assert_eq!(
        hotkeys,
        vec![
            Hotkey::new(KEY_A, vec![Modifier::Super], "one".to_string()),
            Hotkey::new(KEY_A, vec![Modifier::Super], "two".to_string()),
            Hotkey::new(KEY_B, vec![], "three".to_string()),
        ]
    );
    let err = parse_contents("p".to_string(), "a\n  x\nsuper + bad\n  y").unwrap_err();
    assert_eq!(err, Error::InvalidConfig(ParseError::UnknownSymbol("p".to_string(), 3)));
}

#[test]
fn identical_hotkeys_of_two_files_collapse() {
    let first = Config::new("/one".to_string(), "super + shift + a\n  run".to_string());
    let second = Config::new("/two".to_string(), "shift + super + a\n  run\nb\n  other".to_string());
    let hotkeys = collect_hotkeys(&vec![first, second]).unwrap();
    assert_eq!(
        hotkeys,
        vec![
            Hotkey::new(KEY_A, vec![Modifier::Super, Modifier::Shift], "run".to_string()),
            Hotkey::new(KEY_B, vec![], "other".to_string()),
        ]
    );
    let mut acc = hotkeys.clone();
    add_hotkeys(&mut acc, hotkeys.clone());
    assert_eq!(acc, hotkeys);
}

#[test]
fn errors_name_the_file_they_come_from() {
    let good = Config::new("/one".to_string(), "a\n  x".to_string());
    let bad = Config::new("/two".to_string(), "\n\nfoo + a\n  y".to_string());
    let err = collect_hotkeys(&vec![good, bad]).unwrap_err();
    assert_eq!(err, Error::InvalidConfig(ParseError::InvalidModifier("/two".to_string(), 3)));
}

#[test]
fn lone_carriage_return_stays_in_the_line() {
    let lines = load_to_lines("a\r\nb\r");
    assert_eq!(
        lines,
        vec![
            Line::new("a".to_string(), LineType::Key, 1),
            Line::new("b\r".to_string(), LineType::Key, 2),
        ]
    );
}

#[test]
fn error_messages_name_path_and_line() {
    let e = Error::InvalidConfig(ParseError::UnknownSymbol("/etc/hk".to_string(), 12));
    assert_eq!(e.message(), "Error parsing config file \"/etc/hk\". Unknown symbol at line 12.");
    let e = Error::InvalidConfig(ParseError::InvalidModifier("a\"b".to_string(), 7));
    assert_eq!(e.message(), "Error parsing config file \"a\\\"b\". Invalid modifier at line 7.");
    let e = Error::InvalidConfig(ParseError::InvalidKeysym("p".to_string(), 4000000000));
    assert_eq!(e.message(), "Error parsing config file \"p\". Invalid keysym at line 4000000000.");
    assert_eq!(Error::ConfigNotFound.message(), "Config file not found.");
    assert_eq!(
        Error::Io("denied".to_string()).message(),
        "I/O Error while parsing config file: denied"
    );
}

#[test]
fn padded_tokens_parse_like_plain_ones() {
    let padded = parse_keybinding(" ctrl\t+  shift +\t@~a ", 1, "p".to_string()).unwrap();
    let plain = parse_keybinding("ctrl+shift+@~a", 1, "p".to_string()).unwrap();
    assert_eq!(padded, plain);
    assert!(padded.send && padded.on_release);
    assert_eq!(padded.modifiers, vec![Modifier::Control, Modifier::Shift]);
}
