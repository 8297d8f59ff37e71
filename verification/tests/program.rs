use boltsnap::doctor::{print_doctor, print_windows_doctor, self_test};
use boltsnap::editor::{editor_args, found_editor, resolve_editor, run_editor, EditorEnd};
use boltsnap::order::{not_behind, sorted};
use boltsnap::paths::Environment;
use boltsnap::text::{
    among, ascii_lowercase, contains, decimal_string, ends_with, first_chars, join_texts, lines,
    parse_integer, rsplit_once, signed_decimal_string, split_once, split_parts, strip_prefix,
    strip_suffix, trim, trim_char, trim_start, IntError,
};

fn words(words: &[&str]) -> Vec<String> {
    words.iter().map(|word| word.to_string()).collect()
}

#[test]
fn the_program_says_what_it_finds() {
    let lines = print_doctor(Some("wayland"), true, true, true, "/run/boltsnap.sock");
    assert_eq!(lines[0], "Boltsnap doctor");
    assert!(lines.iter().any(|line| line.contains("wayland")));
    assert!(lines.iter().any(|line| line.contains("/run/boltsnap.sock")));
    assert_ne!(
        print_doctor(Some("wayland"), true, true, true, "s"),
        print_doctor(Some("wayland"), true, true, false, "s")
    );
    assert!(print_doctor(None, false, false, false, "s").iter().any(|line| line.contains("unknown")));
    assert!(print_windows_doctor(r"\\.\pipe\x").iter().any(|line| line.contains(r"\\.\pipe\x")));
    assert_ne!(self_test(true), self_test(false));
}

#[test]
fn an_editor_is_run() {
    assert!(editor_args("a.png", "b.png").contains(&"a.png".to_string()));
    assert!(editor_args("a.png", "b.png").contains(&"b.png".to_string()));
    assert_eq!(found_editor(Some("eddy".into())), Ok("eddy".to_string()));
    assert!(found_editor(None).is_err());
    let ended = |success: bool| EditorEnd::Ended { success, status: "exit 1".into() };
    assert_eq!(run_editor("eddy", ended(true), true, true), Ok(true));
    assert_eq!(run_editor("eddy", ended(true), false, true), Ok(false));
    assert_eq!(run_editor("eddy", ended(true), true, false), Ok(false));
    assert!(run_editor("eddy", ended(false), true, true).unwrap_err().contains("exit 1"));
    assert!(run_editor("eddy", EditorEnd::Failed("gone".into()), true, true)
        .unwrap_err()
        .contains("gone"));
}

#[test]
fn an_editor_is_looked_for_in_order() {
    let environment = |vars: &[(&str, &str)]| Environment {
        vars: vars.iter().map(|(name, value)| (name.to_string(), value.to_string())).collect(),
        home_dir: "/home/bolt".into(),
        config_dir: String::new(),
        screenshot_dir: String::new(),
        temp_dir: String::new(),
        current_dir: String::new(),
    };
    let set = environment(&[("BOLTSNAP_EDITOR", "var")]);
    let unset = environment(&[]);
    assert_eq!(resolve_editor(Some("cli"), &set, Some("file"), true, true).unwrap(), "cli");
    assert_eq!(resolve_editor(None, &set, Some("file"), true, true).unwrap(), "var");
    assert_eq!(resolve_editor(None, &unset, Some("file"), true, true).unwrap(), "file");
    assert_eq!(resolve_editor(None, &unset, None, true, true).unwrap(), "eddy");
    assert_eq!(
        resolve_editor(None, &unset, None, false, true).unwrap(),
        "/home/bolt/projects/eddy/build/eddy"
    );
    assert_eq!(resolve_editor(None, &unset, None, false, false), None);
}

#[test]
fn texts_are_sorted_as_bytes() {
    let mut expected = words(&["b", "", "a", "ab", "\u{e4}", "Z", "a"]);
    let found = sorted(&expected);
    expected.sort();
    assert_eq!(found, expected);
    assert!(not_behind("a", "a"));
    assert!(not_behind("a", "b"));
    assert!(!not_behind("b", "a"));
}

#[test]
fn texts_are_taken_apart_as_std_does() {
    for text in ["", " a b ", "\u{3000}x\u{a0}", "a=b=c", "=", "'x'", "''", "a,b;c", "\u{e4}\u{df}"] {
        assert_eq!(trim(text), text.trim());
        assert_eq!(trim_start(text), text.trim_start());
        assert_eq!(trim_char(text, '\''), text.trim_matches('\''));
        assert_eq!(
            split_once(text, '='),
            text.split_once('=').map(|(a, b)| (a.to_string(), b.to_string()))
        );
        assert_eq!(
            rsplit_once(text, '='),
            text.rsplit_once('=').map(|(a, b)| (a.to_string(), b.to_string()))
        );
        assert_eq!(
            split_parts(text, ',', ';'),
            text.split([',', ';']).map(String::from).collect::<Vec<_>>()
        );
        assert_eq!(ascii_lowercase(text), text.to_ascii_lowercase());
        assert_eq!(strip_prefix(text, "a"), text.strip_prefix("a").map(String::from));
        assert_eq!(strip_suffix(text, "c"), text.strip_suffix("c").map(String::from));
        assert_eq!(contains(text, "b"), text.contains("b"));
        assert_eq!(ends_with(text, "c"), text.ends_with("c"));
        assert_eq!(first_chars(text, 2), text.chars().take(2).collect::<String>());
    }
    for text in ["", "a", "a\n", "a\r\nb", "\n\n", "a\rb\r", "x\r\n\r\n"] {
        assert_eq!(lines(text), text.lines().map(String::from).collect::<Vec<_>>(), "{text:?}");
    }
    assert_eq!(join_texts(&words(&["a", "b"]), ", "), "a, b");
    assert!(among(&words(&["a", "b"]), "b"));
    assert!(!among(&words(&["a", "b"]), "c"));
}

#[test]
fn numbers_are_read_and_written_as_std_does() {
    for number in [0u128, 9, 10, 12_345, u128::MAX] {
        assert_eq!(decimal_string(number), number.to_string());
    }
    for number in [0i64, -1, i64::MIN, i64::MAX] {
        assert_eq!(signed_decimal_string(number), number.to_string());
    }
    for text in ["", "+", "-", "0", "+7", "-7", "007", "99", "128", "-128", "-129", "1_0", "\u{0663}"] {
        let found = parse_integer(text, i8::MIN as i64, i8::MAX as u64);
        match text.parse::<i8>() {
            Ok(number) => assert_eq!(found, Ok(number as i128), "{text:?}"),
            Err(error) => assert_eq!(found.unwrap_err().message(), error.to_string(), "{text:?}"),
        }
    }
    assert_eq!(parse_integer("256", 0, 255), Err(IntError::TooLarge));
    assert_eq!(parse_integer("-1", 0, 255), Err(IntError::InvalidDigit));
}
