use sender::config::{parse_key, Config, KeyError, KeymapConfig};
use sender::keys::{KeyCode, KeyEvent, KeyModifiers};

#[test]
fn defaults_parse_to_expected_keys() {
    let keymap = KeymapConfig::default().parse().unwrap();
    assert_eq!(
        keymap.send,
        KeyEvent::new(KeyCode::Enter, KeyModifiers::none())
    );
    assert_eq!(
        keymap.newline,
        KeyEvent::new(KeyCode::Enter, KeyModifiers::shift())
    );
    assert_eq!(
        keymap.quit,
        KeyEvent::new(KeyCode::Char('c'), KeyModifiers::control())
    );
    assert_eq!(
        keymap.dismiss,
        KeyEvent::new(KeyCode::Esc, KeyModifiers::none())
    );
    assert_eq!(
        keymap.scroll_to_bottom,
        KeyEvent::new(KeyCode::Char('g'), KeyModifiers::shift())
    );
    assert_eq!(
        keymap.retry_connection,
        KeyEvent::new(KeyCode::Char('r'), KeyModifiers::none())
    );
    assert_eq!(
        keymap.play_pause,
        KeyEvent::new(KeyCode::Char(' '), KeyModifiers::none())
    );
    assert_eq!(
        keymap.seek_back,
        KeyEvent::new(KeyCode::Char('<'), KeyModifiers::none())
    );
    assert_eq!(
        keymap.seek_forward,
        KeyEvent::new(KeyCode::Char('>'), KeyModifiers::none())
    );
}

#[test]
fn uppercase_char_implies_shift() {
    let key = parse_key("J").unwrap();
    assert_eq!(key.code, KeyCode::Char('j'));
    assert!(key.modifiers.shift);
}

#[test]
fn unknown_key_is_an_error() {
    assert!(parse_key("banana").is_err());
    assert!(parse_key("ctrl+banana").is_err());
}

#[test]
fn every_kind_of_bad_key_is_named() {
    assert_eq!(
        parse_key("hyper+a"),
        Err(KeyError::UnsupportedModifier { modifier: "hyper".into(), spec: "hyper+a".into() })
    );
    assert_eq!(
        parse_key("banana"),
        Err(KeyError::UnsupportedKey { key: "banana".into(), spec: "banana".into() })
    );
    assert!(matches!(parse_key(""), Err(KeyError::Empty { .. })));
}

#[test]
fn a_keymap_names_its_first_bad_key() {
    let mut keys = KeymapConfig::default();
    keys.send = "ctrl+banana".to_string();
    assert!(keys.parse().is_err());
}

#[test]
fn modifiers_combine() {
    let key = parse_key("ctrl+alt+x").unwrap();
    assert!(key.modifiers.control && key.modifiers.alt && !key.modifiers.shift);
    assert_eq!(key.code, KeyCode::Char('x'));
    assert_eq!(parse_key("f5").unwrap().code, KeyCode::F(5));
}

#[test]
fn files_lie_in_the_config_directory() {
    assert_eq!(
        Config::config_file_path(Some("/home/me/.config"), Some("/home/me")),
        Config::user_config_dir(Some("/home/me/.config"), Some("/home/me"))
            .map(|d| format!("{d}/config.toml"))
    );
    assert_eq!(
        Config::user_config_dir(None, Some("/home/me")),
        Ok("/home/me/senders".to_string())
    );
    assert!(Config::user_config_dir(None, None).is_err());
}

#[test]
fn defaults_are_usable() {
    let config = Config::default();
    assert_eq!(config.max_write_lines, 5);
    assert!(!config.providers.telegram.enabled);
    assert!(!config.providers.whatsapp);
    assert_eq!(config.keys.play_pause, "space");
}

#[test]
fn function_keys_beyond_the_twelfth_are_errors() {
    assert!(parse_key("f12").is_ok());
    for binding in ["f0", "f13", "f255", "f256", "ctrl+f99999999999999999999"] {
        assert!(
            matches!(parse_key(binding), Err(KeyError::UnsupportedKey { .. })),
            "{binding}"
        );
    }
    assert!(
        matches!(parse_key("hyper+f256"), Err(KeyError::UnsupportedModifier { .. })),
        "the modifier is at fault first"
    );
}
