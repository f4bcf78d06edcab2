use mstatui::config::{
    colors_would_panic, hex, names_are_distinct, hex_would_panic, load, load_would_panic, parse_key,
    read_credentials_field, read_credentials_token, read_credentials_username, resolve_colors,
    resolve_keys, ConfigError, HexError, KeyError, KeyMap, Palette, Range, RawConfig, Rgb,
};

fn raw() -> RawConfig {
    RawConfig {
        username: None,
        token: None,
        range: None,
        refresh_interval: None,
        keys: Vec::new(),
        colors: Vec::new(),
    }
}

fn entry(k: &str, v: &str) -> (String, String) {
    (k.to_string(), v.to_string())
}

#[test]
fn range_names_and_cycle() {
    assert_eq!(Range::Week.as_str(), "week");
    assert_eq!(Range::Month.as_str(), "month");
    assert_eq!(Range::Year.as_str(), "year");
    assert_eq!(Range::All.as_str(), "all_time");
    assert_eq!(Range::Week.cycle(), Range::Month);
    assert_eq!(Range::Month.cycle(), Range::Year);
    assert_eq!(Range::Year.cycle(), Range::All);
    assert_eq!(Range::All.cycle(), Range::Week);
}

#[test]
fn range_cycle_comes_back_after_four() {
    for r in [Range::Week, Range::Month, Range::Year, Range::All] {
        assert_eq!(r.cycle().cycle().cycle().cycle(), r);
        assert_ne!(r.cycle(), r);
    }
}

#[test]
fn default_keys_are_vim_style() {
    let k = KeyMap::default();
    assert_eq!(k.quit, 'q');
    assert_eq!(k.prev_tab, 'h');
    assert_eq!(k.next_tab, 'l');
    assert_eq!(k.down, 'j');
    assert_eq!(k.up, 'k');
    assert_eq!(k.top, 'g');
    assert_eq!(k.bottom, 'G');
    assert_eq!(k.toggle_range, 't');
    assert_eq!(k.refresh, 'r');
}

#[test]
fn default_palette_matches_its_hex_codes() {
    let p = Palette::default();
    assert_eq!(p.accent, hex("#9A6DD7").unwrap());
    assert_eq!(p.accent_deep, hex("#5A2A82").unwrap());
    assert_eq!(p.muted, hex("#6A6A6A").unwrap());
    assert_eq!(p.positive, hex("#9A6DD7").unwrap());
    assert_eq!(p.warning, hex("#B83D8E").unwrap());
    assert_eq!(p.error, hex("#FF6B6B").unwrap());
    assert_eq!(p.fg, hex("#E5E5E5").unwrap());
    assert_eq!(p.bg, hex("#0D0D0D").unwrap());
}

#[test]
fn hex_reads_rgb() {
    assert_eq!(hex("#9A6DD7").unwrap(), Rgb { r: 0x9A, g: 0x6D, b: 0xD7 });
    assert_eq!(hex("ff00aa").unwrap(), Rgb { r: 255, g: 0, b: 170 });
    assert_eq!(hex("##010203").unwrap(), Rgb { r: 1, g: 2, b: 3 });
    assert_eq!(hex("#+f+f+f").unwrap(), Rgb { r: 15, g: 15, b: 15 });
}

#[test]
fn hex_wrong_length() {
    match hex("#12345") {
        Err(HexError::WrongLength(s)) => assert_eq!(s, "12345"),
        other => panic!("unexpected {:?}", other),
    }
    match hex("#1234567") {
        Err(HexError::WrongLength(s)) => assert_eq!(s, "1234567"),
        other => panic!("unexpected {:?}", other),
    }
    match hex("") {
        Err(HexError::WrongLength(s)) => assert_eq!(s, ""),
        other => panic!("unexpected {:?}", other),
    }
}

#[test]
fn hex_invalid_digit() {
    assert!(matches!(hex("#12345g"), Err(HexError::InvalidDigit)));
    assert!(matches!(hex("#-12345"), Err(HexError::InvalidDigit)));
    assert!(matches!(hex("#++0000"), Err(HexError::InvalidDigit)));
    // six bytes, four characters, boundaries at 2 and 4
    assert!(matches!(hex("éé12"), Err(HexError::InvalidDigit)));
}

#[test]
fn hex_panicking_inputs_are_detected() {
    // 'a' then a three-byte char: no boundary at byte 2
    assert!(hex_would_panic("#a€bc"));
    // "ff" then a three-byte char then one byte: no boundary at byte 4
    assert!(hex_would_panic("ff€x"));
    // first pair invalid: the second slice is never taken
    assert!(!hex_would_panic("zz€x"));
    assert!(!hex_would_panic("#9A6DD7"));
    assert!(!hex_would_panic("éé12"));
    assert!(!hex_would_panic("#123"));
}

#[test]
fn parse_key_single_char() {
    assert_eq!(parse_key("x").unwrap(), 'x');
    assert_eq!(parse_key("é").unwrap(), 'é');
    assert!(matches!(parse_key(""), Err(KeyError::Empty)));
    match parse_key("ab") {
        Err(KeyError::NotSingle(s)) => assert_eq!(s, "ab"),
        other => panic!("unexpected {:?}", other),
    }
}

const CREDS: &str = "[lastfm]\nusername = other\ntoken=xyz\n\n[listenbrainz]\n  username =  alice  \r\ntoken= t0k3n\nnoequals\n[librefm]\nusername = bob\n";

#[test]
fn credentials_read_from_listenbrainz_section() {
    assert_eq!(read_credentials_username(CREDS).as_deref(), Some("alice"));
    assert_eq!(read_credentials_token(CREDS).as_deref(), Some("t0k3n"));
    assert_eq!(read_credentials_field(CREDS, "password"), None);
}

#[test]
fn credentials_outside_section_are_ignored() {
    let body = "username = nobody\n[listenbrainz ]\nusername = x\n";
    assert_eq!(read_credentials_username(body), None);
    let body = "[listenbrainz]\nusername=first\nusername=second";
    assert_eq!(read_credentials_username(body).as_deref(), Some("first"));
    assert_eq!(read_credentials_token(""), None);
}

#[test]
fn credentials_value_may_hold_equals() {
    let body = "[listenbrainz]\ntoken = a=b\n";
    assert_eq!(read_credentials_token(body).as_deref(), Some("a=b"));
}

#[test]
fn load_defaults() {
    let mut r = raw();
    r.username = Some("me".to_string());
    let c = load(r, None, None, None).unwrap();
    assert_eq!(c.username, "me");
    assert_eq!(c.token, None);
    assert_eq!(c.range, Range::Week);
    assert_eq!(c.refresh_interval, 0);
    assert_eq!(c.keys, KeyMap::default());
    assert_eq!(c.colors, Palette::default());
}

#[test]
fn load_applies_overrides() {
    let mut r = raw();
    r.username = Some("me".to_string());
    r.range = Some(Range::Year);
    r.refresh_interval = Some(30);
    r.keys = vec![entry("quit", "Q"), entry("down", "n")];
    r.colors = vec![entry("bg", "#000000"), entry("accent", "#010203")];
    let c = load(r, None, None, None).unwrap();
    assert_eq!(c.range, Range::Year);
    assert_eq!(c.refresh_interval, 30);
    assert_eq!(c.keys.quit, 'Q');
    assert_eq!(c.keys.down, 'n');
    assert_eq!(c.keys.up, 'k');
    assert_eq!(c.colors.bg, Rgb { r: 0, g: 0, b: 0 });
    assert_eq!(c.colors.accent, Rgb { r: 1, g: 2, b: 3 });
    assert_eq!(c.colors.fg, Palette::default().fg);
}

#[test]
fn load_priority_config_env_credentials() {
    let creds = Some(CREDS.to_string());
    let mut r = raw();
    r.username = Some("cfg".to_string());
    r.token = Some("cfgtok".to_string());
    let c = load(r, Some("envtok".into()), Some("env".into()), creds.clone()).unwrap();
    assert_eq!(c.username, "cfg");
    assert_eq!(c.token.as_deref(), Some("cfgtok"));

    let c = load(raw(), Some("envtok".into()), Some("env".into()), creds.clone()).unwrap();
    assert_eq!(c.username, "env");
    assert_eq!(c.token.as_deref(), Some("envtok"));

    let c = load(raw(), None, None, creds).unwrap();
    assert_eq!(c.username, "alice");
    assert_eq!(c.token.as_deref(), Some("t0k3n"));
}

#[test]
fn load_without_username_fails() {
    assert!(matches!(load(raw(), Some("t".into()), None, None), Err(ConfigError::NoUsername)));
    let body = Some("[listenbrainz]\ntoken = t\n".to_string());
    assert!(matches!(load(raw(), None, None, body), Err(ConfigError::NoUsername)));
}

#[test]
fn load_key_errors_in_order() {
    let mut r = raw();
    r.username = Some("me".into());
    r.keys = vec![entry("quit", "q"), entry("jump", "x"), entry("down", "")];
    r.colors = vec![entry("nope", "#000000")];
    match load(r, None, None, None) {
        Err(ConfigError::UnknownKeyAction(a)) => assert_eq!(a, "jump"),
        other => panic!("unexpected {:?}", other.err()),
    }
    let mut r = raw();
    r.keys = vec![entry("down", ""), entry("jump", "x")];
    match load(r, None, None, None) {
        Err(ConfigError::KeyBinding { action, cause: KeyError::Empty }) => assert_eq!(action, "down"),
        other => panic!("unexpected {:?}", other.err()),
    }
    let mut r = raw();
    r.keys = vec![entry("nonsense", "xy")];
    match load(r, None, None, None) {
        Err(ConfigError::KeyBinding { action, cause: KeyError::NotSingle(v) }) => {
            assert_eq!(action, "nonsense");
            assert_eq!(v, "xy");
        },
        other => panic!("unexpected {:?}", other.err()),
    }
}

#[test]
fn load_color_errors() {
    let mut r = raw();
    r.username = Some("me".into());
    r.colors = vec![entry("bg", "#000000"), entry("shadow", "#000000")];
    match load(r, None, None, None) {
        Err(ConfigError::UnknownColorSlot(s)) => assert_eq!(s, "shadow"),
        other => panic!("unexpected {:?}", other.err()),
    }
    let mut r = raw();
    r.colors = vec![entry("shadow", "#00")];
    match load(r, None, None, None) {
        Err(ConfigError::Color { slot, cause: HexError::WrongLength(t) }) => {
            assert_eq!(slot, "shadow");
            assert_eq!(t, "00");
        },
        other => panic!("unexpected {:?}", other.err()),
    }
    let mut r = raw();
    r.colors = vec![entry("fg", "#zz0000")];
    assert!(matches!(
        load(r, None, None, None),
        Err(ConfigError::Color { cause: HexError::InvalidDigit, .. })
    ));
}

#[test]
fn load_panic_detection() {
    let mut r = raw();
    r.colors = vec![entry("fg", "#a€bc")];
    assert!(load_would_panic(&r));
    assert!(colors_would_panic(&r.colors));
    // an earlier refused entry stops the reading first
    r.colors = vec![entry("shadow", "#000000"), entry("fg", "#a€bc")];
    assert!(!load_would_panic(&r));
    // so does a refused key binding
    let mut r = raw();
    r.keys = vec![entry("quit", "")];
    r.colors = vec![entry("fg", "#a€bc")];
    assert!(!load_would_panic(&r));
}

#[test]
fn resolve_tables_directly() {
    let keys = resolve_keys(&vec![entry("top", "0"), entry("bottom", "1")]).unwrap();
    assert_eq!((keys.top, keys.bottom), ('0', '1'));
    let colors = resolve_colors(&vec![entry("muted", "#101010")]).unwrap();
    assert_eq!(colors.muted, Rgb { r: 16, g: 16, b: 16 });
    assert_eq!(resolve_keys(&Vec::new()).unwrap(), KeyMap::default());
}

#[test]
fn table_names_distinct() {
    assert!(names_are_distinct(&vec![entry("quit", "x"), entry("down", "n")]));
    assert!(names_are_distinct(&Vec::new()));
    assert!(!names_are_distinct(&vec![entry("quit", "x"), entry("down", "n"), entry("quit", "y")]));
}

#[test]
fn unlisted_settings_keep_defaults() {
    let keys = resolve_keys(&vec![entry("down", "n"), entry("quit", "x")]).unwrap();
    let d = KeyMap::default();
    assert_eq!(keys.down, 'n');
    assert_eq!(keys.quit, 'x');
    assert_eq!(
        KeyMap { down: d.down, quit: d.quit, ..keys },
        d,
    );
    let colors = resolve_colors(&vec![entry("fg", "#010203"), entry("error", "040506")]).unwrap();
    let p = Palette::default();
    assert_eq!(colors.fg, Rgb { r: 1, g: 2, b: 3 });
    assert_eq!(colors.error, Rgb { r: 4, g: 5, b: 6 });
    assert_eq!(Palette { fg: p.fg, error: p.error, ..colors }, p);
}

#[test]
fn table_order_does_not_matter() {
    let a = vec![entry("up", "w"), entry("refresh", "R"), entry("toggle_range", "T")];
    let b = vec![entry("toggle_range", "T"), entry("up", "w"), entry("refresh", "R")];
    assert_eq!(resolve_keys(&a).unwrap(), resolve_keys(&b).unwrap());
    let c = vec![entry("bg", "#000000"), entry("accent", "#FFFFFF"), entry("muted", "#123456")];
    let d = vec![entry("muted", "#123456"), entry("bg", "#000000"), entry("accent", "#FFFFFF")];
    assert_eq!(resolve_colors(&c).unwrap(), resolve_colors(&d).unwrap());
}
