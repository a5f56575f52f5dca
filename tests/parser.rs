use banter::parser::{decode_irc_value, parse_message, parse_privmsg, parse_tags, Tags};

fn tags_of(pairs: &[(&str, &str)]) -> Tags {
    let mut t = Tags::new();
    for (k, v) in pairs {
        t.insert(k.to_string(), v.to_string());
    }
    t
}

#[test]
fn parse_tags_splits_on_semicolon_and_first_equals() {
    let t = parse_tags("k1=v1;k2=a=b;flag;k3=");
    assert_eq!(t.get("k1"), Some("v1".to_string()));
    assert_eq!(t.get("k2"), Some("a=b".to_string()));
    assert_eq!(t.get("k3"), Some(String::new()));
    assert_eq!(t.get("flag"), None);
    assert_eq!(t.get("k4"), None);
}

#[test]
fn parse_tags_later_key_wins() {
    let t = parse_tags("a=1;a=2");
    assert_eq!(t.get("a"), Some("2".to_string()));
}

#[test]
fn parse_tags_keeps_values_escaped() {
    let t = parse_tags("display-name=Big\\sBird");
    assert_eq!(t.get("display-name"), Some("Big\\sBird".to_string()));
}

#[test]
fn parse_tags_empty_segment() {
    let t = parse_tags("");
    assert_eq!(t.pairs().len(), 0);
}

#[test]
fn decode_space_backslash_semicolon() {
    assert_eq!(decode_irc_value("a\\sb"), "a b");
    assert_eq!(decode_irc_value("a\\\\b"), "a\\b");
    assert_eq!(decode_irc_value("a\\:b"), "a;b");
    assert_eq!(decode_irc_value("plain"), "plain");
}

#[test]
fn decode_is_one_left_to_right_pass() {
    // `\\` followed by `s` is a backslash and a letter, not a space
    assert_eq!(decode_irc_value("\\\\s"), "\\s");
    assert_eq!(decode_irc_value("\\x"), "\\x");
    assert_eq!(decode_irc_value("end\\"), "end\\");
}

#[test]
fn privmsg_basic_fields() {
    let tags = tags_of(&[("display-name", "Nick"), ("color", "#FF0000"), ("id", "abc"), ("tmi-sent-ts", "123")]);
    let m = parse_privmsg(Some("nick!user@host"), "#chan :hello world", &tags).unwrap();
    assert_eq!(m.username, "nick");
    assert_eq!(m.channel, "#chan");
    assert_eq!(m.text, "hello world");
    assert_eq!(m.display_name, "Nick");
    assert_eq!(m.color, Some("#FF0000".to_string()));
    assert_eq!(m.id, Some("abc".to_string()));
    assert_eq!(m.ts, Some("123".to_string()));
    assert_eq!(m.emotes, None);
    assert!(m.badges.is_empty());
}

#[test]
fn privmsg_decodes_tag_values() {
    let tags = tags_of(&[("display-name", "Big\\sBird"), ("emotes", "25:0-4")]);
    let m = parse_privmsg(Some("bird"), "#c :x", &tags).unwrap();
    assert_eq!(m.display_name, "Big Bird");
    assert_eq!(m.emotes, Some("25:0-4".to_string()));
}

#[test]
fn privmsg_missing_or_empty_tags_are_none() {
    let tags = tags_of(&[("color", ""), ("emotes", "")]);
    let m = parse_privmsg(Some("a!a@a"), "#c :t", &tags).unwrap();
    assert_eq!(m.color, None);
    assert_eq!(m.emotes, None);
    assert_eq!(m.id, None);
    assert_eq!(m.ts, None);
}

#[test]
fn privmsg_display_name_defaults_to_username() {
    let m = parse_privmsg(Some("someone!someone@host"), "#c :t", &Tags::new()).unwrap();
    assert_eq!(m.display_name, "someone");
}

#[test]
fn privmsg_without_prefix_uses_placeholder() {
    let m = parse_privmsg(None, "#c :t", &Tags::new()).unwrap();
    assert_eq!(m.username, "?");
    assert_eq!(m.display_name, "?");
}

#[test]
fn privmsg_badges_drop_versions_and_empties() {
    let tags = tags_of(&[("badges", "moderator/1,,subscriber/12,vip")]);
    let m = parse_privmsg(Some("n"), "#c :t", &tags).unwrap();
    assert_eq!(m.badges, vec!["moderator".to_string(), "subscriber".to_string(), "vip".to_string()]);
}

#[test]
fn privmsg_text_is_verbatim_and_channel_trimmed() {
    let m = parse_privmsg(Some("n"), " #c  :a :b \\s", &Tags::new()).unwrap();
    assert_eq!(m.channel, "#c");
    assert_eq!(m.text, "a :b \\s");
}

#[test]
fn privmsg_without_separator_is_none() {
    assert!(parse_privmsg(Some("n"), "#chan hello", &Tags::new()).is_none());
    assert!(parse_privmsg(Some("n"), "#chan", &Tags::new()).is_none());
}

#[test]
fn parse_message_only_for_privmsg() {
    let t = Tags::new();
    assert!(parse_message(Some("n"), "NOTICE", "#c :hi", &t).is_none());
    assert!(parse_message(Some("n"), "privmsg", "#c :hi", &t).is_none());
    assert!(parse_message(Some("n"), "PRIVMSG", "#c hi", &t).is_none());
    let m = parse_message(Some("n"), "PRIVMSG", "#c :hi", &t).unwrap();
    assert_eq!(m.text, "hi");
}
