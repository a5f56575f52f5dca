use banter::dispatch::{dispatch_line, split_line, Event, LineBuffer};

#[test]
fn split_line_with_tags_and_prefix() {
    let l = split_line("@k1=v1;k2=v2 :nick!user@host PRIVMSG #chan :hello world");
    assert_eq!(l.tags.get("k1"), Some("v1".to_string()));
    assert_eq!(l.tags.get("k2"), Some("v2".to_string()));
    assert_eq!(l.prefix, Some("nick!user@host".to_string()));
    assert_eq!(l.command, "PRIVMSG");
    assert_eq!(l.params, "#chan :hello world");
}

#[test]
fn split_line_without_tags() {
    let l = split_line(":tmi.twitch.tv 001 me :Welcome");
    assert_eq!(l.tags.pairs().len(), 0);
    assert_eq!(l.prefix, Some("tmi.twitch.tv".to_string()));
    assert_eq!(l.command, "001");
    assert_eq!(l.params, "me :Welcome");
}

#[test]
fn split_line_without_prefix() {
    let l = split_line("@a=b USERNOTICE #c");
    assert_eq!(l.tags.get("a"), Some("b".to_string()));
    assert_eq!(l.prefix, None);
    assert_eq!(l.command, "USERNOTICE");
    assert_eq!(l.params, "#c");
}

#[test]
fn split_line_bare_command() {
    let l = split_line("RECONNECT");
    assert_eq!(l.prefix, None);
    assert_eq!(l.command, "RECONNECT");
    assert_eq!(l.params, "");
}

#[test]
fn full_privmsg_line_yields_message() {
    let ev = dispatch_line("@k1=v1;display-name=A\\sB :nick!user@host PRIVMSG #chan :hello world");
    match ev {
        Some(Event::Message(m)) => {
            assert_eq!(m.username, "nick");
            assert_eq!(m.channel, "#chan");
            assert_eq!(m.text, "hello world");
            assert_eq!(m.display_name, "A B");
        }
        _ => panic!("expected a chat message"),
    }
}

#[test]
fn ping_yields_pong() {
    match dispatch_line("PING :tmi.example") {
        Some(Event::Pong(l)) => assert_eq!(l, "PONG :tmi.example"),
        _ => panic!("expected a pong"),
    }
}

#[test]
fn routed_commands() {
    assert!(matches!(dispatch_line("@login=x :tmi.twitch.tv USERNOTICE #c :hi"), Some(Event::UserNotice(_))));
    match dispatch_line(":tmi.twitch.tv CLEARCHAT #c :someone") {
        Some(Event::ClearChat(l)) => assert_eq!(l, ":tmi.twitch.tv CLEARCHAT #c :someone"),
        _ => panic!("expected clearchat"),
    }
    assert!(matches!(dispatch_line("@target-msg-id=1 :tmi.twitch.tv CLEARMSG #c :x"), Some(Event::ClearChat(_))));
    assert!(matches!(dispatch_line(":tmi.twitch.tv RECONNECT"), Some(Event::Reconnect)));
    assert!(matches!(dispatch_line(":tmi.twitch.tv 001 me :Welcome, GLHF!"), Some(Event::Ready)));
    assert!(dispatch_line(":tmi.twitch.tv CAP * ACK :twitch.tv/tags").is_none());
    assert!(dispatch_line(":n!n@n PRIVMSG #c no-separator").is_none());
}

#[test]
fn usernotice_carries_raw_tags() {
    match dispatch_line("@msg-id=sub;system-msg=a\\sb :tmi.twitch.tv USERNOTICE #c") {
        Some(Event::UserNotice(t)) => {
            assert_eq!(t.get("msg-id"), Some("sub".to_string()));
            assert_eq!(t.get("system-msg"), Some("a\\sb".to_string()));
        }
        _ => panic!("expected a user notice"),
    }
}

#[test]
fn buffer_splits_frame_into_trimmed_lines() {
    let mut b = LineBuffer::new();
    let lines = b.push_frame("PING :a\r\n\r\n  :x 001 me :hi  \r\n");
    assert_eq!(lines, vec!["PING :a".to_string(), ":x 001 me :hi".to_string()]);
}

#[test]
fn buffer_holds_partial_line() {
    let mut b = LineBuffer::new();
    let first = b.push_frame("PING :a\r\nPRIVMSG #c :hel");
    assert_eq!(first, vec!["PING :a".to_string()]);
    let second = b.push_frame("lo\r\n");
    assert_eq!(second, vec!["PRIVMSG #c :hello".to_string()]);
    let third = b.push_frame("");
    assert!(third.is_empty());
}
