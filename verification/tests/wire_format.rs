use watchsync::config::Config;
use watchsync::doer::emailsender::EmailSender;
use watchsync::event::ChangeEvent;
use watchsync::event::EventKind;
use watchsync::wire::decode_event;
use watchsync::wire::encode_event;
use watchsync::wire::escape_string;

#[test]
fn encode_produces_the_wire_shape() {
    let ev = ChangeEvent::created(String::from("d/f.txt"), String::from("/w/root/d/f.txt"));
    assert_eq!(
        encode_event(&ev),
        "{\"event\":\"FileWatcher\",\"type\":\"Create\",\"new\":\"d/f.txt\",\"old\":\"\",\"abspath\":\"/w/root/d/f.txt\"}"
    );
}

#[test]
fn encode_escapes_backslashes_and_quotes() {
    assert_eq!(escape_string("a\\b"), "a\\\\b");
    assert_eq!(escape_string("a\"b"), "a\\\"b");
    let ev = ChangeEvent::created(String::from("d\\f.txt"), String::from("C:\\w\\d\\f.txt"));
    let wire = encode_event(&ev);
    assert_eq!(
        wire,
        "{\"event\":\"FileWatcher\",\"type\":\"Create\",\"new\":\"d\\\\f.txt\",\"old\":\"\",\"abspath\":\"C:\\\\w\\\\d\\\\f.txt\"}"
    );
    let back = decode_event(&wire).unwrap();
    assert_eq!(back.new_path, "d\\f.txt");
    assert_eq!(back.abs_path, "C:\\w\\d\\f.txt");
}

#[test]
fn decode_inverts_encode_for_every_kind() {
    let events = vec![
        ChangeEvent::created(String::from("n/f.txt"), String::from("/w/n/f.txt")),
        ChangeEvent::modified(String::from("n/f.txt"), String::from("/w/n/f.txt")),
        ChangeEvent::removed(String::from("n/f.txt"), String::new()),
        ChangeEvent::renamed(String::from("a.txt"), String::from("b.txt")),
        ChangeEvent::error_event(),
    ];
    for ev in &events {
        let back = decode_event(&encode_event(ev)).unwrap();
        assert_eq!(back.kind, ev.kind);
        assert_eq!(back.new_path, ev.new_path);
        assert_eq!(back.old_path, ev.old_path);
        assert_eq!(back.abs_path, ev.abs_path);
    }
}

#[test]
fn decode_rejects_other_shapes() {
    assert!(decode_event("").is_none());
    assert!(decode_event("{\"event\":\"EmptyWatcher\"}").is_none());
    assert!(decode_event("{\"event\":\"FileWatcher\",\"type\":\"Create\"}").is_none());
    // an ill-formed event: a creation must carry a new path
    assert!(decode_event(
        "{\"event\":\"FileWatcher\",\"type\":\"Create\",\"new\":\"\",\"old\":\"\",\"abspath\":\"\"}"
    )
    .is_none());
    // trailing garbage
    assert!(decode_event(
        "{\"event\":\"FileWatcher\",\"type\":\"Error\",\"new\":\"\",\"old\":\"\",\"abspath\":\"\"} "
    )
    .is_none());
}

#[test]
fn decode_rejects_unknown_kind() {
    assert!(decode_event(
        "{\"event\":\"FileWatcher\",\"type\":\"Chmod\",\"new\":\"f\",\"old\":\"\",\"abspath\":\"\"}"
    )
    .is_none());
}

fn email_config() -> Config {
    let mut c = Config::new();
    c.add(String::from("sender"), String::from("agent@example.com"));
    c.add(String::from("password"), String::from("SECRET-REDACTED"));
    c.add(String::from("recver"), String::from("ops@example.com"));
    c.add(String::from("subject"), String::from("files changed"));
    c.add(String::from("content"), String::from("a watched file changed"));
    c
}

#[test]
fn email_sender_reads_its_configuration() {
    let s = EmailSender::new(&email_config()).unwrap();
    assert_eq!(s.sender, "agent@example.com");
    assert_eq!(s.recver, "ops@example.com");
    assert_eq!(s.subject, "files changed");
}

#[test]
fn email_sender_missing_key_is_fatal() {
    let mut c = email_config();
    c = {
        let mut d = Config::new();
        for (k, v) in c.entries.drain(..) {
            if k != "recver" {
                d.add(k, v);
            }
        }
        d
    };
    assert!(EmailSender::new(&c).is_err());
}

#[test]
fn email_content_is_kept_as_configured() {
    let s = EmailSender::new(&email_config()).unwrap();
    let ev = ChangeEvent::error_event();
    assert_eq!(s.replace_content(&encode_event(&ev)), "a watched file changed");
}

#[test]
fn config_first_binding_wins() {
    let mut c = Config::new();
    c.add(String::from("k"), String::from("first"));
    c.add(String::from("k"), String::from("second"));
    assert_eq!(c.get("k").unwrap().as_str(), "first");
    assert!(c.get("missing").is_none());
}

#[test]
fn event_kinds_compare_by_value() {
    assert_eq!(EventKind::Created, EventKind::Created);
    assert_ne!(EventKind::Created, EventKind::Removed);
}
