use rust_hw::command::{command_from_word, expiry_from_lowered, parse_command, parse_expiry, Command, CommandError};
use rust_hw::filter::FliterLayer;
use rust_hw::http::{del_form, del_reply, get_reply, pick_key_value, ping_reply, set_form, set_reply};
use rust_hw::redis::S;

fn s(x: &str) -> String {
    x.to_string()
}

#[test]
fn web_ping_answers_pong() {
    // The `/ping` page sends "PONG" and shows what the service echoes.
    let svc: S<u8> = S::new();
    assert_eq!(ping_reply::<()>(Ok(svc.ping_item(Some(s("PONG"))))), "PONG");
    assert_eq!(ping_reply::<()>(Ok(svc.ping_item(Some(s("text"))))), "text");
}

#[test]
fn ping_echoes_or_answers_empty() {
    let svc: S<u8> = S::new();
    assert_eq!(svc.ping_item(Some(s("hello"))), "hello");
    assert_eq!(svc.ping_item(None), "");
}

#[test]
fn set_then_get_reads_trimmed_value() {
    let mut svc: S<u8> = S::new();
    assert!(svc.set_item(s("k"), "  v 1 \n", None, 1000));
    assert_eq!(svc.get_item(&s("k"), 5000), Some(s("v 1")));
    assert_eq!(svc.get_item(&s("k"), i64::MAX), Some(s("v 1")));
    assert_eq!(svc.get_item(&s("other"), 5000), None);
}

#[test]
fn set_overwrites_earlier_value() {
    let mut svc: S<u8> = S::new();
    svc.set_item(s("k"), "a", None, 0);
    svc.set_item(s("k"), "b", None, 0);
    assert_eq!(svc.get_item(&s("k"), 0), Some(s("b")));
}

#[test]
fn expired_item_reads_as_absent_and_is_removed() {
    let mut svc: S<u8> = S::new();
    svc.set_item(s("k"), "v", Some(100), 1000);
    // deadline 1100: live at 1100, gone at 1101
    assert_eq!(svc.get_item(&s("k"), 1050), Some(s("v")));
    assert_eq!(svc.get_item(&s("k"), 1100), Some(s("v")));
    assert_eq!(svc.get_item(&s("k"), 1101), None);
    assert_eq!(svc.get_item(&s("k"), 0), None);
    assert_eq!(svc.del_item("k"), 0);
}

#[test]
fn deadline_zero_never_expires() {
    let mut svc: S<u8> = S::new();
    svc.set_item(s("k"), "v", Some(-1000), 1000);
    assert_eq!(svc.get_item(&s("k"), 1_000_000), Some(s("v")));
}

#[test]
fn del_counts_present_keys_once() {
    let mut svc: S<u8> = S::new();
    svc.set_item(s("a"), "1", None, 0);
    svc.set_item(s("b"), "2", None, 0);
    svc.set_item(s("c"), "3", None, 0);
    assert_eq!(svc.del_item("  a x a\tb  "), 2);
    assert_eq!(svc.get_item(&s("a"), 0), None);
    assert_eq!(svc.get_item(&s("b"), 0), None);
    assert_eq!(svc.get_item(&s("c"), 0), Some(s("3")));
    assert_eq!(svc.del_item(""), 0);
}

#[test]
fn publish_counts_subscribers() {
    let mut svc: S<&str> = S::new();
    assert_eq!(svc.pub_channel(&s("news")), 0);
    assert!(svc.subscribers(&s("news")).is_none());
    svc.sub_channel(s("news"), "first");
    svc.sub_channel(s("news"), "second");
    svc.sub_channel(s("sport"), "third");
    assert_eq!(svc.pub_channel(&s("news")), 2);
    assert_eq!(svc.pub_channel(&s("sport")), 1);
    assert_eq!(svc.subscribers(&s("news")), Some(&vec!["first", "second"]));
}

#[test]
fn parse_get_and_del() {
    assert_eq!(parse_command("get foo\n"), Ok(Command::Get { key: s("foo") }));
    assert_eq!(parse_command("GET   foo  \n"), Ok(Command::Get { key: s("foo") }));
    assert_eq!(parse_command("del a b c\n"), Ok(Command::Del { keys: s("a b c") }));
}

#[test]
fn parse_set_with_and_without_expiry() {
    assert_eq!(
        parse_command("set k \"hello world\"\n"),
        Ok(Command::SetItem { key: s("k"), value: s("hello world"), ex: None })
    );
    assert_eq!(
        parse_command("set k \"v\" ex 10\n"),
        Ok(Command::SetItem { key: s("k"), value: s("v"), ex: Some(10_000) })
    );
    assert_eq!(
        parse_command("set k \"v\" PX 250\n"),
        Ok(Command::SetItem { key: s("k"), value: s("v"), ex: Some(250) })
    );
    assert_eq!(
        parse_command("set k\n"),
        Ok(Command::SetItem { key: s("k"), value: s(""), ex: None })
    );
}

#[test]
fn parse_set_with_bad_expiry() {
    assert_eq!(parse_command("set k \"v\" ex\n"), Err(CommandError::BadExpiry));
    assert_eq!(parse_command("set k \"v\" ex ten\n"), Err(CommandError::BadExpiry));
    assert_eq!(parse_command("set k \"v\" ex  10\n"), Err(CommandError::BadExpiry));
    assert_eq!(
        parse_command("set k \"v\" ex 9223372036854775807\n"),
        Err(CommandError::BadExpiry)
    );
}

#[test]
fn parse_expiry_clauses() {
    assert_eq!(parse_expiry(""), Ok(None));
    assert_eq!(parse_expiry("ex -2"), Ok(Some(-2000)));
    assert_eq!(parse_expiry("px +7 junk"), Ok(Some(7)));
    assert_eq!(parse_expiry("nothing"), Ok(None));
}

#[test]
fn parse_ping_subscribe_publish_exit() {
    assert_eq!(parse_command("ping\n"), Ok(Command::Ping { text: s("PONG") }));
    assert_eq!(parse_command("ping hi there\n"), Ok(Command::Ping { text: s("hi there") }));
    assert_eq!(parse_command("subscribe chan\n"), Ok(Command::Subscribe { channel: s("chan") }));
    assert_eq!(
        parse_command("publish chan hello  world\n"),
        Ok(Command::Publish { channel: s("chan"), msg: s("hello  world") })
    );
    assert_eq!(
        parse_command("publish chan\n"),
        Ok(Command::Publish { channel: s("chan"), msg: s("") })
    );
    assert_eq!(parse_command("exit\n"), Ok(Command::Exit));
    assert_eq!(parse_command("Exit"), Ok(Command::Exit));
}

#[test]
fn parse_unknown_command() {
    assert_eq!(parse_command("fly away\n"), Err(CommandError::Unknown));
    assert_eq!(parse_command("\n"), Err(CommandError::Unknown));
}

#[test]
fn filter_refuses_banned_numbers() {
    let f = FliterLayer.layer(7u8);
    assert_eq!(*f.service(), 7);
    assert_eq!(f.check("GetRequest { key: \"abc\" }"), Ok(()));
    assert_eq!(f.check("GetRequest { key: \"x114514y\" }"), Err(s("It's smelly~")));
    assert_eq!(f.check("1919810"), Err(s("It's smelly~")));
    assert_eq!(f.check("11451"), Ok(()));
}

#[test]
fn set_form_takes_last_key_and_value() {
    assert_eq!(set_form("key=a&value=b+c"), (s("a"), s("b c")));
    assert_eq!(set_form("value=1&key=k&key=k2&other=z"), (s("k2"), s("1")));
    assert_eq!(set_form("key=%41%20b"), (s("A b"), s("")));
    assert_eq!(set_form(""), (s(""), s("")));
}

#[test]
fn pick_key_value_from_pairs() {
    let pairs = vec![(s("key"), s("x")), (s("value"), s("y")), (s("key"), s("z"))];
    assert_eq!(pick_key_value(&pairs), (s("z"), s("y")));
}

#[test]
fn replies_of_the_web_pages() {
    assert_eq!(ping_reply::<()>(Ok(s("PONG"))), "PONG");
    assert_eq!(ping_reply::<()>(Err(())), "Something went wrong");
    assert_eq!(get_reply::<()>(Ok(Some(s("v")))), "v");
    assert_eq!(get_reply::<()>(Ok(None)), "(nil)");
    assert_eq!(get_reply::<()>(Err(())), "Something went wrong");
    assert_eq!(del_reply::<()>(Ok(3)), "3");
    assert_eq!(del_reply::<()>(Ok(-120)), "-120");
    assert_eq!(del_reply::<()>(Ok(i32::MIN)), "-2147483648");
    assert_eq!(del_reply::<()>(Err(())), "Something went wrong");
    assert_eq!(set_reply::<()>(Ok(true)), "OK");
    assert_eq!(set_reply::<()>(Ok(false)), "Something went wrong");
    assert_eq!(set_reply::<()>(Err(())), "Something went wrong");
}

#[test]
fn command_from_lowered_word() {
    assert_eq!(command_from_word("get", "foo"), Ok(Command::Get { key: s("foo") }));
    assert_eq!(command_from_word("GET", "foo"), Err(CommandError::Unknown));
    assert_eq!(command_from_word("ping", ""), Ok(Command::Ping { text: s("PONG") }));
    assert_eq!(expiry_from_lowered("ex 10", "EX 10"), Ok(Some(10_000)));
    assert_eq!(expiry_from_lowered("px 10", "PX 10"), Ok(Some(10)));
    assert_eq!(expiry_from_lowered("nothing", "ex 10"), Ok(None));
}

#[test]
fn get_after_set_survives_other_requests() {
    let mut svc: S<u8> = S::new();
    svc.set_item(s("k"), " kept ", None, 10);
    svc.set_item(s("other"), "x", Some(1), 10);
    assert_eq!(svc.get_item(&s("other"), 100), None);
    assert_eq!(svc.get_item(&s("k"), 100), Some(s("kept")));
    assert_eq!(svc.del_item("other missing"), 0);
    svc.set_item(s("third"), "y", None, 200);
    assert_eq!(svc.get_item(&s("k"), i64::MAX), Some(s("kept")));
}

#[test]
fn del_form_reads_the_key_field() {
    assert_eq!(del_form("key=abc"), "abc");
    assert_eq!(del_form("key=a+b&key=c%21"), "c!");
    assert_eq!(del_form("other=1"), "");
}
