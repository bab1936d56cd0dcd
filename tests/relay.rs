use std::collections::{HashMap, HashSet};

use ironpulse::codec::{
    legal_body, parse_ack_payload, parse_credentials, parse_store_payload, parse_wire,
};
use ironpulse::dispatch::{
    channel_outcome, complex_processor, no_handel, no_permission, payload_integrity, sec_fault,
    send_ack_dr, send_ack_ds, send_ack_ok, simple_processor, start, step, Action,
    ChannelOutcome, Event, Phase, StoreOp,
};
use ironpulse::skel::{
    Email, Integrity, Message, Payload, Request, RequestCode, RequestData, Responses, StatCode,
};
use ironpulse::text::split_on;

/// A stand-in for the integrity hash: deterministic, and different for
/// different texts of the tests.
fn digest(text: &str) -> String {
    let mut acc: u64 = 1469598103934665603;
    for b in text.bytes() {
        acc ^= b as u64;
        acc = acc.wrapping_mul(1099511628211);
    }
    format!("{:016x}", acc)
}

struct Row {
    uuid: String,
    message_type: String,
    body: String,
    processed: bool,
}

#[derive(Default)]
struct Mem {
    messages: HashMap<String, Vec<Row>>,
    members: HashMap<String, HashSet<String>>,
}

impl Mem {
    fn perform(&mut self, op: StoreOp) -> Event {
        match op {
            StoreOp::CreateMessageTable { channel } => {
                if self.messages.contains_key(&channel) {
                    return Event::Failed;
                }
                self.messages.insert(channel, Vec::new());
                Event::Done
            }
            StoreOp::CreatePermissionTable { channel } => {
                if self.members.contains_key(&channel) {
                    return Event::Failed;
                }
                self.members.insert(channel, HashSet::new());
                Event::Done
            }
            StoreOp::DropMessageTable { channel } => match self.messages.remove(&channel) {
                Some(_) => Event::Done,
                None => Event::Failed,
            },
            StoreOp::DropPermissionTable { channel } => match self.members.remove(&channel) {
                Some(_) => Event::Done,
                None => Event::Failed,
            },
            StoreOp::AddMember { channel, client } => match self.members.get_mut(&channel) {
                Some(set) => {
                    if set.insert(client) {
                        Event::Done
                    } else {
                        Event::Failed
                    }
                }
                None => Event::Failed,
            },
            StoreOp::CountMember { channel, client } => match self.members.get(&channel) {
                Some(set) => Event::Count(if set.contains(&client) { 1 } else { 0 }),
                None => Event::Failed,
            },
            StoreOp::DeleteProcessed { channel } => match self.messages.get_mut(&channel) {
                Some(rows) => {
                    rows.retain(|r| !r.processed);
                    Event::Done
                }
                None => Event::Failed,
            },
            StoreOp::InsertMessage { channel, row } => match self.messages.get_mut(&channel) {
                Some(rows) => {
                    if rows.iter().any(|r| r.uuid == row.uuid) {
                        return Event::Failed;
                    }
                    rows.push(Row {
                        uuid: row.uuid,
                        message_type: row.message_type,
                        body: row.message,
                        processed: false,
                    });
                    Event::Done
                }
                None => Event::Failed,
            },
            StoreOp::FetchUnprocessed { channel } => match self.messages.get(&channel) {
                Some(rows) => Event::Fetched(rows.iter().find(|r| !r.processed).map(|r| Message {
                    uuid: r.uuid.clone(),
                    message_type: r.message_type.clone(),
                    message: r.body.clone(),
                })),
                None => Event::Failed,
            },
            StoreOp::MarkProcessed { channel, body } => match self.messages.get_mut(&channel) {
                Some(rows) => {
                    let mut n = 0;
                    for r in rows.iter_mut().filter(|r| r.body == body) {
                        r.processed = true;
                        n += 1;
                    }
                    Event::Affected(n)
                }
                None => Event::Failed,
            },
        }
    }

    fn pending(&self, channel: &str) -> usize {
        self.messages[channel].iter().filter(|r| !r.processed).count()
    }

    /// Runs one raw request to its end: the response text, or `None` when
    /// the request is dropped unanswered.
    fn serve_with(&mut self, raw: &str, hash: &dyn Fn(&str) -> String) -> Option<String> {
        let (mut phase, mut action) = start(raw);
        loop {
            let ev = match action {
                Action::Hash(text) => Event::Digest(hash(&text)),
                Action::Perform(op) => self.perform(op),
                Action::Respond(r) => return Some(r.render()),
                Action::Abort => return None,
            };
            let (p, a) = step(phase, ev);
            phase = p;
            action = a;
        }
    }

    fn serve(&mut self, raw: &str) -> Option<String> {
        self.serve_with(raw, &digest)
    }
}

/// A request as an honest client writes it.
fn request(first: &str, client: &str) -> String {
    format!("{},{},{}", first, client, digest(&format!("{}{}", client, first)))
}

fn store_request(channel: &str, kind: &str, hex_body: &str, client: &str) -> String {
    request(&format!("Store/{}_{}_{}_{}", channel, kind, hex_body, digest(hex_body)), client)
}

fn orders_with_alice() -> Mem {
    let mut mem = Mem::default();
    assert_eq!(mem.serve(&request("CreateChannel/orders", "alice")).as_deref(), Some("201"));
    assert_eq!(mem.serve(&request("RegisterChannel/orders", "alice")).as_deref(), Some("201"));
    mem
}

#[test]
fn status_numbers() {
    assert_eq!(StatCode::AckOk.number(), 200);
    assert_eq!(StatCode::AckDr.number(), 201);
    assert_eq!(StatCode::AckDs.number(), 202);
    assert_eq!(StatCode::NoPer.number(), 400);
    assert_eq!(StatCode::NoHnd.number(), 500);
    assert_eq!(StatCode::SecFt.number(), 520);
}

#[test]
fn responses_render() {
    assert_eq!(send_ack_ok().render(), "200");
    assert_eq!(send_ack_dr().render(), "201");
    assert_eq!(no_permission().render(), "400");
    assert_eq!(no_handel().render(), "500");
    assert_eq!(sec_fault().render(), "520");
    let r = send_ack_ds("68656c6c6f".to_string(), "abc".to_string());
    assert_eq!(r.render(), "202,68656c6c6f/abc");
    assert!(matches!(r, Responses::Data(StatCode::AckDs, _)));
}

#[test]
fn email_render() {
    let e = Email { to: "bob".to_string(), subject: "hi".to_string(), body: "text".to_string() };
    assert_eq!(e.render(), "To: bob\nSubject: hi\n\ntext");
}

#[test]
fn split_keeps_empty_pieces() {
    assert_eq!(split_on("a,,b", ','), vec!["a", "", "b"]);
    assert_eq!(split_on("", ','), vec![""]);
    assert_eq!(split_on("abc", ','), vec!["abc"]);
    assert_eq!(split_on("é_ü", '_'), vec!["é", "ü"]);
}

#[test]
fn wire_fields() {
    let w = parse_wire("Store/orders_email_6869_h,alice,xyz").unwrap();
    assert_eq!(w.first, "Store/orders_email_6869_h");
    assert_eq!(w.command, "Store");
    assert_eq!(w.payload.as_deref(), Some("orders_email_6869_h"));
    assert_eq!(w.client, "alice");
    assert_eq!(w.claimed, "xyz");
    assert_eq!(w.hash_input(), "aliceStore/orders_email_6869_h");
    let code = parse_wire("Ping,bob,1,extra").unwrap();
    assert_eq!(code.command, "Ping");
    assert!(code.payload.is_none());
    assert_eq!(code.claimed, "1");
}

#[test]
fn wire_with_too_few_fields_is_malformed() {
    assert!(parse_wire("Store/x,alice").is_none());
    assert!(parse_wire("").is_none());
    let mut mem = Mem::default();
    assert_eq!(mem.serve("Check/orders,alice"), None);
}

#[test]
fn into_request_compares_hashes() {
    let w = parse_wire("Check/orders,alice,abc").unwrap();
    let r = w.into_request("abc");
    match r {
        Request::Data(d) => {
            assert!(d.integrity);
            assert_eq!(d.command, "Check");
            assert_eq!(d.data, "orders");
            assert_eq!(d.requestid, "alice");
        }
        _ => panic!("expected a request with a payload"),
    }
    let w = parse_wire("Check,alice,abc").unwrap();
    match w.into_request("abd") {
        Request::Code(c) => assert!(!c.integrity),
        _ => panic!("expected a request without payload"),
    }
}

#[test]
fn payload_fields() {
    let p = parse_store_payload("orders_email_68656c6c6f_h1_more").unwrap();
    assert_eq!(p.channel, "orders");
    assert_eq!(p.message_type, "email");
    assert_eq!(p.body, "68656c6c6f");
    assert_eq!(p.hash, "h1");
    assert!(parse_store_payload("orders_email_6869").is_none());
    assert!(payload_integrity(&p, "h1"));
    assert!(!payload_integrity(&p, "h2"));
    assert_eq!(
        parse_ack_payload("orders_68656c6c6f"),
        Some(("orders".to_string(), "68656c6c6f".to_string()))
    );
    assert_eq!(parse_ack_payload("orders"), None);
}

#[test]
fn credentials_fields() {
    let d = parse_credentials("user/pw/db.local/relay").unwrap();
    assert_eq!(d.username, "user");
    assert_eq!(d.password, "pw");
    assert_eq!(d.hostaddr, "db.local");
    assert_eq!(d.database, "relay");
    assert!(parse_credentials("user/pw/db.local").is_none());
}

#[test]
fn hex_bodies() {
    assert!(legal_body("68656c6c6f"));
    assert!(legal_body("48454C4C4F"));
    assert!(legal_body(""));
    assert!(!legal_body("123"));
    assert!(!legal_body("6g"));
    assert!(legal_body("ff"));
    assert!(!legal_body("zz"));
}

#[test]
fn outcomes_of_channel_operations() {
    assert_eq!(channel_outcome(true, true), ChannelOutcome::Complete);
    assert_eq!(channel_outcome(true, false), ChannelOutcome::MessagesOnly);
    assert_eq!(channel_outcome(false, true), ChannelOutcome::PermissionsOnly);
    assert_eq!(channel_outcome(false, false), ChannelOutcome::Failed);
}

#[test]
fn routing_by_command() {
    let (p, a) = complex_processor(&"Frobnicate".to_string(), "x".to_string(), "a".to_string());
    assert!(matches!(p, Phase::Done));
    assert!(matches!(a, Action::Respond(Responses::Code(StatCode::NoHnd))));
    let (_, a) = simple_processor(&"Check".to_string(), "a".to_string());
    assert!(matches!(a, Action::Respond(Responses::Code(StatCode::NoHnd))));
    let (_, a) = complex_processor(&"Check".to_string(), "orders".to_string(), "a".to_string());
    match a {
        Action::Perform(StoreOp::CountMember { channel, client }) => {
            assert_eq!(channel, "orders");
            assert_eq!(client, "a");
        }
        _ => panic!("expected a membership count"),
    }
    let (_, a) = complex_processor(&"Store".to_string(), "orders_e".to_string(), "a".to_string());
    assert!(matches!(a, Action::Respond(Responses::Code(StatCode::NoHnd))));
    let (_, a) = complex_processor(&"Ack".to_string(), "orders".to_string(), "a".to_string());
    assert!(matches!(a, Action::Respond(Responses::Code(StatCode::NoHnd))));
}

#[test]
fn orders_scenario() {
    let mut mem = orders_with_alice();
    let store = store_request("orders", "email", "68656c6c6f", "alice");
    assert_eq!(mem.serve(&store).as_deref(), Some("201"));
    let expected = format!("202,68656c6c6f/{}", digest("68656c6c6f"));
    assert_eq!(mem.serve(&request("Check/orders", "alice")), Some(expected));
    assert_eq!(mem.serve(&request("Ack/orders_68656c6c6f", "alice")).as_deref(), Some("200"));
    assert_eq!(mem.serve(&request("Check/orders", "alice")).as_deref(), Some("200"));
}

#[test]
fn store_from_stranger_is_refused() {
    let mut mem = orders_with_alice();
    let store = store_request("orders", "email", "68656c6c6f", "mallory");
    assert_eq!(mem.serve(&store).as_deref(), Some("400"));
    assert_eq!(mem.pending("orders"), 0);
    assert_eq!(mem.serve(&request("Check/orders", "mallory")).as_deref(), Some("400"));
}

#[test]
fn tampered_integrity_is_a_security_fault() {
    let mut mem = orders_with_alice();
    let firsts = [
        "CreateChannel/other",
        "RegisterChannel/orders",
        "DeleteChannel/orders",
        "Check/orders",
        "Ack/orders_6869",
        "Unknown/x",
        "Check",
    ];
    for first in firsts {
        let honest = request(first, "alice");
        let mut bytes = honest.into_bytes();
        let last = bytes.len() - 1;
        bytes[last] = if bytes[last] == b'0' { b'1' } else { b'0' };
        let tampered = String::from_utf8(bytes).unwrap();
        assert_eq!(mem.serve(&tampered).as_deref(), Some("520"), "{}", first);
    }
    let store = store_request("orders", "email", "6869", "alice");
    let tampered = store.replace(",alice,", ",alicf,");
    assert_eq!(mem.serve(&tampered).as_deref(), Some("520"));
    assert!(mem.messages.contains_key("orders"));
    assert_eq!(mem.pending("orders"), 0);
}

#[test]
fn honest_integrity_passes() {
    let mut mem = Mem::default();
    assert_eq!(mem.serve(&request("Unknown/x", "alice")).as_deref(), Some("500"));
    assert_eq!(mem.serve(&request("Check", "alice")).as_deref(), Some("500"));
}

#[test]
fn delete_missing_channel_fails() {
    let mut mem = Mem::default();
    assert_eq!(mem.serve(&request("DeleteChannel/ghost", "alice")).as_deref(), Some("500"));
}

#[test]
fn delete_twice_fails_the_second_time() {
    let mut mem = orders_with_alice();
    assert_eq!(mem.serve(&request("DeleteChannel/orders", "alice")).as_deref(), Some("200"));
    assert_eq!(mem.serve(&request("DeleteChannel/orders", "alice")).as_deref(), Some("500"));
}

#[test]
fn partial_channel_operations_are_failures() {
    let mut mem = Mem::default();
    mem.members.insert("half".to_string(), HashSet::new());
    assert_eq!(mem.serve(&request("CreateChannel/half", "a")).as_deref(), Some("500"));
    assert!(mem.messages.contains_key("half"));
    mem.members.remove("half");
    assert_eq!(mem.serve(&request("DeleteChannel/half", "a")).as_deref(), Some("500"));
    assert!(!mem.messages.contains_key("half"));
    let (phase, _) = step(Phase::DroppingPermissions { messages_ok: true }, Event::Failed);
    assert!(matches!(phase, Phase::Settled { outcome: ChannelOutcome::MessagesOnly }));
    let (phase, _) = step(Phase::CreatingPermissions { messages_ok: false }, Event::Done);
    assert!(matches!(phase, Phase::Settled { outcome: ChannelOutcome::PermissionsOnly }));
}

#[test]
fn compaction_on_permission_check() {
    let mut mem = orders_with_alice();
    assert_eq!(mem.serve(&store_request("orders", "t", "6161", "alice")).as_deref(), Some("201"));
    assert_eq!(mem.serve(&store_request("orders", "t", "6262", "alice")).as_deref(), Some("201"));
    assert_eq!(mem.serve(&request("Ack/orders_6161", "alice")).as_deref(), Some("200"));
    assert_eq!(mem.messages["orders"].len(), 2);
    assert_eq!(mem.serve(&request("Check/orders", "mallory")).as_deref(), Some("400"));
    assert_eq!(mem.messages["orders"].len(), 1);
    assert_eq!(mem.messages["orders"][0].body, "6262");
    assert!(!mem.messages["orders"][0].processed);
}

#[test]
fn check_repeats_until_acknowledged() {
    let mut mem = orders_with_alice();
    assert_eq!(mem.serve(&store_request("orders", "t", "6161", "alice")).as_deref(), Some("201"));
    let expected = format!("202,6161/{}", digest("6161"));
    assert_eq!(mem.serve(&request("Check/orders", "alice")), Some(expected.clone()));
    assert_eq!(mem.serve(&request("Check/orders", "alice")), Some(expected));
    assert_eq!(mem.serve(&request("Ack/orders_6161", "alice")).as_deref(), Some("200"));
    assert_eq!(mem.serve(&request("Check/orders", "alice")).as_deref(), Some("200"));
}

#[test]
fn store_with_wrong_body_hash_is_no_handle() {
    let mut mem = orders_with_alice();
    let first = "Store/orders_email_6869_notthehash";
    assert_eq!(mem.serve(&request(first, "alice")).as_deref(), Some("500"));
    assert_eq!(mem.pending("orders"), 0);
}

#[test]
fn store_with_bad_hex_is_dropped() {
    let mut mem = orders_with_alice();
    assert_eq!(mem.serve(&store_request("orders", "email", "6g", "alice")), None);
    assert_eq!(mem.serve(&store_request("orders", "email", "123", "alice")), None);
    assert_eq!(mem.pending("orders"), 0);
}

#[test]
fn store_with_short_payload_is_no_handle() {
    let mut mem = orders_with_alice();
    assert_eq!(mem.serve(&request("Store/orders_email", "alice")).as_deref(), Some("500"));
    assert_eq!(mem.pending("orders"), 0);
}

#[test]
fn store_of_hex_that_is_not_utf8() {
    let mut mem = orders_with_alice();
    assert_eq!(mem.serve(&store_request("orders", "bin", "ff", "alice")).as_deref(), Some("201"));
    assert_eq!(mem.messages["orders"][0].body, "ff");
    assert_eq!(mem.serve(&store_request("orders", "bin", "fe", "mallory")).as_deref(), Some("400"));
    let expected = format!("202,ff/{}", digest("ff"));
    assert_eq!(mem.serve(&request("Check/orders", "alice")), Some(expected));
}

#[test]
fn register_twice_fails() {
    let mut mem = orders_with_alice();
    assert_eq!(mem.serve(&request("RegisterChannel/orders", "alice")).as_deref(), Some("500"));
    assert_eq!(mem.members["orders"].len(), 1);
}

#[test]
fn ack_of_processed_body_is_ok() {
    let mut mem = orders_with_alice();
    assert_eq!(mem.serve(&store_request("orders", "t", "6161", "alice")).as_deref(), Some("201"));
    assert_eq!(mem.serve(&request("Ack/orders_6161", "alice")).as_deref(), Some("200"));
    assert_eq!(mem.serve(&request("Ack/orders_6161", "alice")).as_deref(), Some("200"));
}

#[test]
fn ack_of_unknown_body_is_no_handle() {
    let mut mem = orders_with_alice();
    assert_eq!(mem.serve(&request("Ack/orders_7a7a", "alice")).as_deref(), Some("500"));
    assert_eq!(mem.serve(&request("Ack/orders", "alice")).as_deref(), Some("500"));
    assert_eq!(mem.serve(&request("Ack/nowhere_7a7a", "alice")).as_deref(), Some("500"));
}

#[test]
fn corrupted_row_is_a_security_fault() {
    let mut mem = orders_with_alice();
    assert_eq!(mem.serve(&store_request("orders", "t", "6161", "alice")).as_deref(), Some("201"));
    mem.messages.get_mut("orders").unwrap()[0].body = "6262".to_string();
    assert_eq!(mem.serve(&request("Check/orders", "alice")).as_deref(), Some("520"));
}

#[test]
fn failing_store_gives_no_handle() {
    let mut mem = Mem::default();
    assert_eq!(mem.serve(&request("RegisterChannel/none", "a")).as_deref(), Some("500"));
    let (_, a) = step(Phase::Fetching, Event::Failed);
    assert!(matches!(a, Action::Respond(Responses::Code(StatCode::NoHnd))));
    let (_, a) = step(Phase::Inserting, Event::Failed);
    assert!(matches!(a, Action::Respond(Responses::Code(StatCode::NoHnd))));
}

#[test]
fn another_hasher_gives_the_same_decisions() {
    let upper = |s: &str| format!("H{}", s.len());
    let mut mem = Mem::default();
    let req = |first: &str, client: &str| format!("{},{},H{}", first, client, client.len() + first.len());
    assert_eq!(mem.serve_with(&req("CreateChannel/c", "a"), &upper).as_deref(), Some("201"));
    assert_eq!(mem.serve_with(&req("CreateChannel/c", "a").replace(",H", ",X"), &upper).as_deref(), Some("520"));
}

#[test]
fn request_and_payload_render() {
    let d = RequestData {
        command: "Store".to_string(),
        data: "x".to_string(),
        requestid: "alice".to_string(),
        integrity: true,
    };
    assert_eq!(d.render(), "Store,x,alice,true");
    let c = RequestCode { command: "Check".to_string(), requestid: "bob".to_string(), integrity: false };
    assert_eq!(c.render(), "Check,bob,false");
    assert_eq!(Request::Code(c).render(), "Check,bob,false");
    assert_eq!(Request::Data(d).render(), "Store,x,alice,true");
    assert_eq!(Integrity::Hash("h".to_string()).render(), "h");
    assert_eq!(Payload::Data("b".to_string(), Integrity::Hash("h".to_string())).render(), "b/h");
}
