use pulsar::channels::Channels;
use pulsar::client::{chat_text, check_command, command_of_words, text_eq};
use pulsar::commands::{DeviceMessage, RegisterData, RegisterPeer};
use pulsar::connection::{disconnect, process_message, Delivery};
use pulsar::device::{format_entry, Device, Devices};
use pulsar::sdp::{SdpType, SessionDescription};

fn s(x: &str) -> String {
    x.to_string()
}

fn register(name: &str) -> Option<DeviceMessage> {
    Some(DeviceMessage::Register(RegisterPeer { name: s(name) }))
}

fn offer(sender: &str, receiver: &str, description: &str) -> SessionDescription {
    SessionDescription::new(s(sender), s(receiver), s(description), SdpType::Offer)
}

fn answer(sender: &str, receiver: &str, description: &str) -> SessionDescription {
    SessionDescription::new(s(sender), s(receiver), s(description), SdpType::Answer)
}

fn pairs(v: &[Delivery]) -> Vec<(String, String)> {
    v.iter().map(|d| (d.to.clone(), d.frame.clone())).collect()
}

/// Two live connections, A and B, with nobody registered.
fn two_connections() -> (Devices, Channels<u32>) {
    let mut peers = Channels::new();
    peers.insert(s("10.0.0.1:5000"), 1);
    peers.insert(s("10.0.0.2:5000"), 2);
    (Devices::new(), peers)
}

const A: &str = "10.0.0.1:5000";
const B: &str = "10.0.0.2:5000";

#[test]
fn register_replies_with_name_and_address() {
    let (mut devices, mut peers) = two_connections();
    let out = process_message(register("alice"), &s(A), &mut devices, &mut peers).deliveries;
    assert_eq!(
        pairs(&out),
        vec![(s(A), s(r#"{"Registered":{"name":"alice","addr":"10.0.0.1:5000"}}"#))]
    );
    assert_eq!(devices.list.len(), 1);
    assert_eq!(devices.list[0].0, "alice");
    assert_eq!(devices.list[0].1.addr, A);
}

#[test]
fn register_twice_keeps_one_entry_for_second_connection() {
    let (mut devices, mut peers) = two_connections();
    process_message(register("alice"), &s(A), &mut devices, &mut peers);
    process_message(Some(DeviceMessage::Offer(offer("bob", "alice", "X"))), &s(B), &mut devices, &mut peers);
    assert!(devices.list[0].1.offer.is_some());
    process_message(register("alice"), &s(B), &mut devices, &mut peers);
    let alice: Vec<_> = devices.list.iter().filter(|e| e.0 == "alice").collect();
    assert_eq!(alice.len(), 1);
    assert_eq!(alice[0].1.addr, B);
    assert!(alice[0].1.offer.is_none());
    assert!(alice[0].1.answer.is_none());
}

#[test]
fn offer_to_unregistered_name_is_not_found() {
    let (mut devices, mut peers) = two_connections();
    process_message(register("alice"), &s(A), &mut devices, &mut peers);
    let out = process_message(
        Some(DeviceMessage::Offer(offer("alice", "bob", "X"))),
        &s(A),
        &mut devices,
        &mut peers,
    ).deliveries;
    assert_eq!(pairs(&out), vec![(s(A), s("bob not found"))]);
    assert_eq!(devices.list.len(), 1);
    assert!(devices.list[0].1.offer.is_none());
}

#[test]
fn answer_to_unregistered_name_is_not_found() {
    let (mut devices, mut peers) = two_connections();
    let out = process_message(
        Some(DeviceMessage::Answer(answer("alice", "carol", "Z"))),
        &s(A),
        &mut devices,
        &mut peers,
    ).deliveries;
    assert_eq!(pairs(&out), vec![(s(A), s("carol not found"))]);
}

#[test]
fn offer_is_relayed_echoed_and_stored() {
    let (mut devices, mut peers) = two_connections();
    process_message(register("alice"), &s(A), &mut devices, &mut peers);
    process_message(register("bob"), &s(B), &mut devices, &mut peers);
    let out = process_message(
        Some(DeviceMessage::Offer(offer("alice", "bob", "X"))),
        &s(A),
        &mut devices,
        &mut peers,
    ).deliveries;
    let frame = s(r#"{"Offer":{"sender":"alice","receiver":"bob","description":"X","sdp_type":"Offer"}}"#);
    assert_eq!(pairs(&out), vec![(s(B), frame.clone()), (s(A), frame)]);
    let bob = devices.list.iter().find(|e| e.0 == "bob").unwrap();
    let stored = bob.1.offer.as_ref().unwrap();
    assert_eq!(stored.sender, "alice");
    assert_eq!(stored.receiver, "bob");
    assert_eq!(stored.description, "X");
    assert_eq!(stored.sdp_type, SdpType::Offer);
    assert!(bob.1.answer.is_none());
}

#[test]
fn answer_is_relayed_echoed_and_stored() {
    let (mut devices, mut peers) = two_connections();
    process_message(register("alice"), &s(A), &mut devices, &mut peers);
    process_message(register("bob"), &s(B), &mut devices, &mut peers);
    let out = process_message(
        Some(DeviceMessage::Answer(answer("bob", "alice", "Y"))),
        &s(B),
        &mut devices,
        &mut peers,
    ).deliveries;
    let frame = s(r#"{"Answer":{"sender":"bob","receiver":"alice","description":"Y","sdp_type":"Answer"}}"#);
    assert_eq!(pairs(&out), vec![(s(A), frame.clone()), (s(B), frame)]);
    let alice = devices.list.iter().find(|e| e.0 == "alice").unwrap();
    assert_eq!(alice.1.answer.as_ref().unwrap().description, "Y");
}

#[test]
fn offer_to_peer_whose_connection_is_gone_is_only_echoed() {
    let (mut devices, mut peers) = two_connections();
    process_message(register("bob"), &s(B), &mut devices, &mut peers);
    peers.remove(&s(B));
    let out = process_message(
        Some(DeviceMessage::Offer(offer("alice", "bob", "X"))),
        &s(A),
        &mut devices,
        &mut peers,
    ).deliveries;
    assert_eq!(out.len(), 1);
    assert_eq!(out[0].to, A);
    assert!(devices.list[0].1.offer.is_some());
}

#[test]
fn list_users_reports_offer_and_answer() {
    let (mut devices, mut peers) = two_connections();
    process_message(register("alice"), &s(A), &mut devices, &mut peers);
    process_message(Some(DeviceMessage::Answer(answer("bob", "alice", "Y"))), &s(B), &mut devices, &mut peers);
    let out = process_message(Some(DeviceMessage::ListUsersRequest), &s(B), &mut devices, &mut peers).deliveries;
    assert_eq!(out.len(), 1);
    assert_eq!(out[0].to, B);
    assert!(out[0].frame.starts_with(r#"{"ListUsersResponse":"#));
    let report = devices.report();
    assert!(report.lines().any(|l| l == "ALICE: offer: -- | answer: Y"));
    let body: serde_json::Value = serde_json::from_str(&out[0].frame).unwrap();
    let text = body.get("ListUsersResponse").unwrap().as_str().unwrap();
    assert!(text.contains("ALICE: offer: -- | answer: Y"));
}

#[test]
fn report_has_one_line_per_name() {
    let mut devices = Devices::new();
    devices.add_device(s("alice"), s(A));
    devices.add_device(s("bob"), s(B));
    assert_eq!(devices.report(), "ALICE: offer: -- | answer: --\nBOB: offer: -- | answer: --\n");
    assert_eq!(Devices::new().report(), "");
}

#[test]
fn format_entry_shows_payloads() {
    let mut device = Device::new(s(A));
    assert_eq!(format_entry("ALICE", &device), "ALICE: offer: -- | answer: --\n");
    device.recv_offer(offer("bob", "alice", "X"));
    device.recv_answer(answer("bob", "alice", "Y"));
    assert_eq!(format_entry("ALICE", &device), "ALICE: offer: X | answer: Y\n");
}

#[test]
fn quit_removes_name_and_connection() {
    let (mut devices, mut peers) = two_connections();
    process_message(register("alice"), &s(A), &mut devices, &mut peers);
    process_message(register("bob"), &s(B), &mut devices, &mut peers);
    let step = process_message(Some(DeviceMessage::Quit), &s(A), &mut devices, &mut peers);
    assert_eq!(pairs(&step.deliveries), vec![(s(A), s("[OFFLINE]: alice"))]);
    assert_eq!(step.closed, Some(1));
    assert!(devices.list.iter().all(|e| e.0 != "alice"));
    assert_eq!(devices.list.len(), 1);
    assert!(!peers.contains(&s(A)));
    assert!(peers.contains(&s(B)));
    let out = process_message(
        Some(DeviceMessage::Offer(offer("bob", "alice", "X"))),
        &s(B),
        &mut devices,
        &mut peers,
    ).deliveries;
    assert_eq!(pairs(&out), vec![(s(B), s("alice not found"))]);
}

#[test]
fn quit_removes_every_name_of_the_connection() {
    let (mut devices, mut peers) = two_connections();
    process_message(register("alice"), &s(A), &mut devices, &mut peers);
    process_message(register("bob"), &s(B), &mut devices, &mut peers);
    process_message(register("ally"), &s(A), &mut devices, &mut peers);
    process_message(Some(DeviceMessage::Quit), &s(A), &mut devices, &mut peers);
    assert_eq!(devices.list.len(), 1);
    assert_eq!(devices.list[0].0, "bob");
}

#[test]
fn distinct_registrations_are_all_kept() {
    let mut devices = Devices::new();
    let mut peers: Channels<u32> = Channels::new();
    for i in 0..50u32 {
        let addr = format!("10.0.1.{}:4000", i);
        peers.insert(addr.clone(), i);
        process_message(register(&format!("peer{}", i)), &addr, &mut devices, &mut peers);
    }
    assert_eq!(devices.list.len(), 50);
    for i in 0..50u32 {
        let name = format!("peer{}", i);
        assert_eq!(devices.list.iter().filter(|e| e.0 == name).count(), 1);
    }
}

#[test]
fn echo_is_sent_back() {
    let (mut devices, mut peers) = two_connections();
    let out = process_message(Some(DeviceMessage::Echo(s("hi \"there\""))), &s(A), &mut devices, &mut peers).deliveries;
    assert_eq!(pairs(&out), vec![(s(A), s(r#"{"Echo":"hi \"there\""}"#))]);
}

#[test]
fn other_messages_get_fixed_replies() {
    let (mut devices, mut peers) = two_connections();
    let out = process_message(None, &s(A), &mut devices, &mut peers).deliveries;
    assert_eq!(pairs(&out), vec![(s(A), s("Failed to parse message"))]);
    let out = process_message(Some(DeviceMessage::Unknown), &s(A), &mut devices, &mut peers).deliveries;
    assert_eq!(pairs(&out), vec![(s(A), s("\"Unknown\""))]);
    let data = RegisterData { name: s("x"), addr: s("y") };
    let out = process_message(Some(DeviceMessage::Registered(data)), &s(A), &mut devices, &mut peers).deliveries;
    assert_eq!(pairs(&out), vec![(s(A), s("\"Unknown\""))]);
    let out = process_message(Some(DeviceMessage::ListUsersResponse(s("r"))), &s(A), &mut devices, &mut peers).deliveries;
    assert_eq!(pairs(&out), vec![(s(A), s("\"Unknown\""))]);
}

#[test]
fn quit_from_unnamed_connection() {
    let (mut devices, mut peers) = two_connections();
    let step = process_message(Some(DeviceMessage::Quit), &s(B), &mut devices, &mut peers);
    assert_eq!(pairs(&step.deliveries), vec![(s(B), s("[OFFLINE]: unnamed"))]);
    assert_eq!(step.closed, Some(2));
    assert!(!peers.contains(&s(B)));
    assert!(peers.contains(&s(A)));
}

#[test]
fn reply_to_unknown_connection_is_dropped() {
    let (mut devices, mut peers) = two_connections();
    let out = process_message(register("carol"), &s("10.0.0.3:1"), &mut devices, &mut peers).deliveries;
    assert!(out.is_empty());
    assert_eq!(devices.list.len(), 1);
}

#[test]
fn messages_encode_as_tagged_json() {
    assert_eq!(DeviceMessage::Quit.to_json(), "\"Quit\"");
    assert_eq!(DeviceMessage::ListUsersRequest.to_json(), "\"ListUsersRequest\"");
    assert_eq!(
        DeviceMessage::Register(RegisterPeer { name: s("al\"ice") }).to_json(),
        r#"{"Register":{"name":"al\"ice"}}"#
    );
    assert_eq!(
        DeviceMessage::ListUsersResponse(s("A\nB")).to_json(),
        r#"{"ListUsersResponse":"A\nB"}"#
    );
    let sdp = answer("a", "b", "c\\d");
    let v: serde_json::Value = serde_json::from_str(&sdp.to_json()).unwrap();
    assert_eq!(v.get("description").unwrap().as_str().unwrap(), "c\\d");
    assert_eq!(v.get("sdp_type").unwrap().as_str().unwrap(), "Answer");
}

#[test]
fn text_is_escaped_in_frames() {
    assert_eq!(DeviceMessage::Echo(s("a\"b\\c\n")).to_json(), r#"{"Echo":"a\"b\\c\n"}"#);
    assert_eq!(DeviceMessage::Echo(s("")).to_json(), r#"{"Echo":""}"#);
}

#[test]
fn chat_lines_carry_the_sender() {
    assert_eq!(chat_text("alice", "hello\n"), "[alice] hello\n");
}

#[test]
fn session_description_accessors() {
    let d = offer("alice", "bob", "X");
    assert_eq!(d.sender(), "alice");
    assert_eq!(d.receiver(), "bob");
    assert_eq!(d.description(), "X");
    assert!(d.is_offer());
    assert!(!d.is_answer());
    let r = SessionDescription::random(s("bob"), s("alice"), SdpType::Answer);
    assert_eq!(r.receiver, "bob");
    assert_eq!(r.sender, "alice");
    assert!(r.is_answer());
    assert_eq!(r.description.len(), 16);
    assert!(r.description.chars().all(|c| c.is_ascii_alphanumeric()));
}

#[test]
fn typed_lines_become_commands() {
    assert!(matches!(check_command("quit\n", "alice"), Some(DeviceMessage::Quit)));
    assert!(matches!(check_command("  list  ", "alice"), Some(DeviceMessage::ListUsersRequest)));
    assert!(check_command("hello there", "alice").is_none());
    assert!(check_command("", "alice").is_none());
    assert!(check_command("offer", "alice").is_none());
    match check_command("offer bob\n", "alice") {
        Some(DeviceMessage::Offer(d)) => {
            assert_eq!(d.receiver, "bob");
            assert_eq!(d.sender, "alice");
            assert!(d.is_offer());
            assert_eq!(d.description.len(), 16);
        }
        _ => panic!("expected an offer"),
    }
    match check_command("answer carol", "alice") {
        Some(DeviceMessage::Answer(d)) => {
            assert_eq!(d.receiver, "carol");
            assert!(d.is_answer());
        }
        _ => panic!("expected an answer"),
    }
    let words = vec![s("offer"), s("bob")];
    match command_of_words(&words, "alice", s("PAYLOAD")) {
        Some(DeviceMessage::Offer(d)) => assert_eq!(d.description, "PAYLOAD"),
        _ => panic!("expected an offer"),
    }
    assert!(text_eq("quit", "quit"));
    assert!(!text_eq("quit", "quiet"));
}

#[test]
fn registry_operations() {
    let mut devices = Devices::new();
    devices.add_device(s("alice"), s(A));
    devices.add_device(s("bob"), s(B));
    assert_eq!(devices.get_name(&s(B)), Some(s("bob")));
    assert_eq!(devices.get_name(&s("nowhere")), None);
    assert_eq!(devices.position(&s("bob")), Some(1));
    devices.remove_device(&s("alice"));
    assert_eq!(devices.list.len(), 1);
    assert_eq!(devices.get_name(&s(A)), None);
    let d = Device::new(s(A));
    assert_eq!(d.address(), A);
}

#[test]
fn channel_table_operations() {
    let mut peers: Channels<u32> = Channels::new();
    peers.insert(s(A), 1);
    peers.insert(s(B), 2);
    peers.insert(s(A), 3);
    assert_eq!(peers.list.len(), 2);
    assert_eq!(peers.get(&s(A)), Some(&3));
    assert_eq!(peers.remove(&s(A)), Some(3));
    assert_eq!(peers.get(&s(A)), None);
    assert_eq!(peers.remove(&s(A)), None);
    assert!(peers.contains(&s(B)));
}

#[test]
fn every_variant_encodes_as_parsable_json() {
    let msgs = vec![
        (DeviceMessage::Register(RegisterPeer { name: s("a") }), "Register"),
        (DeviceMessage::Offer(offer("a", "b", "x")), "Offer"),
        (DeviceMessage::Answer(answer("a", "b", "y")), "Answer"),
        (DeviceMessage::ListUsersResponse(s("A: offer: -- | answer: --\n")), "ListUsersResponse"),
        (DeviceMessage::Registered(RegisterData { name: s("a"), addr: s("1.2.3.4:5") }), "Registered"),
        (DeviceMessage::Echo(s("tab\there")), "Echo"),
    ];
    for (m, tag) in msgs {
        let v: serde_json::Value = serde_json::from_str(&m.to_json()).unwrap();
        let obj = v.as_object().unwrap();
        assert_eq!(obj.len(), 1);
        assert!(obj.contains_key(tag));
    }
    for (m, tag) in vec![
        (DeviceMessage::Quit, "Quit"),
        (DeviceMessage::ListUsersRequest, "ListUsersRequest"),
        (DeviceMessage::Unknown, "Unknown"),
    ] {
        let v: serde_json::Value = serde_json::from_str(&m.to_json()).unwrap();
        assert_eq!(v.as_str().unwrap(), tag);
    }
    let v: serde_json::Value =
        serde_json::from_str(&DeviceMessage::Echo(s("tab\there")).to_json()).unwrap();
    assert_eq!(v.get("Echo").unwrap().as_str().unwrap(), "tab\there");
}

#[test]
fn disconnect_clears_both_tables() {
    let (mut devices, mut peers) = two_connections();
    process_message(register("alice"), &s(A), &mut devices, &mut peers);
    process_message(register("bob"), &s(B), &mut devices, &mut peers);
    process_message(register("ally"), &s(A), &mut devices, &mut peers);
    disconnect(&s(A), &mut devices, &mut peers);
    assert_eq!(devices.list.len(), 1);
    assert_eq!(devices.list[0].0, "bob");
    assert!(!peers.contains(&s(A)));
    assert!(peers.contains(&s(B)));
    let out = process_message(
        Some(DeviceMessage::Answer(answer("bob", "alice", "Y"))),
        &s(B),
        &mut devices,
        &mut peers,
    )
    .deliveries;
    assert_eq!(pairs(&out), vec![(s(B), s("alice not found"))]);
}

#[test]
fn control_characters_are_escaped() {
    assert_eq!(
        DeviceMessage::Echo(s("\u{1}\u{8}\u{c}\r\t\u{1f}/é")).to_json(),
        r#"{"Echo":"\u0001\b\f\r\t\u001f/é"}"#
    );
}

#[test]
fn unicode_white_space_separates_words() {
    match check_command("offer\u{3000}bob\u{a0}", "alice") {
        Some(DeviceMessage::Offer(d)) => assert_eq!(d.receiver, "bob"),
        _ => panic!("expected an offer"),
    }
}
