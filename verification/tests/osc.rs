use transcriber::osc::{
    bind_error_text, chat_datagram, destination, packet_updates, react, read_mute_updates,
    typing_datagram, Arg, BundleItem, LinkStatus, ListenerState, Message, NextMove, Notice, Packet, SocketEvent,
    StartOnce,
};

fn message(addr: &str, args: Vec<rosc::OscType>) -> rosc::OscPacket {
    rosc::OscPacket::Message(rosc::OscMessage { addr: addr.to_string(), args })
}

fn bundle(content: Vec<rosc::OscPacket>) -> rosc::OscPacket {
    rosc::OscPacket::Bundle(rosc::OscBundle {
        timetag: rosc::OscTime { seconds: 1, fractional: 2 },
        content,
    })
}

fn encode(packet: &rosc::OscPacket) -> Vec<u8> {
    rosc::encoder::encode(packet).unwrap()
}

const MUTE: &str = "/avatar/parameters/MuteSelf";

#[test]
fn typing_datagram_is_twenty_bytes() {
    assert_eq!(typing_datagram(), b"/chatbox/typing\0,T\0\0".to_vec());
}

#[test]
fn typing_datagram_is_read_back() {
    let datagram = typing_datagram();
    let (rest, packet) = rosc::decoder::decode_udp(&datagram).unwrap();
    assert!(rest.is_empty());
    assert_eq!(packet, message("/chatbox/typing", vec![rosc::OscType::Bool(true)]));
}

#[test]
fn chat_datagram_pads_the_text() {
    assert_eq!(chat_datagram("hi"), b"/chatbox/input\0\0,sT\0hi\0\0".to_vec());
    assert_eq!(chat_datagram("four"), b"/chatbox/input\0\0,sT\0four\0\0\0\0".to_vec());
    assert_eq!(chat_datagram(""), b"/chatbox/input\0\0,sT\0\0\0\0\0".to_vec());
    assert_eq!(chat_datagram("é"), b"/chatbox/input\0\0,sT\0\xc3\xa9\0\0".to_vec());
}

#[test]
fn chat_datagram_is_read_back() {
    let text = "こんにちは, world";
    let datagram = chat_datagram(text);
    let (_, packet) = rosc::decoder::decode_udp(&datagram).unwrap();
    assert_eq!(
        packet,
        message(
            "/chatbox/input",
            vec![rosc::OscType::String(text.to_string()), rosc::OscType::Bool(true)]
        )
    );
}

#[test]
fn destination_joins_host_and_port() {
    assert_eq!(destination("127.0.0.1", "9000"), "127.0.0.1:9000");
}

#[test]
fn mute_message_is_read() {
    let on = encode(&message(MUTE, vec![rosc::OscType::Bool(true)]));
    let off = encode(&message(MUTE, vec![rosc::OscType::Bool(false), rosc::OscType::Int(3)]));
    assert_eq!(read_mute_updates(&on), vec![true]);
    assert_eq!(read_mute_updates(&off), vec![false]);
}

#[test]
fn other_messages_are_passed_over() {
    let other = encode(&message("/avatar/parameters/Voice", vec![rosc::OscType::Bool(true)]));
    let number = encode(&message(MUTE, vec![rosc::OscType::Int(1), rosc::OscType::Bool(true)]));
    let bare = encode(&message(MUTE, vec![]));
    assert_eq!(read_mute_updates(&other), Vec::<bool>::new());
    assert_eq!(read_mute_updates(&number), Vec::<bool>::new());
    assert_eq!(read_mute_updates(&bare), Vec::<bool>::new());
}

#[test]
fn bundle_is_read_one_level_deep() {
    let inner = bundle(vec![message(MUTE, vec![rosc::OscType::Bool(true)])]);
    let packet = bundle(vec![
        message(MUTE, vec![rosc::OscType::Bool(false)]),
        message("/chatbox/typing", vec![rosc::OscType::Bool(true)]),
        inner,
        message(MUTE, vec![rosc::OscType::Bool(true)]),
    ]);
    assert_eq!(read_mute_updates(&encode(&packet)), vec![false, true]);
}

#[test]
fn broken_or_oversized_datagrams_announce_nothing() {
    assert_eq!(read_mute_updates(&[]), Vec::<bool>::new());
    assert_eq!(read_mute_updates(b"not osc"), Vec::<bool>::new());
    let mut long = encode(&message(MUTE, vec![rosc::OscType::Bool(true)]));
    long.resize(1536, 0);
    assert_eq!(read_mute_updates(&long), vec![true]);
    long.push(0);
    assert_eq!(read_mute_updates(&long), Vec::<bool>::new());
}

#[test]
fn packet_updates_follow_the_model() {
    let mute = |args: Vec<Arg>| Message { addr: MUTE.to_string(), args };
    assert_eq!(packet_updates(&Packet::Message(mute(vec![Arg::Flag(true)]))), vec![true]);
    assert_eq!(packet_updates(&Packet::Message(mute(vec![]))), Vec::<bool>::new());
    assert_eq!(packet_updates(&Packet::Message(mute(vec![Arg::Other]))), Vec::<bool>::new());
    let items = vec![
        BundleItem::Bundle,
        BundleItem::Message(mute(vec![Arg::Flag(true), Arg::Flag(false)])),
        BundleItem::Message(Message { addr: "/x".to_string(), args: vec![Arg::Flag(false)] }),
        BundleItem::Message(mute(vec![Arg::Flag(false), Arg::Other])),
        BundleItem::Message(mute(vec![Arg::Other, Arg::Flag(true)])),
    ];
    assert_eq!(packet_updates(&Packet::Bundle(items)), vec![true, false]);
    assert_eq!(packet_updates(&Packet::Bundle(Vec::new())), Vec::<bool>::new());
}

#[test]
fn only_the_first_argument_counts() {
    let second = encode(&message(MUTE, vec![rosc::OscType::Nil, rosc::OscType::Bool(true)]));
    assert_eq!(read_mute_updates(&second), Vec::<bool>::new());
    let first = encode(&message(
        MUTE,
        vec![
            rosc::OscType::Bool(false),
            rosc::OscType::Bool(true),
            rosc::OscType::String("x".to_string()),
        ],
    ));
    assert_eq!(read_mute_updates(&first), vec![false]);
}

#[test]
fn bind_error_names_address_and_reason() {
    assert_eq!(
        bind_error_text("127.0.0.1:9001", "Address already in use"),
        "Error binding to 127.0.0.1:9001: Address already in use"
    );
}

#[test]
fn listener_connects_and_reads() {
    let r = react(ListenerState::Starting, &SocketEvent::Bound);
    assert_eq!(r.state, ListenerState::Listening);
    assert_eq!(r.notices, vec![Notice::Status(LinkStatus::Connected)]);
    assert_eq!(r.next, NextMove::Receive);
    let datagram = encode(&message(MUTE, vec![rosc::OscType::Bool(true)]));
    let r = react(ListenerState::Listening, &SocketEvent::Datagram(datagram));
    assert_eq!(r.state, ListenerState::Listening);
    assert_eq!(r.notices, vec![Notice::Mute(true)]);
    assert_eq!(r.next, NextMove::Receive);
}

#[test]
fn listener_reports_a_failed_first_bind() {
    let r = react(ListenerState::Starting, &SocketEvent::BindFailed);
    assert_eq!(r.state, ListenerState::Stopped);
    assert_eq!(r.notices, vec![Notice::Status(LinkStatus::Error), Notice::BindError]);
    assert_eq!(r.next, NextMove::Stop);
}

#[test]
fn listener_binds_again_after_five_seconds() {
    let r = react(ListenerState::Listening, &SocketEvent::ReceiveFailed);
    assert_eq!(r.state, ListenerState::Reconnecting);
    assert_eq!(r.notices, vec![Notice::Status(LinkStatus::Disconnected)]);
    assert_eq!(r.next, NextMove::Bind { after_seconds: 5 });
    let r = react(ListenerState::Reconnecting, &SocketEvent::Bound);
    assert_eq!(r.state, ListenerState::Listening);
    assert_eq!(r.notices, vec![Notice::Status(LinkStatus::Connected)]);
    assert_eq!(r.next, NextMove::Receive);
}

#[test]
fn listener_gives_up_when_the_second_bind_fails() {
    let r = react(ListenerState::Reconnecting, &SocketEvent::BindFailed);
    assert_eq!(r.state, ListenerState::Stopped);
    assert_eq!(r.notices, Vec::<Notice>::new());
    assert_eq!(r.next, NextMove::Stop);
}

#[test]
fn stopped_listener_stays_stopped() {
    for event in [
        SocketEvent::Bound,
        SocketEvent::BindFailed,
        SocketEvent::ReceiveFailed,
        SocketEvent::Datagram(vec![1, 2, 3]),
    ] {
        let r = react(ListenerState::Stopped, &event);
        assert_eq!(r.state, ListenerState::Stopped);
        assert_eq!(r.notices, Vec::<Notice>::new());
        assert_eq!(r.next, NextMove::Stop);
    }
}

#[test]
fn reports_that_do_not_fit_change_nothing() {
    let r = react(ListenerState::Starting, &SocketEvent::ReceiveFailed);
    assert_eq!(r.state, ListenerState::Starting);
    assert_eq!(r.next, NextMove::Bind { after_seconds: 0 });
    let r = react(ListenerState::Listening, &SocketEvent::Bound);
    assert_eq!(r.state, ListenerState::Listening);
    assert_eq!(r.next, NextMove::Receive);
    let r = react(ListenerState::Reconnecting, &SocketEvent::Datagram(Vec::new()));
    assert_eq!(r.state, ListenerState::Reconnecting);
    assert_eq!(r.notices, Vec::<Notice>::new());
    assert_eq!(r.next, NextMove::Bind { after_seconds: 5 });
}

#[test]
fn start_is_granted_once() {
    let mut once = StartOnce::new();
    assert!(once.claim());
    assert!(!once.claim());
    assert!(!once.claim());
}

#[test]
fn link_states_have_their_words() {
    assert_eq!(LinkStatus::Connected.label(), "connected");
    assert_eq!(LinkStatus::Disconnected.label(), "disconnected");
    assert_eq!(LinkStatus::Error.label(), "error");
}
