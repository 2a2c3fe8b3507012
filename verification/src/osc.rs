//! The control channel to the avatar host, spoken in OSC over UDP: the two messages
//! that are sent to its chat box, the mute notifications that are read from it, and
//! what the listener does when its socket fails. Packets are encoded and decoded
//! by `rosc`; sockets belong to the caller.

use vstd::prelude::*;
use vstd::string::*;
use vstd::utf8::{encode_utf8, is_ascii_chars, is_ascii_chars_encode_utf8};

verus! {

/// Address of the message that shows the typing indicator.
pub open spec fn typing_address() -> Seq<char> {
    "/chatbox/typing"@
}

/// Address of the message that puts a text into the chat box.
pub open spec fn input_address() -> Seq<char> {
    "/chatbox/input"@
}

/// Address of the message by which the host tells whether the user is muted.
pub open spec fn mute_address() -> Seq<char> {
    "/avatar/parameters/MuteSelf"@
}

/// Largest datagram that is decoded, the size of the receive buffer.
pub const MAX_DATAGRAM_BYTES: usize = 1536;

/// An argument of an outgoing message.
#[derive(Clone, Debug, PartialEq, Eq)]
pub enum OscArg {
    Flag(bool),
    Text(String),
}

/// An argument as plain values.
pub enum ArgView {
    Flag(bool),
    Text(Seq<char>),
}

impl View for OscArg {
    type V = ArgView;

    open spec fn view(&self) -> ArgView {
        match self {
            OscArg::Flag(b) => ArgView::Flag(*b),
            OscArg::Text(s) => ArgView::Text(s@),
        }
    }
}

/// The views of a run of arguments.
pub open spec fn arg_views(args: Seq<OscArg>) -> Seq<ArgView> {
    Seq::new(args.len(), |i: int| args[i]@)
}

/// The bytes followed by zero bytes up to the next multiple of four: at least one,
/// at most four.
pub open spec fn padded(bytes: Seq<u8>) -> Seq<u8> {
    bytes + Seq::new((4 - bytes.len() % 4) as nat, |i: int| 0u8)
}

/// The letter that announces an argument in the type tag string.
pub open spec fn type_tag(arg: ArgView) -> u8 {
    match arg {
        ArgView::Flag(true) => 'T' as u8,
        ArgView::Flag(false) => 'F' as u8,
        ArgView::Text(_) => 's' as u8,
    }
}

/// The type tag string: a comma, then one letter for each argument.
pub open spec fn type_tags(args: Seq<ArgView>) -> Seq<u8> {
    seq![',' as u8] + Seq::new(args.len(), |i: int| type_tag(args[i]))
}

/// The data of the arguments: a text is written as its padded UTF-8 bytes, a flag
/// has no data beyond its type tag.
pub open spec fn arg_data(args: Seq<ArgView>) -> Seq<u8>
    decreases args.len(),
{
    if args.len() == 0 {
        Seq::empty()
    } else {
        arg_data(args.drop_last()) + match args.last() {
            ArgView::Text(s) => padded(encode_utf8(s)),
            ArgView::Flag(_) => Seq::empty(),
        }
    }
}

/// The encoding of a message: address, type tag string, argument data.
pub open spec fn message_bytes(addr: Seq<char>, args: Seq<ArgView>) -> Seq<u8> {
    padded(encode_utf8(addr)) + padded(type_tags(args)) + arg_data(args)
}

/// Encodes one message with `rosc::encoder::encode`. The contract spells out what
/// the encoder writes for a message whose arguments are flags and texts: the padded
/// address, the padded type tag string, and the padded text of each text argument.
/// The encoder cannot fail on a byte vector.
#[verifier::external_body]
fn encode_message(addr: &str, args: &Vec<OscArg>) -> (bytes: Vec<u8>)
    ensures
        bytes@ == message_bytes(addr@, arg_views(args@)),
{
    let args: Vec<rosc::OscType> = args.iter().map(
        |a| match a {
            OscArg::Flag(b) => rosc::OscType::Bool(*b),
            OscArg::Text(s) => rosc::OscType::String(s.clone()),
        },
    ).collect();
    let packet = rosc::OscPacket::Message(rosc::OscMessage { addr: addr.to_string(), args });
    rosc::encoder::encode(&packet).unwrap_or_default()
}

/// The datagram that switches the typing indicator on.
pub fn typing_datagram() -> (bytes: Vec<u8>)
    ensures
        bytes@ == message_bytes(typing_address(), seq![ArgView::Flag(true)]),
{
    let mut args: Vec<OscArg> = Vec::new();
    args.push(OscArg::Flag(true));
    assert(arg_views(args@) =~= seq![ArgView::Flag(true)]);
    encode_message("/chatbox/typing", &args)
}

/// The typing datagram, byte for byte: the address and its zero byte fill sixteen
/// bytes, the type tag string `,T` and its padding four.
pub proof fn lemma_typing_datagram_bytes()
    ensures
        message_bytes(typing_address(), seq![ArgView::Flag(true)]) == seq![
            0x2fu8, 0x63, 0x68, 0x61, 0x74, 0x62, 0x6f, 0x78,
            0x2f, 0x74, 0x79, 0x70, 0x69, 0x6e, 0x67, 0x00,
            0x2c, 0x54, 0x00, 0x00,
        ],
{
    reveal_strlit("/chatbox/typing");
    let addr = typing_address();
    assert(is_ascii_chars(addr));
    is_ascii_chars_encode_utf8(addr);
    let args = seq![ArgView::Flag(true)];
    assert(args.drop_last() =~= Seq::<ArgView>::empty());
    assert(arg_data(args) =~= Seq::<u8>::empty()) by {
        reveal_with_fuel(arg_data, 3);
    }
    assert(message_bytes(addr, args) =~= seq![
        0x2fu8, 0x63, 0x68, 0x61, 0x74, 0x62, 0x6f, 0x78,
        0x2f, 0x74, 0x79, 0x70, 0x69, 0x6e, 0x67, 0x00,
        0x2c, 0x54, 0x00, 0x00,
    ]);
}

/// The datagram that puts `text` into the chat box and sends it at once.
pub fn chat_datagram(text: &str) -> (bytes: Vec<u8>)
    ensures
        bytes@ == message_bytes(input_address(), seq![ArgView::Text(text@), ArgView::Flag(true)]),
{
    let mut args: Vec<OscArg> = Vec::new();
    args.push(OscArg::Text(String::from_str(text)));
    args.push(OscArg::Flag(true));
    assert(arg_views(args@) =~= seq![ArgView::Text(text@), ArgView::Flag(true)]);
    encode_message("/chatbox/input", &args)
}

/// Where a datagram is sent: host and port with a colon between them.
pub fn destination(address: &str, port: &str) -> (target: String)
    ensures
        target@ == address@ + ":"@ + port@,
{
    String::from_str(address).concat(":").concat(port)
}

/// What is read of one argument of an incoming message: its value where it is a
/// boolean, and no more than that it is there where it is anything else.
#[derive(Clone, Copy, Debug, PartialEq, Eq)]
pub enum Arg {
    Flag(bool),
    Other,
}

/// An incoming message: its address and its arguments, as many as it has and in
/// their order.
#[derive(Clone, Debug, PartialEq, Eq)]
pub struct Message {
    pub addr: String,
    pub args: Vec<Arg>,
}

/// One element of a bundle. A bundle inside a bundle is not looked into.
#[derive(Clone, Debug, PartialEq, Eq)]
pub enum BundleItem {
    Message(Message),
    Bundle,
}

/// An incoming packet.
#[derive(Clone, Debug, PartialEq, Eq)]
pub enum Packet {
    Message(Message),
    Bundle(Vec<BundleItem>),
}

/// A message as plain values.
pub struct MessageView {
    pub addr: Seq<char>,
    pub args: Seq<Arg>,
}

/// A bundle element as plain values.
pub enum ItemView {
    Message(MessageView),
    Bundle,
}

/// A packet as plain values.
pub enum PacketView {
    Message(MessageView),
    Bundle(Seq<ItemView>),
}

impl View for Message {
    type V = MessageView;

    open spec fn view(&self) -> MessageView {
        MessageView { addr: self.addr@, args: self.args@ }
    }
}

impl View for BundleItem {
    type V = ItemView;

    open spec fn view(&self) -> ItemView {
        match self {
            BundleItem::Message(m) => ItemView::Message(m@),
            BundleItem::Bundle => ItemView::Bundle,
        }
    }
}

/// The views of a run of bundle elements.
pub open spec fn item_views(items: Seq<BundleItem>) -> Seq<ItemView> {
    Seq::new(items.len(), |i: int| items[i]@)
}

impl View for Packet {
    type V = PacketView;

    open spec fn view(&self) -> PacketView {
        match self {
            Packet::Message(m) => PacketView::Message(m@),
            Packet::Bundle(items) => PacketView::Bundle(item_views(items@)),
        }
    }
}

/// The packet that `rosc` reads from a datagram, as far as this library looks at it;
/// `None` where `rosc` refuses the datagram.
pub uninterp spec fn decoded(datagram: Seq<u8>) -> Option<PacketView>;

/// Decodes a datagram with `rosc::decoder::decode_udp` and changes the packet into
/// the library's types, one for one: a message keeps its address and one `Arg` for
/// each argument, which `OscType::bool` tells to be a boolean or not; a bundle keeps
/// one item for each element. Bytes behind the packet, the values of arguments that
/// are no booleans, the time tag of a bundle and the content of a bundle inside a
/// bundle are dropped. Nothing is claimed about which datagrams are read, only that
/// the answer depends on the bytes alone. Longer datagrams than the receive buffer
/// holds are kept out, since bundles nest as deep as the bytes allow.
#[verifier::external_body]
fn decode_datagram(datagram: &[u8]) -> (res: Option<Packet>)
    requires
        datagram@.len() <= MAX_DATAGRAM_BYTES,
    ensures
        match decoded(datagram@) {
            Some(view) => res matches Some(packet) && packet@ == view,
            None => res is None,
        },
{
    let plain = |m: rosc::OscMessage| Message {
        addr: m.addr,
        args: m.args.into_iter().map(|a| a.bool().map_or(Arg::Other, Arg::Flag)).collect(),
    };
    match rosc::decoder::decode_udp(datagram).ok()?.1 {
        rosc::OscPacket::Message(m) => Some(Packet::Message(plain(m))),
        rosc::OscPacket::Bundle(b) => Some(Packet::Bundle(b.content.into_iter().map(
            |p| match p {
                rosc::OscPacket::Message(m) => BundleItem::Message(plain(m)),
                rosc::OscPacket::Bundle(_) => BundleItem::Bundle,
            },
        ).collect())),
    }
}

/// The mute state that a message announces, if it announces one: it is addressed
/// to the mute parameter and its first argument is a boolean. Arguments behind the
/// first are not looked at.
pub open spec fn mute_update(m: MessageView) -> Option<bool> {
    if m.addr == mute_address() && m.args.len() > 0 {
        match m.args[0] {
            Arg::Flag(muted) => Some(muted),
            Arg::Other => None,
        }
    } else {
        None
    }
}

/// The mute states that the elements of a bundle announce, in their order.
pub open spec fn bundle_updates(items: Seq<ItemView>) -> Seq<bool>
    decreases items.len(),
{
    if items.len() == 0 {
        Seq::empty()
    } else {
        let before = bundle_updates(items.drop_last());
        match items.last() {
            ItemView::Message(m) => match mute_update(m) {
                Some(muted) => before.push(muted),
                None => before,
            },
            ItemView::Bundle => before,
        }
    }
}

/// The mute states that a packet announces, in their order.
pub open spec fn mute_updates(packet: PacketView) -> Seq<bool> {
    match packet {
        PacketView::Message(m) => match mute_update(m) {
            Some(muted) => seq![muted],
            None => Seq::empty(),
        },
        PacketView::Bundle(items) => bundle_updates(items),
    }
}

fn update_of(m: &Message) -> (r: Option<bool>)
    ensures
        r == mute_update(m@),
{
    let wanted: String = String::from_str("/avatar/parameters/MuteSelf");
    if m.addr == wanted && m.args.len() > 0 {
        match m.args[0] {
            Arg::Flag(muted) => Some(muted),
            Arg::Other => None,
        }
    } else {
        None
    }
}

/// Reads the mute notifications out of a decoded packet.
pub fn packet_updates(packet: &Packet) -> (updates: Vec<bool>)
    ensures
        updates@ == mute_updates(packet@),
{
    let mut updates: Vec<bool> = Vec::new();
    match packet {
        Packet::Message(m) => {
            if let Some(muted) = update_of(m) {
                updates.push(muted);
            }
        },
        Packet::Bundle(items) => {
            let ghost views = item_views(items@);
            let mut i: usize = 0;
            assert(views.take(0) =~= Seq::<ItemView>::empty());
            while i < items.len()
                invariant
                    i <= items.len(),
                    views == item_views(items@),
                    updates@ == bundle_updates(views.take(i as int)),
                decreases items.len() - i,
            {
                proof {
                    let run = views.take(i + 1);
                    assert(run.drop_last() =~= views.take(i as int));
                    assert(run.last() == items[i as int]@);
                }
                match &items[i] {
                    BundleItem::Message(m) => {
                        if let Some(muted) = update_of(m) {
                            updates.push(muted);
                        }
                    },
                    BundleItem::Bundle => {},
                }
                i += 1;
            }
            assert(views.take(items.len() as int) =~= views);
        },
    }
    updates
}

/// The mute states that a datagram announces; none where it is too long to be
/// decoded or is no packet.
pub open spec fn datagram_updates(datagram: Seq<u8>) -> Seq<bool> {
    if datagram.len() > MAX_DATAGRAM_BYTES {
        Seq::empty()
    } else {
        match decoded(datagram) {
            Some(packet) => mute_updates(packet),
            None => Seq::empty(),
        }
    }
}

/// Reads the mute notifications out of a datagram as it came from the socket.
pub fn read_mute_updates(datagram: &[u8]) -> (updates: Vec<bool>)
    ensures
        updates@ == datagram_updates(datagram@),
{
    if datagram.len() > MAX_DATAGRAM_BYTES {
        return Vec::new();
    }
    match decode_datagram(datagram) {
        Some(packet) => packet_updates(&packet),
        None => Vec::new(),
    }
}

/// State of the link to the host, as the user interface is told.
#[derive(Clone, Copy, Debug, PartialEq, Eq)]
pub enum LinkStatus {
    Connected,
    Disconnected,
    Error,
}

impl LinkStatus {
    /// The word by which the user interface knows the state.
    pub fn label(self) -> (word: &'static str)
        ensures
            word@ == match self {
                LinkStatus::Connected => "connected"@,
                LinkStatus::Disconnected => "disconnected"@,
                LinkStatus::Error => "error"@,
            },
    {
        match self {
            LinkStatus::Connected => "connected",
            LinkStatus::Disconnected => "disconnected",
            LinkStatus::Error => "error",
        }
    }
}

/// Something to tell the user interface.
#[derive(Clone, Copy, Debug, PartialEq, Eq)]
pub enum Notice {
    /// The link changed its state.
    Status(LinkStatus),
    /// The host says that the user is muted, or no longer muted.
    Mute(bool),
    /// The socket could not be bound at the start: show why, in the words of
    /// `bind_error_text`.
    BindError,
}

/// Where the listener stands.
#[derive(Clone, Copy, Debug, PartialEq, Eq)]
pub enum ListenerState {
    /// The socket has not been bound yet.
    Starting,
    /// The socket is bound and datagrams are read from it.
    Listening,
    /// Reading failed; the socket is about to be bound again.
    Reconnecting,
    /// The listener has given up.
    Stopped,
}

/// What the caller reports after it has done what it was told.
#[derive(Clone, Debug, PartialEq, Eq)]
pub enum SocketEvent {
    /// The socket is bound.
    Bound,
    /// The socket could not be bound.
    BindFailed,
    /// A datagram came in.
    Datagram(Vec<u8>),
    /// Reading from the socket failed.
    ReceiveFailed,
}

/// What the caller does next.
#[derive(Clone, Copy, Debug, PartialEq, Eq)]
pub enum NextMove {
    /// Bind the socket and report how that went.
    Bind { after_seconds: u64 },
    /// Read the next datagram and report it.
    Receive,
    /// End the listener.
    Stop,
}

/// Seconds to wait before the socket is bound again.
pub const REBIND_DELAY_SECONDS: u64 = 5;

/// What the listener does in a state where nothing has been reported yet.
pub open spec fn pending_move(state: ListenerState) -> NextMove {
    match state {
        ListenerState::Starting => NextMove::Bind { after_seconds: 0 },
        ListenerState::Listening => NextMove::Receive,
        ListenerState::Reconnecting => NextMove::Bind { after_seconds: REBIND_DELAY_SECONDS },
        ListenerState::Stopped => NextMove::Stop,
    }
}

/// What is shown for a socket that could not be bound to `address`.
pub fn bind_error_text(address: &str, reason: &str) -> (text: String)
    ensures
        text@ == "Error binding to "@ + address@ + ": "@ + reason@,
{
    String::from_str("Error binding to ").concat(address).concat(": ").concat(reason)
}

/// The state that follows a report. A first bind that fails ends the listener, and
/// so does a second bind after a failed read; a failed read alone leads to one new
/// bind. A report that does not fit the state changes nothing.
pub open spec fn next_state(state: ListenerState, event: SocketEvent) -> ListenerState {
    match (state, event) {
        (ListenerState::Starting, SocketEvent::Bound) => ListenerState::Listening,
        (ListenerState::Starting, SocketEvent::BindFailed) => ListenerState::Stopped,
        (ListenerState::Listening, SocketEvent::ReceiveFailed) => ListenerState::Reconnecting,
        (ListenerState::Reconnecting, SocketEvent::Bound) => ListenerState::Listening,
        (ListenerState::Reconnecting, SocketEvent::BindFailed) => ListenerState::Stopped,
        _ => state,
    }
}

/// The mute states as notices.
pub open spec fn mute_notices(updates: Seq<bool>) -> Seq<Notice> {
    Seq::new(updates.len(), |i: int| Notice::Mute(updates[i]))
}

/// What the user interface is told after a report. Only a bind that fails at the
/// start is shown with its reason; a bind that fails after a failed read ends the
/// listener without a word.
pub open spec fn notices(state: ListenerState, event: SocketEvent) -> Seq<Notice> {
    match (state, event) {
        (ListenerState::Starting, SocketEvent::Bound) => seq![
            Notice::Status(LinkStatus::Connected),
        ],
        (ListenerState::Starting, SocketEvent::BindFailed) => seq![
            Notice::Status(LinkStatus::Error),
            Notice::BindError,
        ],
        (ListenerState::Listening, SocketEvent::Datagram(bytes)) => mute_notices(
            datagram_updates(bytes@),
        ),
        (ListenerState::Listening, SocketEvent::ReceiveFailed) => seq![
            Notice::Status(LinkStatus::Disconnected),
        ],
        (ListenerState::Reconnecting, SocketEvent::Bound) => seq![
            Notice::Status(LinkStatus::Connected),
        ],
        _ => Seq::empty(),
    }
}

/// The listener's answer to a report.
pub struct Reaction {
    pub state: ListenerState,
    pub notices: Vec<Notice>,
    pub next: NextMove,
}

fn one_notice(notice: Notice) -> (v: Vec<Notice>)
    ensures
        v@ == seq![notice],
{
    let mut v: Vec<Notice> = Vec::new();
    v.push(notice);
    v
}

fn notices_of(updates: &Vec<bool>) -> (v: Vec<Notice>)
    ensures
        v@ == mute_notices(updates@),
{
    let mut v: Vec<Notice> = Vec::new();
    let mut i: usize = 0;
    while i < updates.len()
        invariant
            i <= updates.len(),
            v@ == mute_notices(updates@.take(i as int)),
        decreases updates.len() - i,
    {
        v.push(Notice::Mute(updates[i]));
        assert(v@ =~= mute_notices(updates@.take(i + 1)));
        i += 1;
    }
    assert(updates@.take(updates.len() as int) =~= updates@);
    v
}

/// Takes one report from the caller and answers with the new state, what to tell
/// the user interface, and what to do next.
pub fn react(state: ListenerState, event: &SocketEvent) -> (reaction: Reaction)
    ensures
        reaction.state == next_state(state, *event),
        reaction.notices@ == notices(state, *event),
        reaction.next == pending_move(reaction.state),
{
    match (state, event) {
        (ListenerState::Starting, SocketEvent::Bound) => Reaction {
            state: ListenerState::Listening,
            notices: one_notice(Notice::Status(LinkStatus::Connected)),
            next: NextMove::Receive,
        },
        (ListenerState::Starting, SocketEvent::BindFailed) => {
            let mut notices: Vec<Notice> = one_notice(Notice::Status(LinkStatus::Error));
            notices.push(Notice::BindError);
            Reaction { state: ListenerState::Stopped, notices, next: NextMove::Stop }
        },
        (ListenerState::Listening, SocketEvent::Datagram(bytes)) => {
            let updates: Vec<bool> = read_mute_updates(bytes.as_slice());
            Reaction {
                state: ListenerState::Listening,
                notices: notices_of(&updates),
                next: NextMove::Receive,
            }
        },
        (ListenerState::Listening, SocketEvent::ReceiveFailed) => Reaction {
            state: ListenerState::Reconnecting,
            notices: one_notice(Notice::Status(LinkStatus::Disconnected)),
            next: NextMove::Bind { after_seconds: REBIND_DELAY_SECONDS },
        },
        (ListenerState::Reconnecting, SocketEvent::Bound) => Reaction {
            state: ListenerState::Listening,
            notices: one_notice(Notice::Status(LinkStatus::Connected)),
            next: NextMove::Receive,
        },
        (ListenerState::Reconnecting, SocketEvent::BindFailed) => Reaction {
            state: ListenerState::Stopped,
            notices: Vec::new(),
            next: NextMove::Stop,
        },
        (ListenerState::Starting, _) => Reaction {
            state,
            notices: Vec::new(),
            next: NextMove::Bind { after_seconds: 0 },
        },
        (ListenerState::Listening, _) => Reaction {
            state,
            notices: Vec::new(),
            next: NextMove::Receive,
        },
        (ListenerState::Reconnecting, _) => Reaction {
            state,
            notices: Vec::new(),
            next: NextMove::Bind { after_seconds: REBIND_DELAY_SECONDS },
        },
        (ListenerState::Stopped, _) => Reaction {
            state,
            notices: Vec::new(),
            next: NextMove::Stop,
        },
    }
}

/// A listener that has stopped stays stopped and tells nothing more.
pub proof fn lemma_stopped_is_final(event: SocketEvent)
    ensures
        next_state(ListenerState::Stopped, event) == ListenerState::Stopped,
        notices(ListenerState::Stopped, event) == Seq::<Notice>::empty(),
{
}

/// Makes sure that the listener is started once in the life of a process.
#[derive(Debug)]
pub struct StartOnce {
    started: bool,
}

impl StartOnce {
    /// Whether the start has been claimed.
    pub closed spec fn claimed(&self) -> bool {
        self.started
    }

    /// The state at process start.
    pub fn new() -> (once: StartOnce)
        ensures
            !once.claimed(),
    {
        StartOnce { started: false }
    }

    /// Claims the start. Only the first claim is granted.
    pub fn claim(&mut self) -> (granted: bool)
        ensures
            granted == !old(self).claimed(),
            final(self).claimed(),
    {
        let granted: bool = !self.started;
        self.started = true;
        granted
    }
}

} // verus!
