//! The registry of logged-in clients: their lobby state, their chat queues
//! and the game packets waiting to be sent to each of them.
use std::collections::VecDeque;
use vstd::prelude::*;
use vstd::std_specs::hash::DefaultHasherAdditionalSpecFns;
use std::collections::hash_map::DefaultHasher;
use std::hash::Hasher;

use crate::clock::{utc_now, UtcInstant};
use crate::config::ServerConfiguration;
use crate::gamemsg::{Packet, PacketValue};
use crate::text::{decimal, decimal_string, hex16, hex16_string, str_eq};

verus! {

broadcast use vstd::std_specs::vecdeque::group_vec_dequeue_axioms;

#[derive(Debug, Clone, Copy, PartialEq, Eq, Structural)]
pub enum ChatReceiver {
    All,
    Team,
    Client(u64),
}

#[derive(Debug, Clone)]
pub struct ChatMessage {
    sender_id: u64,
    receiver: ChatReceiver,
    content: String,
    store_date: UtcInstant,
}

impl ChatMessage {
    pub closed spec fn spec_sender_id(&self) -> u64 {
        self.sender_id
    }

    pub closed spec fn spec_receiver(&self) -> ChatReceiver {
        self.receiver
    }

    pub closed spec fn spec_content(&self) -> Seq<char> {
        self.content@
    }

    pub closed spec fn spec_store_date(&self) -> UtcInstant {
        self.store_date
    }

    /// A copy of this message.
    pub fn duplicate(&self) -> (r: ChatMessage)
        ensures
            r == *self,
    {
        ChatMessage {
            sender_id: self.sender_id,
            receiver: self.receiver,
            content: self.content.clone(),
            store_date: self.store_date,
        }
    }
}

/// Client state
#[derive(Debug, PartialEq, Eq, Structural, Copy, Clone)]
pub enum ClientState {
    /// Client just connected, it is in the game setup screen
    InGameSetup,
    /// Client is ready to start player
    InReady,
    /// Client connected to the game server
    InGameConnect,
    /// All clients are ready, game is starting
    InGameStart,
    /// Client connected to the game socket; the game is started or already started
    InGame,
}

/// The state that a request to become ready leads to, and whether the
/// request is accepted: from the setup screen or from ready, the client is
/// ready; from any later state the request is refused and nothing changes.
pub open spec fn ready_transition(s: ClientState) -> (ClientState, bool) {
    match s {
        ClientState::InReady => (ClientState::InReady, true),
        ClientState::InGameSetup => (ClientState::InReady, true),
        _ => (s, false),
    }
}

/// The state that a request to stop being ready leads to, and whether it is
/// accepted.
pub open spec fn unready_transition(s: ClientState) -> (ClientState, bool) {
    match s {
        ClientState::InReady => (ClientState::InGameSetup, true),
        ClientState::InGameSetup => (ClientState::InGameSetup, true),
        _ => (s, false),
    }
}

/// The state that a request to connect to the game server leads to, and
/// whether it is accepted.
pub open spec fn connect_transition(s: ClientState) -> (ClientState, bool) {
    match s {
        ClientState::InReady => (ClientState::InGameConnect, true),
        ClientState::InGameConnect => (ClientState::InGameConnect, true),
        _ => (s, false),
    }
}

/// The text that a client's token is derived from: its id in decimal, a
/// `%` and its name.
pub open spec fn token_base(id: u64, name: Seq<char>) -> Seq<char> {
    decimal(id as nat) + seq!['%'] + name
}

/// The login token of a client: the standard library's default hash of its
/// token base (a `str` is hashed as its UTF-8 bytes followed by `0xff`),
/// written as sixteen hexadecimal digits.
pub open spec fn token_for(id: u64, name: Seq<char>) -> Seq<char> {
    hex16(
        DefaultHasher::spec_finish(
            seq![vstd::utf8::encode_utf8(token_base(id, name)), seq![0xffu8]],
        ),
    )
}

/// Draws a random client id with `rand::thread_rng().gen::<u64>()`.
/// Nothing is promised of the value.
#[verifier::external_body]
fn random_client_id() -> (r: u64) {
    rand::Rng::gen::<u64>(&mut rand::thread_rng())
}

pub struct FClient {
    pub name: String,
    pub id: u64,
    pub token: String,
    state: ClientState,
    last_receive_sent_request: UtcInstant,
    send_queue: VecDeque<ChatMessage>,
    receive_queue: VecDeque<ChatMessage>,
    game_packets: VecDeque<Packet>,
}

impl FClient {
    pub closed spec fn spec_name(&self) -> Seq<char> {
        self.name@
    }

    pub closed spec fn spec_id(&self) -> u64 {
        self.id
    }

    pub closed spec fn spec_token(&self) -> Seq<char> {
        self.token@
    }

    pub closed spec fn spec_state(&self) -> ClientState {
        self.state
    }

    /// The game packets waiting for this client, oldest first.
    pub closed spec fn packet_queue(&self) -> Seq<PacketValue> {
        self.game_packets@.map_values(|p: Packet| p@)
    }

    /// The chat messages in this client's send queue, oldest first.
    pub closed spec fn sent_chats(&self) -> Seq<ChatMessage> {
        self.send_queue@
    }

    /// The chat messages waiting to be read by this client, oldest first.
    pub closed spec fn received_chats(&self) -> Seq<ChatMessage> {
        self.receive_queue@
    }

    /// When the client last asked for its messages.
    pub closed spec fn last_receive(&self) -> UtcInstant {
        self.last_receive_sent_request
    }

    /// `self` and `other` agree on everything but the game packet queue.
    pub closed spec fn same_but_packets(&self, other: &FClient) -> bool {
        &&& self.name == other.name
        &&& self.id == other.id
        &&& self.token == other.token
        &&& self.state == other.state
        &&& self.last_receive_sent_request == other.last_receive_sent_request
        &&& self.send_queue@ == other.send_queue@
        &&& self.receive_queue@ == other.receive_queue@
    }

    /// `self` and `other` agree on everything but the state.
    pub closed spec fn same_but_state(&self, other: &FClient) -> bool {
        &&& self.name == other.name
        &&& self.id == other.id
        &&& self.token == other.token
        &&& self.last_receive_sent_request == other.last_receive_sent_request
        &&& self.send_queue@ == other.send_queue@
        &&& self.receive_queue@ == other.receive_queue@
        &&& self.game_packets@ == other.game_packets@
    }

    /// `self` and `other` agree on everything but the sent chat messages.
    pub closed spec fn same_but_sent_chats(&self, other: &FClient) -> bool {
        &&& self.name == other.name
        &&& self.id == other.id
        &&& self.token == other.token
        &&& self.state == other.state
        &&& self.last_receive_sent_request == other.last_receive_sent_request
        &&& self.receive_queue@ == other.receive_queue@
        &&& self.game_packets@ == other.game_packets@
    }

    /// `self` and `other` agree on everything but the time of the last
    /// request for messages.
    pub closed spec fn same_but_last_receive(&self, other: &FClient) -> bool {
        &&& self.name == other.name
        &&& self.id == other.id
        &&& self.token == other.token
        &&& self.state == other.state
        &&& self.send_queue@ == other.send_queue@
        &&& self.receive_queue@ == other.receive_queue@
        &&& self.game_packets@ == other.game_packets@
    }

    /// A new client with the given name, a random id and the token derived
    /// from both. It starts in the setup screen with empty queues.
    pub fn new(name: String) -> (r: FClient)
        ensures
            r.spec_name() == name@,
            r.spec_token() == token_for(r.spec_id(), name@),
            r.spec_state() == ClientState::InGameSetup,
            r.packet_queue() == Seq::<PacketValue>::empty(),
            r.sent_chats() == Seq::<ChatMessage>::empty(),
            r.received_chats() == Seq::<ChatMessage>::empty(),
    {
        let id = random_client_id();
        let mut base: Vec<char> = Vec::new();
        crate::text::push_decimal(id, &mut base);
        base.push('%');
        let name_chars = crate::text::chars_of(name.as_str());
        let mut i: usize = 0;
        let ghost prefix = base@;
        while i < name_chars.len()
            invariant
                i <= name_chars.len(),
                base@ == prefix + name_chars@.take(i as int),
            decreases name_chars.len() - i,
        {
            base.push(name_chars[i]);
            i = i + 1;
            assert(base@ =~= prefix + name_chars@.take(i as int));
        }
        assert(base@ =~= token_base(id, name@));
        let tokenbase = crate::text::string_from_chars(&base);
        let mut hasher = DefaultHasher::new();
        let base_bytes = tokenbase.as_str().as_bytes();
        assert(base_bytes@ == vstd::utf8::encode_utf8(token_base(id, name@)));
        hasher.write(base_bytes);
        let terminator: [u8; 1] = [0xffu8];
        assert(terminator@ =~= seq![0xffu8]);
        hasher.write(&terminator);
        let h = hasher.finish();
        assert(hasher@ =~= seq![
            vstd::utf8::encode_utf8(token_base(id, name@)),
            seq![0xffu8],
        ]);
        let token = hex16_string(h);
        let r = FClient {
            name,
            id,
            token,
            state: ClientState::InGameSetup,
            send_queue: VecDeque::new(),
            receive_queue: VecDeque::new(),
            last_receive_sent_request: utc_now(),
            game_packets: VecDeque::new(),
        };
        assert(r.packet_queue() =~= Seq::<PacketValue>::empty());
        r
    }

    /// The client's name.
    pub fn name_str(&self) -> (r: &str)
        ensures
            r@ == self.spec_name(),
    {
        self.name.as_str()
    }

    /// The client's login token.
    pub fn token_str(&self) -> (r: &str)
        ensures
            r@ == self.spec_token(),
    {
        self.token.as_str()
    }

    pub fn id(&self) -> (r: u64)
        ensures
            r == self.spec_id(),
    {
        self.id
    }

    /// Stores a chat message from `sender_id` in this client's send queue,
    /// dated with the current time.
    pub fn send_message(&mut self, sender_id: u64, receiver: ChatReceiver, content: String)
        ensures
            final(self).same_but_sent_chats(old(self)),
            final(self).sent_chats().len() == old(self).sent_chats().len() + 1,
            final(self).sent_chats().drop_last() == old(self).sent_chats(),
            final(self).sent_chats().last().spec_sender_id() == sender_id,
            final(self).sent_chats().last().spec_receiver() == receiver,
            final(self).sent_chats().last().spec_content() == content@,
    {
        let store_date = utc_now();
        self.send_queue.push_back(ChatMessage { sender_id, receiver, content, store_date });
        assert(final(self).sent_chats().drop_last() =~= old(self).sent_chats());
    }

    /// Push a game packet into this client queue
    pub fn push_game_packet(&mut self, p: Packet)
        ensures
            final(self).same_but_packets(old(self)),
            final(self).packet_queue() == old(self).packet_queue().push(p@),
    {
        self.game_packets.push_back(p);
        assert(final(self).packet_queue() =~= old(self).packet_queue().push(p@));
    }

    /// Peek a game packet from the top of the client queue
    ///
    /// If there is no game packet there, return None
    pub fn peek_game_packet(&self) -> (r: Option<&Packet>)
        ensures
            self.packet_queue().len() == 0 ==> r is None,
            self.packet_queue().len() > 0 ==> (r matches Some(p) && p@ == self.packet_queue()[0]),
    {
        if self.game_packets.len() == 0 {
            None
        } else {
            Some(&self.game_packets[0])
        }
    }

    /// Remove the game packet that is in front of the client queue
    ///
    /// Returns the game packet that was there, or None if there was
    /// no packet
    pub fn pop_game_packet(&mut self) -> (r: Option<Packet>)
        ensures
            final(self).same_but_packets(old(self)),
            old(self).packet_queue().len() == 0 ==> r is None && final(self).packet_queue()
                == old(self).packet_queue(),
            old(self).packet_queue().len() > 0 ==> (r matches Some(p) && p@ == old(
                self,
            ).packet_queue()[0]) && final(self).packet_queue() == old(
                self,
            ).packet_queue().drop_first(),
    {
        let r = self.game_packets.pop_front();
        assert(final(self).packet_queue() =~= old(self).packet_queue().drop_first()
            || old(self).packet_queue().len() == 0);
        r
    }

    pub fn get_state(&self) -> (r: ClientState)
        ensures
            r == self.spec_state(),
    {
        self.state
    }

    /// Notify that the client is ready
    ///
    /// Return true if the state change is valid, false if it is not.
    pub fn set_ready(&mut self) -> (r: bool)
        ensures
            final(self).same_but_state(old(self)),
            (final(self).spec_state(), r) == ready_transition(old(self).spec_state()),
    {
        let (nstate, ret) = match self.state {
            ClientState::InReady => (ClientState::InReady, true),
            ClientState::InGameSetup => (ClientState::InReady, true),
            _ => (self.state, false),
        };
        self.state = nstate;
        return ret;
    }

    /// Notify that the client is not ready anymore
    ///
    /// Return true if the state change is valid, false if it is not.
    pub fn unset_ready(&mut self) -> (r: bool)
        ensures
            final(self).same_but_state(old(self)),
            (final(self).spec_state(), r) == unready_transition(old(self).spec_state()),
    {
        let (nstate, ret) = match self.state {
            ClientState::InReady => (ClientState::InGameSetup, true),
            ClientState::InGameSetup => (ClientState::InGameSetup, true),
            _ => (self.state, false),
        };
        self.state = nstate;
        return ret;
    }

    /// Set the client to the connecting state
    pub fn set_connect(&mut self) -> (r: bool)
        ensures
            final(self).same_but_state(old(self)),
            (final(self).spec_state(), r) == connect_transition(old(self).spec_state()),
    {
        let (nstate, ret) = match self.state {
            ClientState::InReady => (ClientState::InGameConnect, true),
            ClientState::InGameConnect => (ClientState::InGameConnect, true),
            _ => (self.state, false),
        };
        self.state = nstate;
        return ret;
    }

    /// The messages of the receive queue stored no earlier than the last
    /// request for messages, in queue order.
    pub fn get_received_messages(&self) -> (r: Vec<ChatMessage>)
        ensures
            r@ == self.received_chats().filter(
                |m: ChatMessage| self.last_receive().spec_le(m.spec_store_date()),
            ),
    {
        let mut r: Vec<ChatMessage> = Vec::new();
        let mut i: usize = 0;
        let ghost pred = |m: ChatMessage| self.last_receive().spec_le(m.spec_store_date());
        while i < self.receive_queue.len()
            invariant
                i <= self.receive_queue@.len(),
                pred == (|m: ChatMessage| self.last_receive().spec_le(m.spec_store_date())),
                r@ == self.receive_queue@.take(i as int).filter(pred),
            decreases self.receive_queue@.len() - i,
        {
            let m = &self.receive_queue[i];
            proof {
                reveal_with_fuel(Seq::<_>::filter, 1);
                assert(self.receive_queue@.take(i + 1).drop_last() =~= self.receive_queue@.take(
                    i as int,
                ));
            }
            if self.last_receive_sent_request.le(&m.store_date) {
                r.push(m.duplicate());
            }
            i = i + 1;
        }
        assert(self.receive_queue@.take(i as int) =~= self.receive_queue@);
        r
    }

    /// Marks the current time as the last request for messages.
    pub fn register_message_receiving(&mut self)
        ensures
            final(self).same_but_last_receive(old(self)),
    {
        self.last_receive_sent_request = utc_now();
    }
}


/// The state that a loading request leads to, and whether it is accepted: a
/// client that connected to the game server (or is already starting) starts
/// loading; from any other state nothing changes.
pub open spec fn starting_transition(s: ClientState) -> (ClientState, bool) {
    match s {
        ClientState::InGameConnect => (ClientState::InGameStart, true),
        ClientState::InGameStart => (ClientState::InGameStart, true),
        _ => (s, false),
    }
}

/// The state that a game start request leads to, and whether it is
/// accepted: a starting client (or one already in game) enters the game.
pub open spec fn in_game_transition(s: ClientState) -> (ClientState, bool) {
    match s {
        ClientState::InGameStart => (ClientState::InGame, true),
        ClientState::InGame => (ClientState::InGame, true),
        _ => (s, false),
    }
}

impl FClient {
    /// Marks the client as starting the game (loading).
    pub fn set_starting(&mut self) -> (r: bool)
        ensures
            final(self).same_but_state(old(self)),
            (final(self).spec_state(), r) == starting_transition(old(self).spec_state()),
    {
        let (nstate, ret) = match self.state {
            ClientState::InGameConnect => (ClientState::InGameStart, true),
            ClientState::InGameStart => (ClientState::InGameStart, true),
            _ => (self.state, false),
        };
        self.state = nstate;
        ret
    }

    /// Marks the client as in game, receiving inputs.
    pub fn set_in_game(&mut self) -> (r: bool)
        ensures
            final(self).same_but_state(old(self)),
            (final(self).spec_state(), r) == in_game_transition(old(self).spec_state()),
    {
        let (nstate, ret) = match self.state {
            ClientState::InGameStart => (ClientState::InGame, true),
            ClientState::InGame => (ClientState::InGame, true),
            _ => (self.state, false),
        };
        self.state = nstate;
        ret
    }
}

/// The position of the first client with id `id`, or -1 if there is none.
pub open spec fn id_index(s: Seq<FClient>, id: u64) -> int
    decreases s.len(),
{
    if s.len() == 0 {
        -1
    } else if s[0].spec_id() == id {
        0
    } else {
        let r = id_index(s.drop_first(), id);
        if r < 0 {
            -1
        } else {
            r + 1
        }
    }
}

/// The position of the first client whose token is `t`, or -1 if there is none.
pub open spec fn token_index(s: Seq<FClient>, t: Seq<char>) -> int
    decreases s.len(),
{
    if s.len() == 0 {
        -1
    } else if s[0].spec_token() == t {
        0
    } else {
        let r = token_index(s.drop_first(), t);
        if r < 0 {
            -1
        } else {
            r + 1
        }
    }
}

/// What `id_index` is: the first position holding the id, if any.
pub proof fn lemma_id_index(s: Seq<FClient>, id: u64)
    ensures
        -1 <= id_index(s, id) < s.len(),
        id_index(s, id) >= 0 ==> s[id_index(s, id)].spec_id() == id,
        forall|j: int|
            0 <= j < s.len() && (id_index(s, id) < 0 || j < id_index(s, id)) ==> s[j].spec_id()
                != id,
    decreases s.len(),
{
    if s.len() > 0 && s[0].spec_id() != id {
        lemma_id_index(s.drop_first(), id);
        assert forall|j: int|
            0 <= j < s.len() && (id_index(s, id) < 0 || j < id_index(s, id)) implies s[j].spec_id()
            != id by {
            if j > 0 {
                assert(s[j] == s.drop_first()[j - 1]);
            }
        }
    }
}

/// What `token_index` is: the first position holding the token, if any.
pub proof fn lemma_token_index(s: Seq<FClient>, t: Seq<char>)
    ensures
        -1 <= token_index(s, t) < s.len(),
        token_index(s, t) >= 0 ==> s[token_index(s, t)].spec_token() == t,
        forall|j: int|
            0 <= j < s.len() && (token_index(s, t) < 0 || j < token_index(s, t))
                ==> s[j].spec_token() != t,
    decreases s.len(),
{
    if s.len() > 0 && s[0].spec_token() != t {
        lemma_token_index(s.drop_first(), t);
        assert forall|j: int|
            0 <= j < s.len() && (token_index(s, t) < 0 || j < token_index(s, t)) implies s[j].spec_token()
            != t by {
            if j > 0 {
                assert(s[j] == s.drop_first()[j - 1]);
            }
        }
    }
}

/// `a` and `b` hold the same logins: position by position, the same ids
/// and tokens.
pub open spec fn same_logins(a: Seq<FClient>, b: Seq<FClient>) -> bool {
    &&& a.len() == b.len()
    &&& forall|i: int|
        0 <= i < a.len() ==> #[trigger] a[i].spec_id() == b[i].spec_id() && a[i].spec_token()
            == b[i].spec_token()
}

/// Clients that differ in their packets, state, chats or time of the last
/// request for messages have the same login.
pub proof fn lemma_same_login(a: FClient, b: FClient)
    requires
        a.same_but_packets(&b) || a.same_but_state(&b) || a.same_but_sent_chats(&b)
            || a.same_but_last_receive(&b),
    ensures
        a.spec_id() == b.spec_id(),
        a.spec_token() == b.spec_token(),
{
}

/// Clients that agree on all but their packet queues agree on every other part.
pub proof fn lemma_same_but_packets(a: FClient, b: FClient)
    requires
        a.same_but_packets(&b),
    ensures
        a.spec_name() == b.spec_name(),
        a.spec_id() == b.spec_id(),
        a.spec_token() == b.spec_token(),
        a.spec_state() == b.spec_state(),
        a.sent_chats() == b.sent_chats(),
        a.received_chats() == b.received_chats(),
        a.last_receive() == b.last_receive(),
{
}

/// Clients that agree on all but their states agree on every other part.
pub proof fn lemma_same_but_state(a: FClient, b: FClient)
    requires
        a.same_but_state(&b),
    ensures
        a.spec_name() == b.spec_name(),
        a.spec_id() == b.spec_id(),
        a.spec_token() == b.spec_token(),
        a.packet_queue() == b.packet_queue(),
        a.sent_chats() == b.sent_chats(),
        a.received_chats() == b.received_chats(),
        a.last_receive() == b.last_receive(),
{
}

/// Clients that agree on all but their send queues agree on every other part.
pub proof fn lemma_same_but_sent_chats(a: FClient, b: FClient)
    requires
        a.same_but_sent_chats(&b),
    ensures
        a.spec_name() == b.spec_name(),
        a.spec_id() == b.spec_id(),
        a.spec_token() == b.spec_token(),
        a.spec_state() == b.spec_state(),
        a.packet_queue() == b.packet_queue(),
        a.received_chats() == b.received_chats(),
        a.last_receive() == b.last_receive(),
{
}

/// Clients that agree on all but the time of the last request for messages agree on every other part.
pub proof fn lemma_same_but_last_receive(a: FClient, b: FClient)
    requires
        a.same_but_last_receive(&b),
    ensures
        a.spec_name() == b.spec_name(),
        a.spec_id() == b.spec_id(),
        a.spec_token() == b.spec_token(),
        a.spec_state() == b.spec_state(),
        a.packet_queue() == b.packet_queue(),
        a.sent_chats() == b.sent_chats(),
        a.received_chats() == b.received_chats(),
{
}

/// Registries with the same logins find every id and token at the same
/// position.
pub proof fn lemma_same_logins_index(a: Seq<FClient>, b: Seq<FClient>, id: u64, t: Seq<char>)
    requires
        same_logins(a, b),
    ensures
        id_index(a, id) == id_index(b, id),
        token_index(a, t) == token_index(b, t),
    decreases a.len(),
{
    if a.len() > 0 {
        assert(a[0].spec_id() == b[0].spec_id());
        assert(same_logins(a.drop_first(), b.drop_first())) by {
            assert forall|i: int| 0 <= i < a.drop_first().len() implies #[trigger] a.drop_first()[
                i
            ].spec_id() == b.drop_first()[i].spec_id() && a.drop_first()[i].spec_token()
                == b.drop_first()[i].spec_token() by {
                assert(a[i + 1].spec_id() == b[i + 1].spec_id());
            }
        }
        lemma_same_logins_index(a.drop_first(), b.drop_first(), id, t);
    }
}

/// Every change of one client's state keeps the logins.
pub proof fn lemma_state_change_keeps_logins(
    old: Seq<FClient>,
    new: Seq<FClient>,
    id: u64,
    step: spec_fn(ClientState) -> (ClientState, bool),
    r: bool,
)
    requires
        state_changed(old, new, id, step, r),
    ensures
        same_logins(old, new),
{
    let i = id_index(old, id);
    lemma_id_index(old, id);
    if i >= 0 {
        lemma_same_login(new[i], old[i]);
        assert forall|j: int| 0 <= j < old.len() implies #[trigger] old[j].spec_id() == new[j].spec_id()
            && old[j].spec_token() == new[j].spec_token() by {
            if j == i {
            } else {
                assert(new[j] == old[j]);
            }
        }
    }
}

/// A broadcast keeps the logins.
pub proof fn lemma_broadcast_keeps_logins(
    old: Seq<FClient>,
    new: Seq<FClient>,
    p: PacketValue,
    except: Seq<u64>,
)
    requires
        broadcast_done(old, new, p, except),
    ensures
        same_logins(old, new),
{
    assert forall|j: int| 0 <= j < old.len() implies #[trigger] old[j].spec_id() == new[j].spec_id()
        && old[j].spec_token() == new[j].spec_token() by {
        if !except.contains(old[j].spec_id()) {
            lemma_same_login(new[j], old[j]);
        }
    }
}

/// A push to one queue keeps the logins.
pub proof fn lemma_push_keeps_logins(old: Seq<FClient>, new: Seq<FClient>, id: u64, p: PacketValue)
    requires
        pushed_to(old, new, id, p),
    ensures
        same_logins(old, new),
{
    let i = id_index(old, id);
    lemma_id_index(old, id);
    if i >= 0 {
        lemma_same_login(new[i], old[i]);
        assert forall|j: int| 0 <= j < old.len() implies #[trigger] old[j].spec_id() == new[j].spec_id()
            && old[j].spec_token() == new[j].spec_token() by {
            if j != i {
                assert(new[j] == old[j]);
            }
        }
    }
}

/// A pop from one queue keeps the logins.
pub proof fn lemma_pop_keeps_logins(
    old: Seq<FClient>,
    new: Seq<FClient>,
    id: u64,
    r: Option<Packet>,
)
    requires
        popped_from(old, new, id, r),
    ensures
        same_logins(old, new),
{
    let i = id_index(old, id);
    lemma_id_index(old, id);
    if i >= 0 {
        lemma_same_login(new[i], old[i]);
        assert forall|j: int| 0 <= j < old.len() implies #[trigger] old[j].spec_id() == new[j].spec_id()
            && old[j].spec_token() == new[j].spec_token() by {
            if j != i {
                assert(new[j] == old[j]);
            }
        }
    }
}

/// `new` equals `old` at every position but `i`.
pub open spec fn same_except_at(old: Seq<FClient>, new: Seq<FClient>, i: int) -> bool {
    &&& new.len() == old.len()
    &&& forall|j: int| 0 <= j < old.len() && j != i ==> new[j] == old[j]
}

/// The state of a connected client: it called the connect endpoint and
/// identified itself on the game server, or went further.
pub open spec fn is_connected_state(s: ClientState) -> bool {
    s == ClientState::InGameConnect || s == ClientState::InGameStart || s == ClientState::InGame
}

/// The outcome of asking the client with id `id` for a state change that
/// `step` describes: with no such client the answer is `false` and nothing
/// changes; otherwise that client alone takes the state `step` gives, and the
/// answer is the one `step` gives.
pub open spec fn state_changed(
    old: Seq<FClient>,
    new: Seq<FClient>,
    id: u64,
    step: spec_fn(ClientState) -> (ClientState, bool),
    r: bool,
) -> bool {
    let i = id_index(old, id);
    if i < 0 {
        !r && new == old
    } else {
        &&& same_except_at(old, new, i)
        &&& new[i].same_but_state(&old[i])
        &&& (new[i].spec_state(), r) == step(old[i].spec_state())
    }
}

/// Every client whose id is not in `except` got `p`, addressed to itself, at
/// the end of its packet queue; the others are unchanged.
pub open spec fn broadcast_done(
    old: Seq<FClient>,
    new: Seq<FClient>,
    p: PacketValue,
    except: Seq<u64>,
) -> bool {
    &&& new.len() == old.len()
    &&& forall|i: int|
        #![trigger new[i]]
        0 <= i < old.len() ==> {
            let c = old[i];
            if except.contains(c.spec_id()) {
                new[i] == c
            } else {
                &&& new[i].same_but_packets(&c)
                &&& new[i].packet_queue() == c.packet_queue().push(p.addressed_to(c.spec_id()))
            }
        }
}

/// The first client with id `id`, if any, got `p` at the end of its packet
/// queue; nothing else changed.
pub open spec fn pushed_to(old: Seq<FClient>, new: Seq<FClient>, id: u64, p: PacketValue) -> bool {
    let i = id_index(old, id);
    if i < 0 {
        new == old
    } else {
        &&& same_except_at(old, new, i)
        &&& new[i].same_but_packets(&old[i])
        &&& new[i].packet_queue() == old[i].packet_queue().push(p)
    }
}

/// `r` is the packet at the front of the queue of the first client with id
/// `id`, which lost it; `None` if there is no such client or its queue is
/// empty, and then nothing changed.
pub open spec fn popped_from(
    old: Seq<FClient>,
    new: Seq<FClient>,
    id: u64,
    r: Option<Packet>,
) -> bool {
    let i = id_index(old, id);
    if i < 0 {
        r is None && new == old
    } else {
        let q = old[i].packet_queue();
        &&& same_except_at(old, new, i)
        &&& new[i].same_but_packets(&old[i])
        &&& q.len() == 0 ==> r is None && new[i].packet_queue() == q
        &&& q.len() > 0 ==> (r matches Some(p) && p@ == q[0]) && new[i].packet_queue()
            == q.drop_first()
    }
}

pub struct FServer {
    pub clients: Vec<FClient>,
    pub name: String,
}

impl FServer {
    pub fn new(config: &ServerConfiguration) -> (r: FServer)
        ensures
            r.clients@ == Seq::<FClient>::empty(),
            r.name == config.name,
    {
        FServer { clients: Vec::new(), name: config.name.clone() }
    }

    fn find_by_id(&self, id: u64) -> (r: Option<usize>)
        ensures
            match r {
                Some(i) => i == id_index(self.clients@, id) && i < self.clients@.len(),
                None => id_index(self.clients@, id) < 0,
            },
    {
        proof {
            lemma_id_index(self.clients@, id);
        }
        let mut i: usize = 0;
        while i < self.clients.len()
            invariant
                i <= self.clients@.len(),
                forall|j: int| 0 <= j < i ==> self.clients@[j].spec_id() != id,
            decreases self.clients@.len() - i,
        {
            if self.clients[i].id == id {
                proof {
                    lemma_id_index(self.clients@, id);
                }
                return Some(i);
            }
            i = i + 1;
        }
        None
    }

    fn find_by_token(&self, token: &str) -> (r: Option<usize>)
        ensures
            match r {
                Some(i) => i == token_index(self.clients@, token@) && i < self.clients@.len(),
                None => token_index(self.clients@, token@) < 0,
            },
    {
        proof {
            lemma_token_index(self.clients@, token@);
        }
        let mut i: usize = 0;
        while i < self.clients.len()
            invariant
                i <= self.clients@.len(),
                forall|j: int| 0 <= j < i ==> self.clients@[j].spec_token() != token@,
            decreases self.clients@.len() - i,
        {
            if str_eq(self.clients[i].token.as_str(), token) {
                proof {
                    lemma_token_index(self.clients@, token@);
                }
                return Some(i);
            }
            i = i + 1;
        }
        None
    }

    /// Add a client to the server database, returns a reference to it
    pub fn add_client(&mut self, c: FClient) -> (r: &FClient)
        ensures
            final(self).clients@ == old(self).clients@.push(c),
            final(self).name == old(self).name,
            *r == c,
    {
        self.clients.push(c);
        let n = self.clients.len();
        &self.clients[n - 1]
    }

    /// Remove a client from the server database
    ///
    /// Returns its ID if it existed, None if it did not.
    pub fn remove_client(&mut self, id: u64) -> (r: Option<u64>)
        ensures
            final(self).name == old(self).name,
            id_index(old(self).clients@, id) >= 0 ==> r == Some(id) && final(self).clients@ == old(
                self,
            ).clients@.remove(id_index(old(self).clients@, id)),
            id_index(old(self).clients@, id) < 0 ==> r is None && final(self).clients@ == old(
                self,
            ).clients@,
    {
        match self.find_by_id(id) {
            Some(i) => {
                proof {
                    lemma_id_index(self.clients@, id);
                }
                let v = self.clients.remove(i);
                Some(v.id)
            },
            None => None,
        }
    }

    /// Gets a Some(Client) if a client exists with the
    /// specified ID, or return None
    pub fn get_client(&self, client_id: u64) -> (r: Option<&FClient>)
        ensures
            id_index(self.clients@, client_id) < 0 ==> r is None,
            id_index(self.clients@, client_id) >= 0 ==> r == Some(
                &self.clients@[id_index(self.clients@, client_id)],
            ),
    {
        match self.find_by_id(client_id) {
            Some(i) => Some(&self.clients[i]),
            None => None,
        }
    }

    pub fn get_client_mut(&mut self, client_id: u64) -> (r: Option<&mut FClient>)
        ensures
            id_index(old(self).clients@, client_id) < 0 ==> r is None && *final(self) == *old(
                self,
            ),
            id_index(old(self).clients@, client_id) >= 0 ==> (r matches Some(c) && *c == old(
                self,
            ).clients@[id_index(old(self).clients@, client_id)] && final(self).clients@ == old(
                self,
            ).clients@.update(id_index(old(self).clients@, client_id), *final(c))
                && final(self).name == old(self).name),
    {
        match self.find_by_id(client_id) {
            Some(i) => Some(&mut self.clients[i]),
            None => None,
        }
    }

    /// Check what user do this token belongs
    ///
    /// If it belongs to some user, return it
    /// Else, returns None
    pub fn validate_token(&self, token: &str) -> (r: Option<&FClient>)
        ensures
            token_index(self.clients@, token@) < 0 ==> r is None,
            token_index(self.clients@, token@) >= 0 ==> r == Some(
                &self.clients@[token_index(self.clients@, token@)],
            ),
    {
        match self.find_by_token(token) {
            Some(i) => Some(&self.clients[i]),
            None => None,
        }
    }

    pub fn get_client_id_from_token(&self, token: &str) -> (r: Option<u64>)
        ensures
            token_index(self.clients@, token@) < 0 ==> r is None,
            token_index(self.clients@, token@) >= 0 ==> r == Some(
                self.clients@[token_index(self.clients@, token@)].spec_id(),
            ),
    {
        match self.find_by_token(token) {
            Some(i) => Some(self.clients[i].id),
            None => None,
        }
    }
}


impl FServer {
    /// Set a client ready.
    ///
    /// Return true if the set was successful, false if it was not
    pub fn set_client_ready(&mut self, client_id: u64) -> (r: bool)
        ensures
            final(self).name == old(self).name,
            state_changed(
                old(self).clients@,
                final(self).clients@,
                client_id,
                |s: ClientState| ready_transition(s),
                r,
            ),
    {
        proof {
            lemma_id_index(self.clients@, client_id);
        }
        match self.get_client_mut(client_id) {
            Some(c) => c.set_ready(),
            None => false,
        }
    }

    /// Unset a client ready.
    ///
    /// Return true if the set was successful, false if it was not
    pub fn unset_client_ready(&mut self, client_id: u64) -> (r: bool)
        ensures
            final(self).name == old(self).name,
            state_changed(
                old(self).clients@,
                final(self).clients@,
                client_id,
                |s: ClientState| unready_transition(s),
                r,
            ),
    {
        proof {
            lemma_id_index(self.clients@, client_id);
        }
        match self.get_client_mut(client_id) {
            Some(c) => c.unset_ready(),
            None => false,
        }
    }

    /// Set a client to connect state
    ///
    /// Return true if the set was successful, false if it was not
    pub fn set_client_connect(&mut self, client_id: u64) -> (r: bool)
        ensures
            final(self).name == old(self).name,
            state_changed(
                old(self).clients@,
                final(self).clients@,
                client_id,
                |s: ClientState| connect_transition(s),
                r,
            ),
    {
        proof {
            lemma_id_index(self.clients@, client_id);
        }
        match self.get_client_mut(client_id) {
            Some(c) => c.set_connect(),
            None => false,
        }
    }

    /// Set a client to the starting (loading) state
    ///
    /// Return true if the set was successful, false if it was not
    pub fn set_client_starting(&mut self, client_id: u64) -> (r: bool)
        ensures
            final(self).name == old(self).name,
            state_changed(
                old(self).clients@,
                final(self).clients@,
                client_id,
                |s: ClientState| starting_transition(s),
                r,
            ),
    {
        proof {
            lemma_id_index(self.clients@, client_id);
        }
        match self.get_client_mut(client_id) {
            Some(c) => c.set_starting(),
            None => false,
        }
    }

    /// Set a client in game, so that it starts receiving inputs
    ///
    /// Return true if the set was successful, false if it was not
    pub fn set_client_start_to_receive_inputs(&mut self, client_id: u64) -> (r: bool)
        ensures
            final(self).name == old(self).name,
            state_changed(
                old(self).clients@,
                final(self).clients@,
                client_id,
                |s: ClientState| in_game_transition(s),
                r,
            ),
    {
        proof {
            lemma_id_index(self.clients@, client_id);
        }
        match self.get_client_mut(client_id) {
            Some(c) => c.set_in_game(),
            None => false,
        }
    }

    /// Is all clients ready to connect?
    ///
    /// This means more than one client, and all clients ready
    pub fn is_ready_to_connect(&self) -> (r: bool)
        ensures
            r == (self.clients@.len() >= 2 && forall|i: int|
                0 <= i < self.clients@.len() ==> self.clients@[i].spec_state()
                    == ClientState::InReady),
    {
        if self.clients.len() < 2 {
            false
        } else {
            let mut i: usize = 0;
            while i < self.clients.len()
                invariant
                    i <= self.clients@.len(),
                    forall|j: int|
                        0 <= j < i ==> self.clients@[j].spec_state() == ClientState::InReady,
                decreases self.clients@.len() - i,
            {
                if self.clients[i].get_state() != ClientState::InReady {
                    return false;
                }
                i = i + 1;
            }
            true
        }
    }

    /// Return true if all clients are connected, i.e, all
    /// clients called the /connect endpoint, and identified
    /// themselves in the game server port.
    pub fn all_clients_connected(&self) -> (r: bool)
        ensures
            r == forall|i: int|
                0 <= i < self.clients@.len() ==> is_connected_state(
                    self.clients@[i].spec_state(),
                ),
    {
        let mut i: usize = 0;
        while i < self.clients.len()
            invariant
                i <= self.clients@.len(),
                forall|j: int|
                    0 <= j < i ==> is_connected_state(self.clients@[j].spec_state()),
            decreases self.clients@.len() - i,
        {
            let ok = match self.clients[i].get_state() {
                ClientState::InGameConnect => true,
                ClientState::InGameStart => true,
                ClientState::InGame => true,
                _ => false,
            };
            if !ok {
                return false;
            }
            i = i + 1;
        }
        true
    }

    /// Whether every client has entered the game.
    pub fn all_clients_in_game(&self) -> (r: bool)
        ensures
            r == forall|i: int|
                0 <= i < self.clients@.len() ==> self.clients@[i].spec_state() == ClientState::InGame,
    {
        let mut i: usize = 0;
        while i < self.clients.len()
            invariant
                i <= self.clients@.len(),
                forall|j: int| 0 <= j < i ==> self.clients@[j].spec_state() == ClientState::InGame,
            decreases self.clients@.len() - i,
        {
            if self.clients[i].get_state() != ClientState::InGame {
                return false;
            }
            i = i + 1;
        }
        true
    }

    /// Broadcast a message to all clients, unless the
    /// client is the one who has the ID in the `exception_list`
    ///
    /// Each other client gets a copy of the packet addressed to itself.
    pub fn broadcast_game_packet(&mut self, p: Packet, exception_list: Vec<u64>)
        ensures
            final(self).name == old(self).name,
            broadcast_done(old(self).clients@, final(self).clients@, p@, exception_list@),
    {
        let mut i: usize = 0;
        while i < self.clients.len()
            invariant
                i <= self.clients@.len(),
                self.name == old(self).name,
                self.clients@.len() == old(self).clients@.len(),
                forall|j: int|
                    i <= j < old(self).clients@.len() ==> self.clients@[j] == old(
                        self,
                    ).clients@[j],
                forall|j: int|
                    #![trigger self.clients@[j]]
                    0 <= j < i ==> {
                        let c = old(self).clients@[j];
                        if exception_list@.contains(c.spec_id()) {
                            self.clients@[j] == c
                        } else {
                            &&& self.clients@[j].same_but_packets(&c)
                            &&& self.clients@[j].packet_queue() == c.packet_queue().push(
                                p@.addressed_to(c.spec_id()),
                            )
                        }
                    },
            decreases self.clients@.len() - i,
        {
            let cid = self.clients[i].id;
            if !contains_id(&exception_list, cid) {
                let np = p.to_new_client(cid);
                self.clients[i].push_game_packet(np);
            }
            i = i + 1;
        }
    }

    /// Push a packet to the queue of a client
    pub fn push_game_packet(&mut self, client_id: u64, p: Packet)
        ensures
            final(self).name == old(self).name,
            pushed_to(old(self).clients@, final(self).clients@, client_id, p@),
    {
        proof {
            lemma_id_index(self.clients@, client_id);
        }
        match self.get_client_mut(client_id) {
            Some(c) => c.push_game_packet(p),
            None => {},
        }
    }

    /// Pop a packet from a client
    pub fn pop_game_packet(&mut self, client_id: u64) -> (r: Option<Packet>)
        ensures
            final(self).name == old(self).name,
            popped_from(old(self).clients@, final(self).clients@, client_id, r),
    {
        proof {
            lemma_id_index(self.clients@, client_id);
        }
        match self.get_client_mut(client_id) {
            Some(c) => c.pop_game_packet(),
            None => None,
        }
    }

    /// Stores a chat message for everybody in the send queue of every client.
    pub fn send_message_to_all(&mut self, sender_id: u64, content: String)
        ensures
            final(self).name == old(self).name,
            final(self).clients@.len() == old(self).clients@.len(),
            forall|i: int|
                #![trigger final(self).clients@[i]]
                0 <= i < old(self).clients@.len() ==> {
                    let c = old(self).clients@[i];
                    let n = final(self).clients@[i];
                    &&& n.same_but_sent_chats(&c)
                    &&& n.sent_chats().len() == c.sent_chats().len() + 1
                    &&& n.sent_chats().drop_last() == c.sent_chats()
                    &&& n.sent_chats().last().spec_sender_id() == sender_id
                    &&& n.sent_chats().last().spec_receiver() == ChatReceiver::All
                    &&& n.sent_chats().last().spec_content() == content@
                },
    {
        let mut i: usize = 0;
        while i < self.clients.len()
            invariant
                i <= self.clients@.len(),
                self.name == old(self).name,
                self.clients@.len() == old(self).clients@.len(),
                forall|j: int|
                    i <= j < old(self).clients@.len() ==> self.clients@[j] == old(
                        self,
                    ).clients@[j],
                forall|j: int|
                    #![trigger self.clients@[j]]
                    0 <= j < i ==> {
                        let c = old(self).clients@[j];
                        let n = self.clients@[j];
                        &&& n.same_but_sent_chats(&c)
                        &&& n.sent_chats().len() == c.sent_chats().len() + 1
                        &&& n.sent_chats().drop_last() == c.sent_chats()
                        &&& n.sent_chats().last().spec_sender_id() == sender_id
                        &&& n.sent_chats().last().spec_receiver() == ChatReceiver::All
                        &&& n.sent_chats().last().spec_content() == content@
                    },
            decreases self.clients@.len() - i,
        {
            self.clients[i].send_message(sender_id, ChatReceiver::All, content.clone());
            i = i + 1;
        }
    }
}

/// Whether `id` occurs in `list`.
fn contains_id(list: &Vec<u64>, id: u64) -> (r: bool)
    ensures
        r == list@.contains(id),
{
    let mut i: usize = 0;
    while i < list.len()
        invariant
            i <= list@.len(),
            forall|j: int| 0 <= j < i ==> list@[j] != id,
        decreases list@.len() - i,
    {
        if list[i] == id {
            return true;
        }
        i = i + 1;
    }
    false
}

/// Becoming ready and then not ready again, or the other way round, is
/// accepted for a client in the setup screen or ready, and leaves it in the
/// state the last request asked for.
pub proof fn lemma_ready_toggle(s: ClientState)
    requires
        s == ClientState::InGameSetup || s == ClientState::InReady,
    ensures
        ready_transition(s) == (ClientState::InReady, true),
        unready_transition(ready_transition(s).0) == (ClientState::InGameSetup, true),
        unready_transition(s) == (ClientState::InGameSetup, true),
        ready_transition(unready_transition(s).0) == (ClientState::InReady, true),
{
}

/// Repeating a request for a state change changes nothing more, and gets
/// the same answer.
pub proof fn lemma_transitions_idempotent(s: ClientState)
    ensures
        ready_transition(ready_transition(s).0) == ready_transition(s),
        unready_transition(unready_transition(s).0) == unready_transition(s),
        connect_transition(connect_transition(s).0) == connect_transition(s),
        starting_transition(starting_transition(s).0) == starting_transition(s),
        in_game_transition(in_game_transition(s).0) == in_game_transition(s),
{
}

/// A refused request for a state change leaves the state as it was, and
/// once connected to the game server a client can no longer change its
/// ready state.
pub proof fn lemma_refusals_keep_state(s: ClientState)
    ensures
        !ready_transition(s).1 ==> ready_transition(s).0 == s,
        !unready_transition(s).1 ==> unready_transition(s).0 == s,
        !connect_transition(s).1 ==> connect_transition(s).0 == s,
        !starting_transition(s).1 ==> starting_transition(s).0 == s,
        !in_game_transition(s).1 ==> in_game_transition(s).0 == s,
        is_connected_state(s) ==> !ready_transition(s).1 && !unready_transition(s).1,
{
}

/// Game packets leave a client's queue in the order they came in: after
/// pushing `p` for client `id` and popping for it, the pop gives the packet
/// at the front of the queue before the push (`p` itself if it was empty),
/// and the queue is the old one without its front, followed by `p`.
pub proof fn lemma_push_then_pop(
    old: Seq<FClient>,
    mid: Seq<FClient>,
    new: Seq<FClient>,
    id: u64,
    p: PacketValue,
    r: Option<Packet>,
)
    requires
        id_index(old, id) >= 0,
        pushed_to(old, mid, id, p),
        popped_from(mid, new, id, r),
    ensures
        ({
            let q = old[id_index(old, id)].packet_queue().push(p);
            &&& r matches Some(x) && x@ == q[0]
            &&& new[id_index(old, id)].packet_queue() == q.drop_first()
        }),
{
    lemma_push_keeps_logins(old, mid, id, p);
    lemma_same_logins_index(old, mid, id, Seq::<char>::empty());
}

/// Where a token is found once a client joins at the end.
pub proof fn lemma_token_index_push(s: Seq<FClient>, c: FClient, t: Seq<char>)
    ensures
        token_index(s, t) >= 0 ==> token_index(s.push(c), t) == token_index(s, t),
        token_index(s, t) < 0 && c.spec_token() == t ==> token_index(s.push(c), t) == s.len(),
        token_index(s, t) < 0 && c.spec_token() != t ==> token_index(s.push(c), t) < 0,
    decreases s.len(),
{
    if s.len() > 0 {
        assert(s.push(c).drop_first() =~= s.drop_first().push(c));
        lemma_token_index_push(s.drop_first(), c, t);
    } else {
        assert(s.push(c).drop_first() =~= Seq::<FClient>::empty());
        assert(token_index(Seq::<FClient>::empty(), t) == -1);
        assert(s.push(c)[0] == c);
    }
}

} // verus!
