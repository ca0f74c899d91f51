//! The requests that the HTTP API and the game server put to the server's
//! registry, the answers they get, and the function that answers them.
use vstd::prelude::*;

use crate::client::{
    lemma_token_index_push, lemma_broadcast_keeps_logins, lemma_pop_keeps_logins, lemma_push_keeps_logins,
    lemma_same_login, lemma_state_change_keeps_logins, same_logins, broadcast_done, connect_transition, id_index, is_connected_state, lemma_id_index,
    lemma_token_index, popped_from, pushed_to, ready_transition, starting_transition,
    in_game_transition, state_changed, token_for, token_index, unready_transition, ChatMessage,
    ChatReceiver, ClientState, FClient, FServer,
};
use crate::gamemsg::{MessageValue, Packet, PacketMessage, PacketValue};

verus! {

/// Errors that can happen if you try to login and
/// generate the token. Logging in cannot fail, so no request is ever
/// answered with it.
#[derive(Debug)]
pub struct LoginError;

/// General Errors
#[derive(Debug, PartialEq, Eq, Structural, Clone, Copy)]
pub enum QueryError {
    InvalidToken,
    ClientNotFound,
    /// You tried to call /connect, but not all clients were ready
    NotAllClientsReady,
}

#[derive(Debug)]
pub struct LoginInfo {
    pub token: String,
}

#[derive(Debug)]
pub struct LoginResult {
    pub name: String,
    pub token: String,
    pub user_id: u64,
}

impl LoginResult {
    /// `self` describes the client `c`: its name, token and id.
    pub open spec fn describes(&self, c: FClient) -> bool {
        &&& self.name@ == c.spec_name()
        &&& self.token@ == c.spec_token()
        &&& self.user_id == c.spec_id()
    }

    pub fn from(c: &FClient) -> (r: LoginResult)
        ensures
            r.describes(*c),
    {
        LoginResult { name: c.name_str().to_owned(), token: c.token_str().to_owned(), user_id: c.id() }
    }
}

#[derive(Debug)]
pub struct ClientInfo {
    pub name: String,
    pub user_id: u64,
    pub ready: bool,
    pub connecting: bool,
    pub ingame: bool,
}

impl ClientInfo {
    /// `self` describes the client `c`: its name, its id and which of the
    /// ready, game-start and in-game states it is in.
    pub open spec fn describes(&self, c: FClient) -> bool {
        &&& self.name@ == c.spec_name()
        &&& self.user_id == c.spec_id()
        &&& self.ready == (c.spec_state() == ClientState::InReady)
        &&& self.connecting == (c.spec_state() == ClientState::InGameStart)
        &&& self.ingame == (c.spec_state() == ClientState::InGame)
    }

    pub fn from(c: &FClient) -> (r: ClientInfo)
        ensures
            r.describes(*c),
    {
        let st = c.get_state();
        ClientInfo {
            name: c.name_str().to_owned(),
            user_id: c.id(),
            ready: st == ClientState::InReady,
            connecting: st == ClientState::InGameStart,
            ingame: st == ClientState::InGame,
        }
    }
}

#[derive(Debug)]
pub struct ServerInfo {
    pub name: String,
    pub clients: Vec<ClientInfo>,
    pub max_clients: usize,
}

impl ServerInfo {
    /// `self` describes the server `s`: its name and each of its clients, in
    /// order, with the client limit that this report always gives, 8.
    pub open spec fn describes(&self, s: &FServer) -> bool {
        &&& self.name == s.name
        &&& self.max_clients == 8
        &&& self.clients@.len() == s.clients@.len()
        &&& forall|i: int|
            0 <= i < s.clients@.len() ==> #[trigger] self.clients@[i].describes(s.clients@[i])
    }

    pub fn from(s: &FServer) -> (r: ServerInfo)
        ensures
            r.describes(s),
    {
        let mut clients: Vec<ClientInfo> = Vec::new();
        let mut i: usize = 0;
        while i < s.clients.len()
            invariant
                i <= s.clients@.len(),
                clients@.len() == i,
                forall|j: int| 0 <= j < i ==> #[trigger] clients@[j].describes(s.clients@[j]),
            decreases s.clients@.len() - i,
        {
            clients.push(ClientInfo::from(&s.clients[i]));
            i = i + 1;
        }
        ServerInfo { name: s.name.clone(), clients, max_clients: 8 }
    }
}

#[derive(Debug)]
pub struct ConnectInfo {
    pub address: String,
    pub port: u16,
}

#[derive(Debug)]
pub enum FRequestMessage {
    Login(String),
    ValidateLogin(LoginInfo),
    LogOff(String),
    GetServerInfo,
    GetClientCount,
    GetClientInfo(u64),
    SetReady(u64),
    UnsetReady(u64),
    ConnectStart(String),
    SendMessage(String, ChatReceiver, String),
    ReceiveMessages(String),
    ConnectConfirm(String),
    CheckAllClientsConnected(String),
    PushGameMessage(String, Packet),
    PopGameMessage(String),
}

pub enum FResponseMessage {
    Login(Result<LoginResult, LoginError>),
    ValidateLogin(Result<LoginResult, QueryError>),
    LogOff(Option<u64>),
    GetServerInfo(ServerInfo),
    GetClientInfo(Option<ClientInfo>),
    GetClientCount(usize),
    SetReady(bool),
    UnsetReady(bool),
    ConnectStart(Result<ConnectInfo, QueryError>),
    SendMessage,
    ReceiveMessages(Vec<ChatMessage>),
    ConnectConfirm(Result<(), QueryError>),
    CheckAllClientsConnected(bool),
    PushGameMessage(bool),
    PopGameMessage(Option<Packet>),
}

/// The requests that the server cannot answer: a chat message or a request
/// for messages with a token that no client holds, and a chat message to a
/// team.
pub open spec fn request_is_answerable(clients: Seq<FClient>, cmd: FRequestMessage) -> bool {
    match cmd {
        FRequestMessage::SendMessage(token, receiver, _) => token_index(clients, token@) >= 0
            && receiver != ChatReceiver::Team,
        FRequestMessage::ReceiveMessages(token) => token_index(clients, token@) >= 0,
        _ => true,
    }
}

/// The id of the client that holds `token`, or 0 when none does.
pub open spec fn token_owner(clients: Seq<FClient>, token: Seq<char>) -> u64 {
    let t = token_index(clients, token);
    if t < 0 {
        0
    } else {
        clients[t].spec_id()
    }
}

/// Whether a packet pushed by client `cid` is accepted given the state of
/// that client and the message it carries, and the state change it causes:
/// a loading request moves the client to the starting state, a game start
/// request moves it into the game, an input is only accepted from a client in
/// the game; anything else is accepted as it is.
pub open spec fn push_accepted(
    old: Seq<FClient>,
    mid: Seq<FClient>,
    cid: u64,
    message: MessageValue,
    rres: bool,
) -> bool {
    match message {
        MessageValue::LoadingRequest(_) => state_changed(
            old,
            mid,
            cid,
            |s: ClientState| starting_transition(s),
            rres,
        ),
        MessageValue::GameStartRequest => state_changed(
            old,
            mid,
            cid,
            |s: ClientState| in_game_transition(s),
            rres,
        ),
        MessageValue::SendInputRequest(_, _) => mid == old && rres == (
        old[id_index(old, cid)].spec_state() == ClientState::InGame),
        _ => mid == old && rres,
    }
}

/// Where a packet from client `cid`, accepted or not (`rres`), goes: nowhere
/// when it is addressed to its own source (and the answer is `false`), to
/// every other client when its destination is 0, else to the queue of its
/// destination; only an accepted packet is delivered, and the answer is
/// whether it was accepted.
pub open spec fn push_delivered(
    mid: Seq<FClient>,
    new: Seq<FClient>,
    cid: u64,
    p: PacketValue,
    rres: bool,
    r: bool,
) -> bool {
    if p.source_client == p.dest_client {
        !r && new == mid
    } else if p.dest_client == 0 {
        r == rres && (if rres {
            broadcast_done(mid, new, p, seq![cid])
        } else {
            new == mid
        })
    } else {
        r == rres && (if rres {
            pushed_to(mid, new, p.dest_client, p)
        } else {
            new == mid
        })
    }
}

/// The registry went from `old` through `mid` to `new` when the client with
/// id `cid` confirmed its connection: `mid` is `old` after the client's
/// connect transition (accepted or not, `ok`), and `new` is `mid` after every
/// client got a server packet, stamped `timestamp`, saying that `cid`
/// connected and whether all clients of `mid` are connected.
pub open spec fn connect_confirmed(
    old: Seq<FClient>,
    mid: Seq<FClient>,
    new: Seq<FClient>,
    cid: u64,
    ok: bool,
    timestamp: u64,
) -> bool {
    &&& state_changed(old, mid, cid, |s: ClientState| connect_transition(s), ok)
    &&& broadcast_done(
        mid,
        new,
        PacketValue {
            tick: 0,
            source_client: 0,
            dest_client: cid,
            timestamp,
            message_id: 1,
            message: MessageValue::StartResponse(
                cid,
                forall|i: int| 0 <= i < mid.len() ==> is_connected_state(#[trigger] mid[i].spec_state()),
            ),
        },
        Seq::<u64>::empty(),
    )
}

/// The registry went from `old` through `mid` to `new` when client `cid`
/// pushed packet `p`: `mid` is `old` after the acceptance check (`rres`),
/// `new` is `mid` after the delivery, and `b` is the answer.
pub open spec fn push_outcome(
    old: Seq<FClient>,
    mid: Seq<FClient>,
    new: Seq<FClient>,
    cid: u64,
    p: PacketValue,
    rres: bool,
    b: bool,
) -> bool {
    push_accepted(old, mid, cid, p.message, rres) && push_delivered(mid, new, cid, p, rres, b)
}

/// What answering a game packet pushed with `token` did: a token that no
/// client holds, or one held by a client with id 0, gets `false` and changes
/// nothing; otherwise the packet went through the acceptance check and the
/// delivery of `push_outcome`.
pub open spec fn push_answered(
    old: Seq<FClient>,
    new: Seq<FClient>,
    token: Seq<char>,
    p: PacketValue,
    b: bool,
) -> bool {
    let cid = token_owner(old, token);
    if cid == 0 {
        new == old && !b
    } else {
        exists|mid: Seq<FClient>, rres: bool| #[trigger] push_outcome(old, mid, new, cid, p, rres, b)
    }
}

/// `new` is `old` with one more client at the end, just logged in under
/// `user`: its token made from its id and name, in the game setup state,
/// with no packets waiting.
pub open spec fn logged_in(old: Seq<FClient>, new: Seq<FClient>, user: Seq<char>) -> bool {
    &&& new.len() == old.len() + 1
    &&& new.drop_last() == old
    &&& new.last().spec_name() == user
    &&& new.last().spec_token() == token_for(new.last().spec_id(), user)
    &&& new.last().spec_state() == ClientState::InGameSetup
    &&& new.last().packet_queue().len() == 0
}

/// What answering `cmd` did: `old` is the server before, `new` after, and
/// `r` the answer.
pub open spec fn request_answered(
    old: FServer,
    new: FServer,
    cmd: FRequestMessage,
    r: FResponseMessage,
) -> bool {
    let old_c = old.clients@;
    let new_c = new.clients@;
    match cmd {
        FRequestMessage::Login(user) => {
            &&& logged_in(old_c, new_c, user@)
            &&& r matches FResponseMessage::Login(Ok(lr)) && lr.describes(new_c.last())
        },
        FRequestMessage::LogOff(token) => {
            let t = token_index(old_c, token@);
            if t < 0 {
                &&& new_c == old_c
                &&& r matches FResponseMessage::LogOff(None)
            } else {
                let cid = old_c[t].spec_id();
                &&& new_c == old_c.remove(id_index(old_c, cid))
                &&& r matches FResponseMessage::LogOff(Some(x)) && x == cid
            }
        },
        FRequestMessage::ValidateLogin(info) => {
            let t = token_index(old_c, info.token@);
            &&& new_c == old_c
            &&& t < 0 ==> (r matches FResponseMessage::ValidateLogin(Err(e)) && e
                == QueryError::InvalidToken)
            &&& t >= 0 ==> (r matches FResponseMessage::ValidateLogin(Ok(lr))
                && lr.describes(old_c[t]))
        },
        FRequestMessage::GetServerInfo => {
            &&& new_c == old_c
            &&& r matches FResponseMessage::GetServerInfo(si) && si.describes(&old)
        },
        FRequestMessage::GetClientCount => {
            &&& new_c == old_c
            &&& r matches FResponseMessage::GetClientCount(n) && n == old_c.len()
        },
        FRequestMessage::GetClientInfo(cid) => {
            let i = id_index(old_c, cid);
            &&& new_c == old_c
            &&& i < 0 ==> (r matches FResponseMessage::GetClientInfo(None))
            &&& i >= 0 ==> (r matches FResponseMessage::GetClientInfo(Some(ci))
                && ci.describes(old_c[i]))
        },
        FRequestMessage::SetReady(cid) => r matches FResponseMessage::SetReady(b)
            && state_changed(old_c, new_c, cid, |s: ClientState| ready_transition(s), b),
        FRequestMessage::UnsetReady(cid) => r matches FResponseMessage::UnsetReady(b)
            && state_changed(
            old_c,
            new_c,
            cid,
            |s: ClientState| unready_transition(s),
            b,
        ),
        FRequestMessage::ConnectStart(token) => {
            let t = token_index(old_c, token@);
            let ready = old_c.len() >= 2 && forall|i: int|
                0 <= i < old_c.len() ==> old_c[i].spec_state() == ClientState::InReady;
            &&& new_c == old_c
            &&& t < 0 ==> (r matches FResponseMessage::ConnectStart(Err(e)) && e
                == QueryError::InvalidToken)
            &&& t >= 0 && ready ==> (r matches FResponseMessage::ConnectStart(Ok(ci))
                && ci.address@ == Seq::<char>::empty() && ci.port == 0)
            &&& t >= 0 && !ready ==> (r matches FResponseMessage::ConnectStart(Err(e)) && e
                == QueryError::NotAllClientsReady)
        },
        FRequestMessage::ConnectConfirm(token) => {
            let t = token_index(old_c, token@);
            if t < 0 {
                &&& new_c == old_c
                &&& r matches FResponseMessage::ConnectConfirm(Err(e)) && e
                    == QueryError::InvalidToken
            } else {
                let cid = old_c[t].spec_id();
                &&& r matches FResponseMessage::ConnectConfirm(Ok(_))
                &&& exists|mid: Seq<FClient>, ok: bool, timestamp: u64|
                    #[trigger] connect_confirmed(old_c, mid, new_c, cid, ok, timestamp)
            }
        },
        FRequestMessage::CheckAllClientsConnected(token) => {
            let t = token_index(old_c, token@);
            &&& new_c == old_c
            &&& r matches FResponseMessage::CheckAllClientsConnected(b) && b == (t >= 0
                && (forall|i: int|
                0 <= i < old_c.len() ==> is_connected_state(
                    #[trigger] old_c[i].spec_state(),
                )))
        },
        FRequestMessage::PushGameMessage(token, packet) => r matches FResponseMessage::PushGameMessage(b)
            && push_answered(old_c, new_c, token@, packet@, b),
        FRequestMessage::PopGameMessage(token) => {
            let t = token_index(old_c, token@);
            if t < 0 {
                &&& new_c == old_c
                &&& r matches FResponseMessage::PopGameMessage(None)
            } else {
                r matches FResponseMessage::PopGameMessage(p) && popped_from(
                    old_c,
                    new_c,
                    old_c[t].spec_id(),
                    p,
                )
            }
        },
        FRequestMessage::SendMessage(token, receiver, content) => {
            let sender = old_c[token_index(old_c, token@)].spec_id();
            &&& r matches FResponseMessage::SendMessage
            &&& match receiver {
                ChatReceiver::Client(id) => {
                    let i = id_index(old_c, id);
                    if i < 0 {
                        new_c == old_c
                    } else {
                        &&& new_c.len() == old_c.len()
                        &&& forall|j: int|
                            0 <= j < old_c.len() && j != i ==> new_c[j] == old_c[j]
                        &&& new_c[i].same_but_sent_chats(&old_c[i])
                        &&& new_c[i].sent_chats().drop_last() == old_c[i].sent_chats()
                        &&& new_c[i].sent_chats().len() == old_c[i].sent_chats().len()
                            + 1
                        &&& new_c[i].sent_chats().last().spec_sender_id() == sender
                        &&& new_c[i].sent_chats().last().spec_receiver()
                            == ChatReceiver::Client(id)
                        &&& new_c[i].sent_chats().last().spec_content() == content@
                    }
                },
                _ => new_c == old_c,
            }
        },
        FRequestMessage::ReceiveMessages(token) => {
            let c = old_c[token_index(old_c, token@)];
            let i = id_index(old_c, c.spec_id());
            &&& new_c.len() == old_c.len()
            &&& forall|j: int| 0 <= j < old_c.len() && j != i ==> new_c[j] == old_c[j]
            &&& new_c[i].same_but_last_receive(&old_c[i])
            &&& r matches FResponseMessage::ReceiveMessages(msgs) && msgs@
                == old_c[i].received_chats().filter(
                |m: ChatMessage| old_c[i].last_receive().spec_le(m.spec_store_date()),
            )
        },
    }
}


/// Answers a game packet pushed by the client that holds `token`.
fn push_game_message(server: &mut FServer, token: String, packet: Packet) -> (b: bool)
    ensures
        final(server).name == old(server).name,
        push_answered(old(server).clients@, final(server).clients@, token@, packet@, b),
{
    proof {
        lemma_token_index(server.clients@, token@);
    }
    let cid = match server.validate_token(&token) {
        Some(client) => client.id(),
        None => 0,
    };
    assert(cid == token_owner(server.clients@, token@));
    if cid > 0 {
        proof {
            lemma_id_index(server.clients@, cid);
        }
        let ghost old_c = server.clients@;
        let ghost pv = packet@;
        let rres = match packet.message {
            PacketMessage::LoadingRequest(_) => server.set_client_starting(cid),
            PacketMessage::GameStartRequest => server.set_client_start_to_receive_inputs(cid),
            PacketMessage::SendInputRequest(_, _) => {
                match server.get_client(cid) {
                    Some(c) => c.get_state() == ClientState::InGame,
                    None => false,
                }
            },
            _ => true,
        };
        let ghost mid = server.clients@;
        assert(push_accepted(old_c, mid, cid, pv.message, rres));
        let b = if packet.source_client == packet.dest_client {
            false
        } else if packet.dest_client == 0 {
            if rres {
                let mut except: Vec<u64> = Vec::new();
                except.push(cid);
                proof {
                    assert(except@ =~= seq![cid]);
                }
                server.broadcast_game_packet(packet, except);
            }
            rres
        } else {
            if rres {
                let dest = packet.dest_client;
                server.push_game_packet(dest, packet);
            }
            rres
        };
        assert(push_outcome(old_c, mid, server.clients@, cid, pv, rres, b));
        b
    } else {
        false
    }
}

/// Answers one request, updating the server's registry.
///
/// A login creates a client (with a random id); the chat and game packet
/// requests need the token of a logged-in client; the connect confirmation
/// tells every client, with a packet stamped with the current time, that the
/// client connected and whether everybody has.
pub fn process_request(server: &mut FServer, cmd: FRequestMessage) -> (r: FResponseMessage)
    requires
        request_is_answerable(old(server).clients@, cmd),
    ensures
        final(server).name == old(server).name,
        request_answered(*old(server), *final(server), cmd, r),
{
    let ghost old_s = *server;
    let ghost cmd_g = cmd;
    proof {
        lemma_id_index(server.clients@, 0);
    }
    match cmd {
        FRequestMessage::Login(user) => {
            let r = {
                let client = server.add_client(FClient::new(user));
                let lr = LoginResult::from(client);
                assert(server.clients@.drop_last() =~= old_s.clients@);
                assert(lr.describes(server.clients@.last()));
                FResponseMessage::Login(Ok(lr))
            };
            proof {
                assert(request_answered(old_s, *server, cmd_g, r));
            }
            r
        },
        FRequestMessage::LogOff(token) => {
            let r = {
                proof {
                    lemma_token_index(server.clients@, token@);
                }
                match server.validate_token(&token) {
                    Some(client) => {
                        let cid = client.id();
                        proof {
                            lemma_id_index(server.clients@, cid);
                        }
                        match server.remove_client(cid) {
                            Some(_) => FResponseMessage::LogOff(Some(cid)),
                            None => FResponseMessage::LogOff(None),
                        }
                    },
                    None => FResponseMessage::LogOff(None),
                }
            };
            proof {
                assert(request_answered(old_s, *server, cmd_g, r));
            }
            r
        },
        FRequestMessage::ValidateLogin(info) => {
            let r = match server.validate_token(&info.token) {
                Some(client) => FResponseMessage::ValidateLogin(Ok(LoginResult::from(client))),
                None => FResponseMessage::ValidateLogin(Err(QueryError::InvalidToken)),
            };
            proof {
                assert(request_answered(old_s, *server, cmd_g, r));
            }
            r
        },
        FRequestMessage::GetServerInfo => {
            let r = FResponseMessage::GetServerInfo(ServerInfo::from(server));
            proof {
                assert(request_answered(old_s, *server, cmd_g, r));
            }
            r
        },
        FRequestMessage::GetClientInfo(cid) => {
            let r = {
                let info = match server.get_client(cid) {
                    Some(c) => Some(ClientInfo::from(c)),
                    None => None,
                };
                FResponseMessage::GetClientInfo(info)
            };
            proof {
                assert(request_answered(old_s, *server, cmd_g, r));
            }
            r
        },
        FRequestMessage::SetReady(cid) => {
            let r = FResponseMessage::SetReady(server.set_client_ready(cid));
            proof {
                assert(request_answered(old_s, *server, cmd_g, r));
            }
            r
        },
        FRequestMessage::UnsetReady(cid) => {
            let r = FResponseMessage::UnsetReady(
                server.unset_client_ready(cid),
            );
            proof {
                assert(request_answered(old_s, *server, cmd_g, r));
            }
            r
        },
        FRequestMessage::ConnectStart(token) => {
            let r = match server.validate_token(&token) {
                Some(_) => {
                    if server.is_ready_to_connect() {
                        FResponseMessage::ConnectStart(
                            Ok(ConnectInfo { address: String::new(), port: 0 }),
                        )
                    } else {
                        FResponseMessage::ConnectStart(Err(QueryError::NotAllClientsReady))
                    }
                },
                None => FResponseMessage::ConnectStart(Err(QueryError::InvalidToken)),
            };
            proof {
                assert(request_answered(old_s, *server, cmd_g, r));
            }
            r
        },
        FRequestMessage::ConnectConfirm(token) => {
            let r = {
                proof {
                    lemma_token_index(server.clients@, token@);
                }
                match server.validate_token(&token) {
                    Some(client) => {
                        let id = client.id();
                        let ghost old_c = server.clients@;
                        let ok = server.set_client_connect(id);
                        let ghost mid = server.clients@;
                        let timestamp = crate::clock::unix_timestamp();
                        let all = server.all_clients_connected();
                        let except: Vec<u64> = Vec::new();
                        proof {
                            assert(except@ =~= Seq::<u64>::empty());
                        }
                        server.broadcast_game_packet(
                            Packet::new(0, 0, id, timestamp, 1, PacketMessage::StartResponse(id, all)),
                            except,
                        );
                        assert(connect_confirmed(old_c, mid, server.clients@, id, ok, timestamp));
                        FResponseMessage::ConnectConfirm(Ok(()))
                    },
                    None => FResponseMessage::ConnectConfirm(Err(QueryError::InvalidToken)),
                }
            };
            proof {
                assert(request_answered(old_s, *server, cmd_g, r));
            }
            r
        },
        FRequestMessage::CheckAllClientsConnected(token) => {
            let r = match server.validate_token(&token) {
                Some(_) => FResponseMessage::CheckAllClientsConnected(server.all_clients_connected()),
                None => FResponseMessage::CheckAllClientsConnected(false),
            };
            proof {
                assert(request_answered(old_s, *server, cmd_g, r));
            }
            r
        },
        FRequestMessage::PushGameMessage(token, packet) => {
            let r = {
                    let b = push_game_message(server, token, packet);
                    FResponseMessage::PushGameMessage(b)
            };
            proof {
                assert(request_answered(old_s, *server, cmd_g, r));
            }
            r
        },
        FRequestMessage::PopGameMessage(token) => {
            let r = match server.validate_token(&token) {
                Some(client) => {
                    let id = client.id();
                    FResponseMessage::PopGameMessage(server.pop_game_packet(id))
                },
                None => FResponseMessage::PopGameMessage(None),
            };
            proof {
                assert(request_answered(old_s, *server, cmd_g, r));
            }
            r
        },
        FRequestMessage::GetClientCount => {
            let r = FResponseMessage::GetClientCount(server.clients.len());
            proof {
                assert(request_answered(old_s, *server, cmd_g, r));
            }
            r
        },
        FRequestMessage::SendMessage(sender_token, receiver, content) => {
            let r = {
                proof {
                    lemma_token_index(server.clients@, sender_token@);
                }
                let sender = match server.get_client_id_from_token(&sender_token) {
                    Some(id) => id,
                    None => 0,
                };
                match receiver {
                    ChatReceiver::Client(id) => {
                        proof {
                            lemma_id_index(server.clients@, id);
                        }
                        match server.get_client_mut(id) {
                            Some(c) => c.send_message(sender, ChatReceiver::Client(id), content),
                            None => {},
                        }
                    },
                    _ => {},
                }
                FResponseMessage::SendMessage
            };
            proof {
                assert(request_answered(old_s, *server, cmd_g, r));
            }
            r
        },
        FRequestMessage::ReceiveMessages(sender_token) => {
            let r = {
                proof {
                    lemma_token_index(server.clients@, sender_token@);
                }
                let client_id = match server.get_client_id_from_token(&sender_token) {
                    Some(id) => id,
                    None => 0,
                };
                proof {
                    lemma_id_index(server.clients@, client_id);
                }
                match server.get_client_mut(client_id) {
                    Some(client) => {
                        let msgs = client.get_received_messages();
                        client.register_message_receiving();
                        FResponseMessage::ReceiveMessages(msgs)
                    },
                    None => FResponseMessage::ReceiveMessages(Vec::new()),
                }
            };
            proof {
                assert(request_answered(old_s, *server, cmd_g, r));
            }
            r
        },
    }
}

/// The token `token` is held by no client of `clients`.
pub open spec fn unknown_token(clients: Seq<FClient>, token: Seq<char>) -> bool {
    token_index(clients, token) < 0
}

/// Checks `token` the way every query below begins: the login of the client
/// that holds it, or `InvalidToken`.
pub fn send_validate_login_message(server: &mut FServer, token: &str) -> (r: Result<
    LoginResult,
    QueryError,
>)
    ensures
        final(server).name == old(server).name,
        final(server).clients@ == old(server).clients@,
        unknown_token(old(server).clients@, token@) ==> r == Err::<LoginResult, QueryError>(
            QueryError::InvalidToken,
        ),
        !unknown_token(old(server).clients@, token@) ==> (r matches Ok(lr) && lr.describes(
            old(server).clients@[token_index(old(server).clients@, token@)],
        )),
{
    let resp = process_request(
        server,
        FRequestMessage::ValidateLogin(LoginInfo { token: token.to_string() }),
    );
    match resp {
        FResponseMessage::ValidateLogin(res) => res,
        _ => Err(QueryError::InvalidToken),
    }
}

/// Logs a new client in under `username`.
pub fn send_login_message(server: &mut FServer, username: &str) -> (r: Result<
    LoginResult,
    LoginError,
>)
    ensures
        final(server).name == old(server).name,
        logged_in(old(server).clients@, final(server).clients@, username@),
        r matches Ok(lr) && lr.describes(final(server).clients@.last()),
{
    let cmd = FRequestMessage::Login(username.to_string());
    let resp = process_request(server, cmd);
    match resp {
        FResponseMessage::Login(res) => res,
        _ => Err(LoginError),
    }
}


/// The number of clients logged in.
pub fn send_client_count_message(server: &mut FServer) -> (r: Result<usize, QueryError>)
    ensures
        final(server).name == old(server).name,
        final(server).clients@ == old(server).clients@,
        r == Ok::<usize, QueryError>(old(server).clients@.len() as usize),
{
    match process_request(server, FRequestMessage::GetClientCount) {
        FResponseMessage::GetClientCount(n) => Ok(n),
        _ => Ok(0),
    }
}

/// The server's description, for the holder of `token`.
pub fn send_info_message(server: &mut FServer, token: &str) -> (r: Result<ServerInfo, QueryError>)
    ensures
        final(server).name == old(server).name,
        final(server).clients@ == old(server).clients@,
        unknown_token(old(server).clients@, token@) ==> r == Err::<ServerInfo, QueryError>(
            QueryError::InvalidToken,
        ),
        !unknown_token(old(server).clients@, token@) ==> (r matches Ok(si) && si.describes(
            &*old(server),
        )),
{
    match send_validate_login_message(server, token) {
        Ok(_) => match process_request(server, FRequestMessage::GetServerInfo) {
            FResponseMessage::GetServerInfo(si) => Ok(si),
            _ => Err(QueryError::InvalidToken),
        },
        Err(e) => Err(e),
    }
}

/// Logs out the holder of `token`, answering its id.
pub fn send_logout_message(server: &mut FServer, token: &str) -> (r: Result<u64, QueryError>)
    ensures
        final(server).name == old(server).name,
        unknown_token(old(server).clients@, token@) ==> r == Err::<u64, QueryError>(
            QueryError::InvalidToken,
        ) && final(server).clients@ == old(server).clients@,
        !unknown_token(old(server).clients@, token@) ==> ({
            let cid = token_owner(old(server).clients@, token@);
            &&& r == Ok::<u64, QueryError>(cid)
            &&& final(server).clients@ == old(server).clients@.remove(
                id_index(old(server).clients@, cid),
            )
        }),
{
    match send_validate_login_message(server, token) {
        Ok(_) => match process_request(server, FRequestMessage::LogOff(token.to_string())) {
            FResponseMessage::LogOff(Some(id)) => Ok(id),
            _ => Err(QueryError::InvalidToken),
        },
        Err(e) => Err(e),
    }
}

/// The description of client `client_id`, for the holder of `token`.
pub fn send_get_client_message(server: &mut FServer, token: &str, client_id: u64) -> (r: Result<
    ClientInfo,
    QueryError,
>)
    ensures
        final(server).name == old(server).name,
        final(server).clients@ == old(server).clients@,
        unknown_token(old(server).clients@, token@) ==> r == Err::<ClientInfo, QueryError>(
            QueryError::InvalidToken,
        ),
        !unknown_token(old(server).clients@, token@) && id_index(old(server).clients@, client_id)
            < 0 ==> r == Err::<ClientInfo, QueryError>(QueryError::ClientNotFound),
        !unknown_token(old(server).clients@, token@) && id_index(old(server).clients@, client_id)
            >= 0 ==> (r matches Ok(ci) && ci.describes(
            old(server).clients@[id_index(old(server).clients@, client_id)],
        )),
{
    match send_validate_login_message(server, token) {
        Ok(_) => match process_request(server, FRequestMessage::GetClientInfo(client_id)) {
            FResponseMessage::GetClientInfo(Some(c)) => Ok(c),
            _ => Err(QueryError::ClientNotFound),
        },
        Err(e) => Err(e),
    }
}

/// Moves the holder of `token` to the ready state, answering whether the
/// move was allowed.
pub fn send_set_ready_message(server: &mut FServer, token: &str) -> (r: Result<bool, QueryError>)
    ensures
        final(server).name == old(server).name,
        unknown_token(old(server).clients@, token@) ==> r == Err::<bool, QueryError>(
            QueryError::InvalidToken,
        ) && final(server).clients@ == old(server).clients@,
        !unknown_token(old(server).clients@, token@) ==> (r matches Ok(b) && state_changed(
            old(server).clients@,
            final(server).clients@,
            token_owner(old(server).clients@, token@),
            |s: ClientState| ready_transition(s),
            b,
        )),
{
    match send_validate_login_message(server, token) {
        Ok(login) => match process_request(server, FRequestMessage::SetReady(login.user_id)) {
            FResponseMessage::SetReady(b) => Ok(b),
            _ => Err(QueryError::InvalidToken),
        },
        Err(e) => Err(e),
    }
}

/// Moves the holder of `token` out of the ready state, answering whether
/// the move was allowed.
pub fn send_unset_ready_message(server: &mut FServer, token: &str) -> (r: Result<bool, QueryError>)
    ensures
        final(server).name == old(server).name,
        unknown_token(old(server).clients@, token@) ==> r == Err::<bool, QueryError>(
            QueryError::InvalidToken,
        ) && final(server).clients@ == old(server).clients@,
        !unknown_token(old(server).clients@, token@) ==> (r matches Ok(b) && state_changed(
            old(server).clients@,
            final(server).clients@,
            token_owner(old(server).clients@, token@),
            |s: ClientState| unready_transition(s),
            b,
        )),
{
    match send_validate_login_message(server, token) {
        Ok(login) => match process_request(server, FRequestMessage::UnsetReady(login.user_id)) {
            FResponseMessage::UnsetReady(b) => Ok(b),
            _ => Err(QueryError::InvalidToken),
        },
        Err(e) => Err(e),
    }
}

/// Whether the game can start: at least two clients, all of them ready.
pub open spec fn all_ready(clients: Seq<FClient>) -> bool {
    clients.len() >= 2 && forall|i: int|
        0 <= i < clients.len() ==> #[trigger] clients[i].spec_state() == ClientState::InReady
}

/// Asks, for the holder of `token`, to start the game: where to connect
/// when every client is ready, else `NotAllClientsReady`.
pub fn send_connect_message(server: &mut FServer, token: &str) -> (r: Result<
    ConnectInfo,
    QueryError,
>)
    ensures
        final(server).name == old(server).name,
        final(server).clients@ == old(server).clients@,
        unknown_token(old(server).clients@, token@) ==> r == Err::<ConnectInfo, QueryError>(
            QueryError::InvalidToken,
        ),
        !unknown_token(old(server).clients@, token@) && all_ready(old(server).clients@) ==> (r matches Ok(
            ci,
        ) && ci.address@ == Seq::<char>::empty() && ci.port == 0),
        !unknown_token(old(server).clients@, token@) && !all_ready(old(server).clients@) ==> r
            == Err::<ConnectInfo, QueryError>(QueryError::NotAllClientsReady),
{
    match send_validate_login_message(server, token) {
        Ok(_) => match process_request(server, FRequestMessage::ConnectStart(token.to_string())) {
            FResponseMessage::ConnectStart(res) => res,
            _ => Err(QueryError::InvalidToken),
        },
        Err(e) => Err(e),
    }
}

/// Confirms that the holder of `token` connected to the game server: its
/// connect transition is made and every client is told, as
/// `connect_confirmed` says.
pub fn send_connect_confirm_message(server: &mut FServer, token: &str) -> (r: Result<
    (),
    QueryError,
>)
    ensures
        final(server).name == old(server).name,
        unknown_token(old(server).clients@, token@) ==> r == Err::<(), QueryError>(
            QueryError::InvalidToken,
        ) && final(server).clients@ == old(server).clients@,
        !unknown_token(old(server).clients@, token@) ==> r is Ok,
        !unknown_token(old(server).clients@, token@) ==> exists|
            mid: Seq<FClient>,
            ok: bool,
            timestamp: u64,
        |
            #[trigger] connect_confirmed(
                old(server).clients@,
                mid,
                final(server).clients@,
                token_owner(old(server).clients@, token@),
                ok,
                timestamp,
            ),
{
    let ghost old_c = server.clients@;
    match send_validate_login_message(server, token) {
        Ok(_) => {
            let t = token.to_string();
            let resp = process_request(server, FRequestMessage::ConnectConfirm(t));
            proof {
                let cid = token_owner(old_c, token@);
                assert(cid == old_c[token_index(old_c, t@)].spec_id());
                assert(exists|mid: Seq<FClient>, ok: bool, timestamp: u64|
                    #[trigger] connect_confirmed(old_c, mid, server.clients@, cid, ok, timestamp));
            }
            match resp {
                FResponseMessage::ConnectConfirm(res) => res,
                _ => Err(QueryError::InvalidToken),
            }
        },
        Err(e) => Err(e),
    }
}

///
/// Pop the game packet for the client whose token is `token`
///
/// Return the packet data, or an error
/// We can have no packet, in this case it will return a None.
/// Otherwise, a Some(...) will be returned.
pub fn send_pop_game_packet_message(server: &mut FServer, token: &str) -> (r: Result<
    Option<Packet>,
    QueryError,
>)
    ensures
        final(server).name == old(server).name,
        unknown_token(old(server).clients@, token@) ==> r == Err::<Option<Packet>, QueryError>(
            QueryError::InvalidToken,
        ) && final(server).clients@ == old(server).clients@,
        !unknown_token(old(server).clients@, token@) ==> (r matches Ok(p) && popped_from(
            old(server).clients@,
            final(server).clients@,
            token_owner(old(server).clients@, token@),
            p,
        )),
{
    match send_validate_login_message(server, token) {
        Ok(_) => match process_request(server, FRequestMessage::PopGameMessage(token.to_string())) {
            FResponseMessage::PopGameMessage(p) => Ok(p),
            _ => Err(QueryError::InvalidToken),
        },
        Err(e) => Err(e),
    }
}

/// Pushes the game packet `p` from the holder of `token`, answering
/// whether it was accepted and delivered, as `push_answered` says.
pub fn send_push_game_packet_message(server: &mut FServer, token: &str, p: Packet) -> (r: Result<
    bool,
    QueryError,
>)
    ensures
        final(server).name == old(server).name,
        unknown_token(old(server).clients@, token@) ==> r == Err::<bool, QueryError>(
            QueryError::InvalidToken,
        ) && final(server).clients@ == old(server).clients@,
        !unknown_token(old(server).clients@, token@) ==> (r matches Ok(b) && push_answered(
            old(server).clients@,
            final(server).clients@,
            token@,
            p@,
            b,
        )),
{
    match send_validate_login_message(server, token) {
        Ok(_) => match process_request(
            server,
            FRequestMessage::PushGameMessage(token.to_string(), p),
        ) {
            FResponseMessage::PushGameMessage(b) => Ok(b),
            _ => Err(QueryError::InvalidToken),
        },
        Err(e) => Err(e),
    }
}

/// Every client of `clients` is connected to the game server.
pub open spec fn all_connected(clients: Seq<FClient>) -> bool {
    forall|i: int| 0 <= i < clients.len() ==> is_connected_state(#[trigger] clients[i].spec_state())
}

/// Whether every client is connected to the game server, for the holder of
/// `token`.
pub fn send_check_all_clients_connected_message(server: &mut FServer, token: &str) -> (r: Result<
    bool,
    QueryError,
>)
    ensures
        final(server).name == old(server).name,
        final(server).clients@ == old(server).clients@,
        unknown_token(old(server).clients@, token@) ==> r == Err::<bool, QueryError>(
            QueryError::InvalidToken,
        ),
        !unknown_token(old(server).clients@, token@) ==> r == Ok::<bool, QueryError>(
            all_connected(old(server).clients@),
        ),
{
    match send_validate_login_message(server, token) {
        Ok(_) => match process_request(
            server,
            FRequestMessage::CheckAllClientsConnected(token.to_string()),
        ) {
            FResponseMessage::CheckAllClientsConnected(b) => Ok(b),
            _ => Err(QueryError::InvalidToken),
        },
        Err(e) => Err(e),
    }
}

/// `same_logins` carries over a chain of registries.
proof fn lemma_same_logins_trans(a: Seq<FClient>, b: Seq<FClient>, c: Seq<FClient>)
    requires
        same_logins(a, b),
        same_logins(b, c),
    ensures
        same_logins(a, c),
{
    assert forall|i: int| 0 <= i < a.len() implies #[trigger] a[i].spec_id() == c[i].spec_id()
        && a[i].spec_token() == c[i].spec_token() by {
        assert(a[i].spec_id() == b[i].spec_id());
        assert(b[i].spec_id() == c[i].spec_id());
    }
}

/// Answering a pushed game packet keeps the logins.
pub proof fn lemma_push_answered_keeps_logins(
    old: Seq<FClient>,
    new: Seq<FClient>,
    token: Seq<char>,
    p: PacketValue,
    b: bool,
)
    requires
        push_answered(old, new, token, p, b),
    ensures
        same_logins(old, new),
{
    let cid = token_owner(old, token);
    if cid != 0 {
        let (mid, rres) = choose|mid: Seq<FClient>, rres: bool|
            #[trigger] push_outcome(old, mid, new, cid, p, rres, b);
        match p.message {
            MessageValue::LoadingRequest(_) => lemma_state_change_keeps_logins(
                old,
                mid,
                cid,
                |s: ClientState| starting_transition(s),
                rres,
            ),
            MessageValue::GameStartRequest => lemma_state_change_keeps_logins(
                old,
                mid,
                cid,
                |s: ClientState| in_game_transition(s),
                rres,
            ),
            _ => {},
        }
        if p.source_client != p.dest_client && rres {
            if p.dest_client == 0 {
                lemma_broadcast_keeps_logins(mid, new, p, seq![cid]);
            } else {
                lemma_push_keeps_logins(mid, new, p.dest_client, p);
            }
        }
        lemma_same_logins_trans(old, mid, new);
    }
}

/// Only logging in and logging out change who is logged in: every other
/// request leaves the ids and tokens of the clients, position by position,
/// as they were.
pub proof fn lemma_requests_keep_logins(
    old: FServer,
    new: FServer,
    cmd: FRequestMessage,
    r: FResponseMessage,
)
    requires
        request_is_answerable(old.clients@, cmd),
        request_answered(old, new, cmd, r),
        !(cmd is Login),
        !(cmd is LogOff),
    ensures
        same_logins(old.clients@, new.clients@),
{
    let old_c = old.clients@;
    let new_c = new.clients@;
    match cmd {
        FRequestMessage::SetReady(cid) => lemma_state_change_keeps_logins(
            old_c,
            new_c,
            cid,
            |s: ClientState| ready_transition(s),
            r->SetReady_0,
        ),
        FRequestMessage::UnsetReady(cid) => lemma_state_change_keeps_logins(
            old_c,
            new_c,
            cid,
            |s: ClientState| unready_transition(s),
            r->UnsetReady_0,
        ),
        FRequestMessage::ConnectConfirm(token) => {
            let t = token_index(old_c, token@);
            if t >= 0 {
                let cid = old_c[t].spec_id();
                let (mid, ok, timestamp) = choose|mid: Seq<FClient>, ok: bool, timestamp: u64|
                    #[trigger] connect_confirmed(old_c, mid, new_c, cid, ok, timestamp);
                lemma_state_change_keeps_logins(
                    old_c,
                    mid,
                    cid,
                    |s: ClientState| connect_transition(s),
                    ok,
                );
                lemma_broadcast_keeps_logins(
                    mid,
                    new_c,
                    PacketValue {
                        tick: 0,
                        source_client: 0,
                        dest_client: cid,
                        timestamp,
                        message_id: 1,
                        message: MessageValue::StartResponse(
                            cid,
                            forall|i: int|
                                0 <= i < mid.len() ==> is_connected_state(
                                    #[trigger] mid[i].spec_state(),
                                ),
                        ),
                    },
                    Seq::<u64>::empty(),
                );
                lemma_same_logins_trans(old_c, mid, new_c);
            }
        },
        FRequestMessage::PushGameMessage(token, packet) => lemma_push_answered_keeps_logins(
            old_c,
            new_c,
            token@,
            packet@,
            r->PushGameMessage_0,
        ),
        FRequestMessage::PopGameMessage(token) => {
            let t = token_index(old_c, token@);
            if t >= 0 {
                lemma_pop_keeps_logins(old_c, new_c, old_c[t].spec_id(), r->PopGameMessage_0);
            }
        },
        FRequestMessage::SendMessage(token, receiver, content) => {
            if let ChatReceiver::Client(id) = receiver {
                let i = id_index(old_c, id);
                if i >= 0 {
                    lemma_same_login(new_c[i], old_c[i]);
                    assert forall|j: int| 0 <= j < old_c.len() implies #[trigger] old_c[j].spec_id()
                        == new_c[j].spec_id() && old_c[j].spec_token() == new_c[j].spec_token() by {
                        if j != i {
                            assert(new_c[j] == old_c[j]);
                        }
                    }
                }
            }
        },
        FRequestMessage::ReceiveMessages(token) => {
            let c = old_c[token_index(old_c, token@)];
            let i = id_index(old_c, c.spec_id());
            lemma_token_index(old_c, token@);
            lemma_id_index(old_c, c.spec_id());
            lemma_same_login(new_c[i], old_c[i]);
            assert forall|j: int| 0 <= j < old_c.len() implies #[trigger] old_c[j].spec_id()
                == new_c[j].spec_id() && old_c[j].spec_token() == new_c[j].spec_token() by {
                if j != i {
                    assert(new_c[j] == old_c[j]);
                }
            }
        },
        _ => {},
    }
}

/// A client that just logged in is found by its token: validating the
/// token its login answered gives that client's login, unless an earlier
/// client already held the same token.
pub proof fn lemma_login_then_validate(
    old: FServer,
    mid: FServer,
    new: FServer,
    user: String,
    r1: FResponseMessage,
    info: LoginInfo,
    r2: FResponseMessage,
)
    requires
        request_answered(old, mid, FRequestMessage::Login(user), r1),
        r1 matches FResponseMessage::Login(Ok(lr)) && info.token@ == lr.token@,
        unknown_token(old.clients@, info.token@),
        request_answered(mid, new, FRequestMessage::ValidateLogin(info), r2),
    ensures
        new.clients@ == mid.clients@,
        r2 matches FResponseMessage::ValidateLogin(Ok(lr)) && lr.describes(mid.clients@.last()),
{
    let old_c = old.clients@;
    let mid_c = mid.clients@;
    assert(mid_c =~= old_c.push(mid_c.last()));
    lemma_token_index_push(old_c, mid_c.last(), info.token@);
}

/// A client that logged out is no longer found by its token, when no other
/// client held the same token and none before it the same id: logging out
/// answers its id, and validating its token then fails.
pub proof fn lemma_logout_then_validate(
    old: FServer,
    mid: FServer,
    new: FServer,
    token: String,
    r1: FResponseMessage,
    info: LoginInfo,
    r2: FResponseMessage,
)
    requires
        !unknown_token(old.clients@, token@),
        forall|j: int|
            0 <= j < old.clients@.len() && j != token_index(old.clients@, token@)
                ==> #[trigger] old.clients@[j].spec_token() != token@,
        id_index(old.clients@, token_owner(old.clients@, token@)) == token_index(
            old.clients@,
            token@,
        ),
        request_answered(old, mid, FRequestMessage::LogOff(token), r1),
        info.token@ == token@,
        request_answered(mid, new, FRequestMessage::ValidateLogin(info), r2),
    ensures
        r1 matches FResponseMessage::LogOff(Some(id)) && id == token_owner(old.clients@, token@),
        r2 matches FResponseMessage::ValidateLogin(Err(e)) && e == QueryError::InvalidToken,
{
    let old_c = old.clients@;
    let mid_c = mid.clients@;
    let t = token_index(old_c, token@);
    lemma_token_index(old_c, token@);
    lemma_token_index(mid_c, token@);
    assert(mid_c == old_c.remove(t));
    if token_index(mid_c, token@) >= 0 {
        let k = token_index(mid_c, token@);
        if k < t {
            assert(mid_c[k] == old_c[k]);
        } else {
            assert(mid_c[k] == old_c[k + 1]);
        }
    }
}

/// The information reported for a client says which of the lobby's later
/// states it is in: in the game exactly when it is `InGame`, ready exactly
/// when `InReady`, starting exactly when `InGameStart`; at most one of the
/// three holds, and none while the client is in the setup screen or only
/// connected.
pub proof fn lemma_client_info_flags(ci: ClientInfo, c: FClient)
    requires
        ci.describes(c),
    ensures
        ci.ingame <==> c.spec_state() == ClientState::InGame,
        ci.ready <==> c.spec_state() == ClientState::InReady,
        ci.connecting <==> c.spec_state() == ClientState::InGameStart,
        !(ci.ingame && ci.connecting) && !(ci.ingame && ci.ready) && !(ci.ready && ci.connecting),
        (c.spec_state() == ClientState::InGameSetup || c.spec_state() == ClientState::InGameConnect)
            ==> !ci.ingame && !ci.ready && !ci.connecting,
{
}

} // verus!
