//! The public description of the server: its status, its map and its
//! players, as the information and discovery endpoints report them.
use vstd::prelude::*;

use crate::text::str_eq;

verus! {

#[derive(Copy, Clone, Debug, PartialEq, Eq, Structural)]
pub enum GameStatus {
    InLobby,
    Starting,
    InProgress,
    Ended,
}

pub struct MapInfo {
    pub name: String,
}

/// A player listed in the server information.
#[derive(Clone, Debug)]
pub struct Client {
    pub id: usize,
    pub name: String,
}

impl Client {
    pub fn id(&self) -> (r: usize)
        ensures
            r == self.id,
    {
        self.id
    }

    /// A copy of this client.
    pub fn duplicate(&self) -> (r: Client)
        ensures
            r == *self,
    {
        Client { id: self.id, name: self.name.clone() }
    }
}

pub struct ServerInfo {
    name: String,
    version: String,
    description: String,
    max_clients: usize,
    clients: Vec<Client>,
    status: GameStatus,
    map: MapInfo,
    host_password: String,
}

impl ServerInfo {
    pub closed spec fn spec_name(&self) -> Seq<char> {
        self.name@
    }

    pub closed spec fn spec_version(&self) -> Seq<char> {
        self.version@
    }

    pub closed spec fn spec_description(&self) -> Seq<char> {
        self.description@
    }

    pub closed spec fn spec_max_clients(&self) -> usize {
        self.max_clients
    }

    pub closed spec fn spec_clients(&self) -> Seq<Client> {
        self.clients@
    }

    pub closed spec fn spec_status(&self) -> GameStatus {
        self.status
    }

    pub closed spec fn spec_map_name(&self) -> Seq<char> {
        self.map.name@
    }

    pub closed spec fn spec_host_password(&self) -> Seq<char> {
        self.host_password@
    }

    /// `self` and `other` agree on everything but the client list.
    pub closed spec fn same_but_clients(&self, other: &ServerInfo) -> bool {
        &&& self.name == other.name
        &&& self.version == other.version
        &&& self.description == other.description
        &&& self.max_clients == other.max_clients
        &&& self.status == other.status
        &&& self.map == other.map
        &&& self.host_password == other.host_password
    }

    /// A server in the lobby, running version 0.1.99 on map "map08", with
    /// no clients yet.
    pub fn new(name: &str, description: &str, max_clients: usize, host_password: &str) -> (r:
        ServerInfo)
        ensures
            r.spec_name() == name@,
            r.spec_version() == "0.1.99"@,
            r.spec_description() == description@,
            r.spec_max_clients() == max_clients,
            r.spec_clients() == Seq::<Client>::empty(),
            r.spec_status() == GameStatus::InLobby,
            r.spec_map_name() == "map08"@,
            r.spec_host_password() == host_password@,
    {
        ServerInfo {
            name: name.to_owned(),
            version: "0.1.99".to_owned(),
            description: description.to_owned(),
            max_clients,
            clients: Vec::new(),
            status: GameStatus::InLobby,
            host_password: host_password.to_owned(),
            map: MapInfo { name: "map08".to_owned() },
        }
    }

    pub fn add_client(&mut self, c: Client)
        ensures
            final(self).same_but_clients(old(self)),
            final(self).spec_clients() == old(self).spec_clients().push(c),
    {
        self.clients.push(c);
    }

    /// Removes every client with id `id`, keeping the others in order.
    pub fn remove_client(&mut self, id: usize)
        ensures
            final(self).same_but_clients(old(self)),
            final(self).spec_clients() == old(self).spec_clients().filter(|c: Client| c.id != id),
    {
        let mut kept: Vec<Client> = Vec::new();
        let mut i: usize = 0;
        let ghost pred = |c: Client| c.id != id;
        while i < self.clients.len()
            invariant
                i <= self.clients@.len(),
                pred == (|c: Client| c.id != id),
                kept@ == self.clients@.take(i as int).filter(pred),
            decreases self.clients@.len() - i,
        {
            proof {
                reveal_with_fuel(Seq::<_>::filter, 1);
                assert(self.clients@.take(i + 1).drop_last() =~= self.clients@.take(i as int));
            }
            if self.clients[i].id() != id {
                kept.push(self.clients[i].duplicate());
            }
            i = i + 1;
        }
        assert(self.clients@.take(i as int) =~= self.clients@);
        self.clients = kept;
    }

    /// Replaces the client at position `idx`.
    pub fn update_client(&mut self, idx: usize, nc: Client)
        requires
            idx < old(self).spec_clients().len(),
        ensures
            final(self).same_but_clients(old(self)),
            final(self).spec_clients() == old(self).spec_clients().update(idx as int, nc),
    {
        self.clients.set(idx, nc);
    }

    pub fn get_clients(&self) -> (r: &Vec<Client>)
        ensures
            r@ == self.spec_clients(),
    {
        &self.clients
    }

    pub fn is_client_list_full(&self) -> (r: bool)
        ensures
            r == (self.spec_clients().len() >= self.spec_max_clients()),
    {
        self.clients.len() >= self.max_clients
    }

    pub fn check_password(&self, pwd: &str) -> (r: bool)
        ensures
            r == (pwd@ == self.spec_host_password()),
    {
        str_eq(pwd, self.host_password.as_str())
    }
}

/// A structure that serves only to be deserialized and shown in the
/// discovery message response.
/// It contains many fields that we already have in ServerInfo, but
/// hides some others, and for that reason alone I created this struct
pub struct ServerDiscoveryInfo {
    pub name: String,
    pub version: String,
    pub description: String,
    pub client_count: usize,
    pub max_clients: usize,
    pub status: GameStatus,
}

impl ServerDiscoveryInfo {
    pub fn from(s: &ServerInfo) -> (r: ServerDiscoveryInfo)
        ensures
            r.name@ == s.spec_name(),
            r.version@ == s.spec_version(),
            r.description@ == s.spec_description(),
            r.client_count == s.spec_clients().len(),
            r.max_clients == s.spec_max_clients(),
            r.status == s.spec_status(),
    {
        ServerDiscoveryInfo {
            name: s.name.clone(),
            version: s.version.clone(),
            description: s.description.clone(),
            client_count: s.clients.len(),
            max_clients: s.max_clients,
            status: s.status,
        }
    }
}

/// The clients of `clients` whose id is not `id`, in order: what
/// `ServerInfo::remove_client` keeps.
pub open spec fn without_id(clients: Seq<Client>, id: usize) -> Seq<Client> {
    clients.filter(|c: Client| c.id != id)
}

/// Adding a client and then removing its id leaves the list as removing
/// that id alone would, and no client with that id stays.
pub proof fn lemma_add_then_remove(clients: Seq<Client>, c: Client)
    ensures
        without_id(clients.push(c), c.id) == without_id(clients, c.id),
        forall|i: int|
            0 <= i < without_id(clients.push(c), c.id).len() ==> #[trigger] without_id(
                clients.push(c),
                c.id,
            )[i].id != c.id,
{
    let pred = |x: Client| x.id != c.id;
    reveal_with_fuel(Seq::<_>::filter, 1);
    assert(clients.push(c).drop_last() =~= clients);
    clients.push(c).filter_lemma(pred);
}

} // verus!
