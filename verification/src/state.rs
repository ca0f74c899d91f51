//! The state shared by the chat connections.
use std::collections::HashMap;
use std::collections::VecDeque;
use vstd::prelude::*;

use crate::chat::ChatMessage;
use crate::server::ServerInfo;

verus! {

pub struct ServerState {
    pub info: ServerInfo,
    /// The chat queue of each client, by client id.
    pub chats: HashMap<usize, VecDeque<ChatMessage>>,
}

} // verus!
