# familyline_server

The server side of the Familyline game: the registry of logged-in clients
and their state machine, the lobby chat over WebSocket frames, the binary
game packets (a small frame around a FlatBuffers payload), the HTTP request
reader and response writer, and the SSDP discovery answers.

`src/` is the library, verified with Verus: every public function carries a
contract, and the properties that relate several operations (logins that
only login and logout change, first-in first-out packet queues, the ready
toggle, a logged-out token being refused, decimal numbers reading back as
themselves, ...) are stated and proved as public proof functions.

`app/` is the program around it: the tokio tasks, the warp endpoints, the
UDP discovery socket, the game TCP socket, and the serde forms of the
library's types.

`tests/` runs the library on concrete values.
