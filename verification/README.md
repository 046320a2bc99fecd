# grpc_echo

A gRPC echo service with server, client and bidirectional streaming, a
demonstration client, and a bridge that lets browsers use the service over
a WebSocket with JSON messages.

- `src/` is the verified library. It holds every decision the programs
  make, each with a contract proved by Verus:
  - `server`: the replies of the echo service (unary echo, the five
    numbered replies of a server stream, the summary of a client stream,
    the echo of a bidirectional stream and when it ends);
  - `websocket_bridge`: the state machine of one bridge connection (how a
    frame is read, how a request is routed, which failures end the
    connection) and of the tasks that relay opened streams;
  - `client`: what the demonstration client sends and when it stops;
  - `json`: the JSON frames written to browsers;
  - `text`: decimal rendering of integers;
  - `messages`: the request and response messages.
- `app/` runs the three programs (`server`, `client`, `bridge`) with tokio,
  tonic and tokio-tungstenite; it performs the I/O the library asks for and
  reports back what happened.
- `tests/` runs the library on concrete values.
