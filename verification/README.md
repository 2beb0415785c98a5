# zkproxy

A ZooKeeper wire-protocol codec, verified with Verus, and the proxy program
built on it.

The proxy sits between ZooKeeper clients and a ZooKeeper server. It reads the
requests of each client, passes them on to the server, and relays the server's
responses back. Requests to list the children of the root node are answered
by the proxy itself.

## Layout

- `src/` — the library, verified by Verus:
  - `buffer.rs`: the byte buffer of the `bytes` crate as a byte sequence, and
    big-endian integers;
  - `framing.rs`: the length-delimited framing of `tokio-util`;
  - `codes.rs`: reserved transaction ids and operation codes;
  - `model.rs`: the mathematical models of the records;
  - `wire.rs`: the encoding of each record, and the sizes records announce;
  - `parse.rs`: what decoding gives for each byte sequence;
  - `record.rs`: the `Record` (encode) and `Deserialize` (decode) traits;
  - `codec.rs`: the records and their encoders and decoders;
  - `packet.rs`: the packet codecs of both sides of the proxy;
  - `server.rs`: the proxy's routing decision;
  - `proto.rs`: an earlier, smaller set of records;
  - `laws.rs`: properties across operations — sizes match encodings,
    decoding gives back what encoding wrote, framing is incremental.
- `tests/` — tests on concrete packets.
- `app/` — the asynchronous proxy: sockets, tasks and the `tokio-util`
  codec traits around the library.
