# kulupu

The decisions of a proof-of-work node's service, verified with Verus.

- `src/author.rs`: the account that an author's text names.
- `src/hexadecimal.rs`: hexadecimal text, as it is written and read.
- `src/inherents.rs`: the inherent data providers of a node, and their order.
- `src/service.rs`: the order in which a full node is started, and what ends a start.
- `src/web_server.rs`: where miners are listened to, and by which methods.
- `src/mine_params.rs`: which mining parameters a subscriber is notified of.
- `src/raw_seal.rs`: what is made of the seals that miners send.
- `src/mine.rs`: subscriptions to new heads of the chain.
- `app/`: the node around the library: the client, the network, threads and sockets.

`app/service.rs` and `app/client_chain.rs` need the runtime, the pallets and the proof-of-work crates
of the chain, which are not published, and the client that these were built with.
