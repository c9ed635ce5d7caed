# City Tavern

Routing of Discreet Log Contract messages between Lightning peers through a proxy
node, verified with Verus.

- `src/wire.rs`, `src/routed_message.rs`, `src/segmentation.rs`: the wire form of what
  travels between peers, and the segments of messages that exceed the buffer.
- `src/dlc.rs`, `src/node.rs`, `src/errors.rs`: contract messages, node identities and
  errors.
- `src/midnight_rider.rs`: the state of a node and its routing decisions.
- `src/city_tavern.rs`: a node with its keys, and the steps of the loops that drive it.
- `src/relay.rs`: the decisions of a relay.
- `src/laws.rs`: what holds of the library as a whole, above all that a message that is
  sent arrives as it was sent.
- `app/`: the node on the network, around the library.

A node that is started without a proxy is the proxy. Any other node hands what it
sends to its proxy, and receives what its proxy hands over. `app/main.rs` runs a proxy,
or with the argument `relay` a relay.
