# Fortress

A network of nodes that agrees on transactions by practical Byzantine fault
tolerance (pBFT), with its rules verified in Verus.

There are three kinds of nodes. The leader proposes transactions and votes like
any other node. Peers keep a copy of the state, take transactions from clients to
the leader, and vote. The bootnode knows the leader and all connected peers, and
tells every peer that joins.

A transaction is stored once a quorum of nodes has voted to prepare it and a
quorum has voted to commit it. In a network of `n` nodes `f = (n - 1) / 3` of them
may be faulty, at least one is reckoned with, and a quorum is `2f + 1` votes. A
node counts its own vote. Votes are signed, and no voter is counted twice.

## Layout

`src/` is the verified library. It holds the packets and their byte format
(`wire`, `packet`), signatures and votes (`crypto`, `vote`, `reader`), the
counting of votes (`quorum`), one round of consensus (`engine`), the state
(`state`), and what each node decides (`leader`, `peer`, `bootnode`, `client`,
`retry`). `agreement` and `network` state what holds of every round and between
nodes. Calls into `bincode`, `bytes`, `ed25519_dalek` and `heapless` stand behind
small functions whose contracts say what is relied on.

`app/` is the program around the library: sockets, timers, threads and tasks. It
starts a leader, a bootnode and a peer; with the argument `mock_client` it sends
one transaction to the peer.

`tests/` runs the library.
