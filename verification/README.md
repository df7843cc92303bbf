# teleport

A verified library for *channel teleports*: moving a live two-party payment channel from one
funding output onto another without closing it. The library is written in Rust and verified with
Verus.

A teleport runs in five steps. The peers quiesce the channel; the initiator proposes a new outpoint
and what each side takes out; the responder's user accepts or refuses; both sides sign commitments
on the new funding scope; and the scope is promoted, by the responder first and by the initiator
second. Commitments are counted on throughout: no step resets or advances a commitment number.

## Layout

| Module | Contents |
| --- | --- |
| `outpoint`, `msgs`, `events` | outpoints, messages between peers, events for the user |
| `channel`, `teleport` | one side of a channel and the steps of a teleport on it |
| `pair` | both sides together, with a connection that loses messages; laws on every execution |
| `htlcs`, `monitor`, `entry` | payments, the chain monitor, and a channel together with both |
| `teleport_handlers`, `commitment_handlers`, `payment_handlers`, `link_handlers` | what a channel does on each message and call |
| `laws`, `payment_laws` | laws on a channel with its payments and its monitor |
| `node` | a node with its peers, channels and queues |
| `node_laws`, `balance_laws` | laws on whole nodes, over any number of steps |
| `flows` | whole passages of the protocol between two nodes |
| `funding` | opening a channel: its type, its funding output, the way to readiness |
| `commitment`, `commitment_tx` | commitments that pay no fee: their outputs, and the transaction |
| `script`, `htlc_script` | funding and HTLC scripts, and their inspection |
| `claims` | claiming HTLCs on chain in batches, and bumping a commitment |

Each executable function states its effect as a function of the state before the call; the public
proof functions named `law_*` state what follows across several calls.

## What is trusted

Scripts, hashes and transaction ids come from the `bitcoin` crate. The few calls into it stand in
`outpoint`, `script`, `commitment_tx` and `claims`, each in a function of its own whose documentation
says what is claimed of it. The keys of a commitment are handed in: the library derives none.
