# bridge_relays

Relays between two blockchains: they synchronise headers and finality proofs
of one chain to the other, and deliver messages through the bridge. This crate
is their decision-making core, written in Verus with its behaviour stated in
`requires` / `ensures` contracts and proved.

## Layout

- `src/` — the verified library.
  - `headers.rs`, `sync_types.rs`, `sync.rs`, `maintain.rs`, `sync_loop.rs` —
    the queue of headers to synchronise, header sync decisions and the
    decisions of the sync loop.
  - `finality.rs` — selection of the header whose finality proof is submitted.
  - `race.rs`, `delivery.rs`, `relay_strategy.rs`, `message_details.rs`,
    `messages_lane.rs`, `fees.rs`, `send_message.rs` — message races, delivery
    batches and their limits, relayer economics and the arguments of messages.
  - `on_demand.rs` — the on-demand headers relay.
  - `groups.rs`, `proposal.rs` — parachain groups from a duty roster, and block
    proposal timing.
  - `utils.rs`, `relay_loop.rs`, `metrics.rs`, `linked_map.rs`, `cli.rs` —
    shared helpers, relay loop settings, metric names, an insertion-ordered map
    and node command line decisions.
- `app/` — asynchronous drivers around the library: they talk to the nodes and
  hand the answers to the library's decision functions.
- `tests/` — tests of the library on concrete values.
