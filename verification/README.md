# bridger

The verified core of the Darwinia bridger.

- `src/result.rs`: the bridger's error values and what they display.
- `src/encoding.rs`: `0x`-prefixed lowercase hex, hex hashes read back, decimal numbers.
- `src/parcel.rs`: Ethereum relay header parcels, their comparison and their JSON form.
- `src/service/relay.rs`: the relay service: which block it affirms next, and the
  affirm itself as a state machine from the services' answers to the next request.
- `src/chains/pangoro.rs`: sizing of message deliveries on the Pangoro <> Pangolin lane.
- `app/`: serde and SCALE forms of the parcels, and the async loop that drives the relay.
