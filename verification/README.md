# orchestrator

The verified core of a BN254 multi-signature aggregation orchestrator.

`src/` is the library, checked by Verus:

- `encoding` — big-endian byte encodings of integers and their laws.
- `wire` — the aggregation message on the wire: its round, its optional
  payload, reading it and decoding a whole message.
- `payload` — the ABI `uint256` word of a round (through alloy) and its
  SHA-256 hash (through commonware-cryptography).
- `validator` — the `Validator`: accepts a message only for the round it
  expects, and only when the whole message decodes, answering with the payload
  hash; refusals carry their text.
- `keys` — operators' compressed BN254 keys, turned into arkworks byte order
  and checked with arkworks.
- `decimal` — decimal text of integers and reading a port number.
- `operators` — operator and quorum information from on-chain records, and the
  peers and contributors registered from it.
- `identity` — splitting the `key@port` identity text.
- `signer` — reading the private key's decimal text into its BN254 scalar
  (through arkworks).
- `handlers` — the `TaskCreator` trait and the marking of creator errors.
  Verus has no `async`, so `TaskCreator::get_payload_and_round` is a plain
  method, and its error is a message (`String`).

`app/` is the program around it: arguments, the key file, fetching operator
records over RPC, and the peer-to-peer runtime.
