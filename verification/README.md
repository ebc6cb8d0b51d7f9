# ginger_calls

Certificates of a sidechain, signed by a threshold of Schnorr signers: the
message they sign, the hashes a certificate is checked against, and the input of
the circuit that proves that enough of them signed.

Field arithmetic, the Poseidon hash, Merkle trees and the signature scheme
belong to ginger-lib. The library does not call it. Each function of `src/` that
needs it starts a computation, which names the next call to make and continues
with the reply (`src/calls.rs`). Contracts and laws are stated over every back
end.

- `src/field.rs`, `src/schnorr.rs`: field elements, keys and signatures as plain values
- `src/buffer.rs`, `src/transfer.rs`: the bytes that field elements are decoded from
- `src/calls.rs`, `src/element.rs`: computations and their calls
- `src/message.rs`: the message to sign
- `src/hashes.rs`, `src/public_inputs.rs`: the public inputs of a proof
- `src/threshold_proof.rs`: counting signatures and assembling the circuit input
- `src/laws.rs`: what holds of these taken together
- `src/decoder.rs`: what holds with a back end that decodes little-endian integers
- `app/`: the same functions on ginger-lib types
