# xor

A verified library for obfuscated HTTP bodies: compression, a keyed byte codec,
and replay protection for the keys.

A frame on the wire is `MAGIC` (4 bytes) and the raw-deflate payload, both
encoded with a codec that a 32-bit key determines: a byte `b` at position `i`
becomes `sbox[b] ^ mask[i % 32]`. The key travels in the `x-key` header as
decimal text. A key of a request is accepted once; two bitsets that take turns
remember the used keys for at least one rotation interval. Every response that
has bytes is framed under a key of its own.

## Layout

| Module     | What it holds                                                     |
|------------|-------------------------------------------------------------------|
| `prng`     | the splitmix32 generator                                          |
| `codec`    | the keyed codec, a bijection for every key                        |
| `frame`    | the wire format, around the deflate compressor                    |
| `state`    | `XorState`: the used keys and the response keys                   |
| `replay`   | what the state promises over a history of events                  |
| `key_text` | keys as decimal text                                              |
| `headers`  | the key header and the CORS headers                               |
| `service`  | what becomes of a request and of a response                       |
| `host`     | random bytes and the clock                                        |

`app/` is the ntex middleware around the library, and a small command line for
checking other implementations of the codec.

`ntex-httparse` stands in `Cargo.toml` to hold back a version of it that needs a
newer compiler than Verus comes with.
