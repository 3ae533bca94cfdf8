# infrarust

The Minecraft protocol layer and the server-management decisions of the
Infrarust proxy, as a library whose behaviour is stated in contracts and
proved with Verus.

- `src/` — the verified library:
  - `codec`: the wire format (integers, `VarInt`/`VarLong`, strings, byte
    arrays, UUIDs), each encoder and decoder specified against a model of
    the bytes, with round-trip laws.
  - `packets`: handshake, status, login and play packets, each specified by
    what it parses and what it encodes to, with round-trip laws.
  - `registry`: the (state, direction, version, id) → packet table and frame
    decoding through it.
  - `io`: packet framing with optional zlib compression.
  - `legacy`: pre-Netty server-list pings and handshakes.
  - `nbt`, `nbt_text`, `chunk`: NBT skipping, network NBT, JSON text
    components (parsed with `serde_json`), and empty chunk data.
  - `crypto`: the AES-128/CFB8 stream ciphers, their state held as the key
    and the 16-byte shift register.
  - `server_manager`: server states and the decisions of the providers and
    the monitor (URLs, status mapping, ready detection, polling speed,
    auto-shutdown).
- `app/` — the I/O around it: NBT serialisation with `fastnbt`, HTTP panel
  providers, the local process provider and the monitor loop.
- `tests/` — tests that run the library with the real outside crates.
