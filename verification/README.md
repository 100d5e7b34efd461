# stego_share

A peer-to-peer image sharing system. Clients offer pictures to each other;
a picture is sent only after a server has hidden it inside a carrier image
(the high nibble of each colour channel goes into the carrier's low nibble),
and the receiver may view it a limited number of times. Servers track which
clients are online, hold view changes for clients that are offline, and
announce their CPU load to each other.

## Layout

- `src/` — the verified library (Verus):
  - `raster.rs`: RGBA rasters, cutting into bands, laying bands out again,
    display packing;
  - `stego.rs`: hiding one picture in another and recovering it;
  - `codec.rs`: image file decoding/encoding and scaling (through the
    `image` crate), view allowances (through `bincode`), fragment transfer;
  - `transfer.rs`: cutting an image into bands, sending them and laying them
    out on the 500 by 500 canvas gives back its first `40 * (height / 40)`
    rows, zero-padded on the right, over zero rows;
  - `fragments.rs`: collecting the datagrams of one image;
  - `net.rs`, `messages.rs`: addresses and protocol messages;
  - `server.rs`, `server_protocol.rs`: server tables and request handling;
  - `client.rs`, `client_protocol.rs`: client tables, peer requests, menus;
  - `chance.rs`: random choices (through `rand`).
- `app/` — the programs: sockets, files, windows, timers and the wire
  format, run as `server`, `client` or `probe`.
- `tests/` — tests of the library.
