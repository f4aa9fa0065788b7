# btclip

Clipboard and screenshot sync between an Android phone and a Windows PC over
Bluetooth RFCOMM. Frames on the link are `[1-byte type][4-byte big-endian
length][payload]`, with type `0x01` for UTF-8 text and `0x02` for image bytes.

- `src/` is the verified library (Verus):
  - `protocol.rs`: frame encoding and decoding, the receiver's payload limit,
    and the round-trip laws of the format.
  - `bitmap.rs`: the BMP file built around clipboard DIB data.
  - `image_codec.rs`: the trusted calls into the `image` crate and std's hasher.
  - `clipboard.rs`: images for the clipboard, changed-image detection, dropped
    file names.
  - `sync.rs`: what a received frame asks for, and the state machine of the
    sending loop with its echo suppression.
- `tests/`: tests of the library on concrete values.
- `app/`: the Windows program (tokio runtime, Bluetooth server, clipboard
  access through `arboard` and the Win32 API) that drives the library.
