//! Verified core of a Bluetooth clipboard bridge: the wire format of its frames,
//! the bitmap framing of clipboard DIB data, image change detection and the
//! decisions of its synchronisation loops.

pub mod bitmap;
pub mod clipboard;
pub mod image_codec;
pub mod protocol;
pub mod sync;
