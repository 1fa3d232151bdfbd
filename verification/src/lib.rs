//! Decoder for passively captured wireless beacon frames.
//!
//! A captured buffer holds a metadata header and a radio frame. `capture`
//! splits the two and reads the signal strength, `frame` tells a beacon from
//! any other frame and reads the hardware address, `element` walks the
//! information elements, `aggregate` folds them into name, channel and
//! encryption, `frequency` maps the channel to its frequency, and `record`
//! puts the steps together. `store` decides how a record enters a store.

pub mod aggregate;
pub mod capture;
pub mod element;
pub mod encryption;
pub mod error;
pub mod frame;
pub mod frequency;
pub mod record;
pub mod store;
pub mod text;
pub mod wifi;
