//! Control of per-application audio volume by global hotkeys: the session list
//! and its selection, device navigation, per-application routing, the device
//! picker and everything that is spoken.
//!
//! Nothing here touches the system. What the system reports comes in as plain
//! values, and what it is to be asked for goes out as plain values.

pub mod attach;
pub mod audio;
pub mod control;
pub mod devices;
pub mod dialog;
pub mod enumeration;
pub mod hotkeys;
pub mod lists;
pub mod picker;
pub mod prism;
pub mod routing;
pub mod text;
pub mod utf16;
pub mod winpath;
