//! Verified core of a clipboard manager: content classification, search
//! query parsing, session bookkeeping, sync endpoint derivation and the
//! decisions behind its macOS overlay windows.

pub mod clipboard;
pub mod macos_popover;
pub mod macos_quick_paste;
pub mod search;
pub mod sync;
pub mod text;
