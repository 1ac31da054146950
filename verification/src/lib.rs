//! Verified core of the Spotifast music player: interface text, command
//! routing, storage layout, and the small decision rules the interface runs on.

pub mod text;
pub mod catalogs;
pub mod i18n;
pub mod narration;
pub mod notch;
pub mod hover;
pub mod paths;
pub mod fonts;
pub mod window;
pub mod sleep_timer;
pub mod theme;
pub mod bidi;
pub mod reorder;
