//! Window grouping: the rules that bind windows of different applications
//! together, the lasso selection geometry, hotkey settings and the
//! decisions of the tray and the window monitor.

pub mod text;
pub mod group;
pub mod overlay;
pub mod i18n;
pub mod settings;
pub mod hotkey_dialog;
pub mod picker;
pub mod tray;
pub mod monitor;
