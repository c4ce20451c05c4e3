//! Chat-client core: the data model of the Discord adaptor, the requests it
//! sends, the conversions of what Discord answers, the token stores of the
//! desktop front ends, and the avatar/icon cache plans of the widgets.

pub mod selection;
pub mod text;
pub mod token_file;
pub mod adaptors;
pub mod client;
pub mod tray;
pub mod desktop;
