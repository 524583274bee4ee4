//! Request routing core of a development HTTP front door: rule parsing,
//! priority dispatch, path containment and directory listings.

pub mod text;
pub mod error;
pub mod paths;
pub mod rules;
pub mod dispatch;
pub mod listing;
pub mod browse;
