//! Review bookkeeping for a word-listening trainer: the values that flow
//! between its word store, its resource packs and its views, with their
//! rules stated and proved.

pub mod text;
pub mod clock;
pub mod mime;
pub mod records;
pub mod paths;
pub mod resource;
pub mod view;
pub mod schedule;
pub mod app_info;
