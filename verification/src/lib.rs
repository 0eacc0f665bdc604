//! The decisions of a file organizer: what kind of file this is, which day
//! or film it belongs to, which name or place it gets, and how files that
//! would get the same name are told apart. Nothing here touches the disk or
//! the network; the caller reads the files, fetches the answers of the title
//! service and carries the plans out.

pub mod api_config;
pub mod classify;
pub mod counter;
pub mod date;
pub mod image;
pub mod organize;
pub mod path;
pub mod query;
pub mod simple;
pub mod text;
pub mod video;
