pub mod cloud;
pub mod detect;
pub mod error;
pub mod listing;
pub mod request;
pub mod tree;
pub mod wire;

pub use cloud::amazon::Amazon;
pub use cloud::azure::Azure;
pub use cloud::google::Google;
pub use cloud::oracle::Oracle;
pub use error::Error;
pub use detect::{Event, Provider, Race};
pub use request::{Method, Request};
pub use tree::{Slot, Tree, Walker};
