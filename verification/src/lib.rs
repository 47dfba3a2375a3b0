//! Catalog, thumbnail resolution and transfer bookkeeping for media that
//! lives on a remote device reachable only through a line-oriented shell.

pub mod catalog;
pub mod dataurl;
pub mod devices;
pub mod errors;
pub mod gateway;
pub mod ledger;
pub mod models;
pub mod number;
pub mod order;
pub mod paths;
pub mod provider;
pub mod scan;
pub mod sessions;
pub mod settings;
pub mod text;
pub mod thumbnail;
pub mod transfer;
