//! Verified core of a split caching proxy for a package registry: framing,
//! the control-plane protocol, the tunnel session multiplexer, the download
//! worker's decisions and the mirror's HTTP front end.

pub mod frame;
pub mod text;
pub mod up_stream;
pub mod down_stream;
pub mod proxy_connection;
pub mod front_end;
pub mod worker;
pub mod cpm_api;
pub mod cache;
pub mod control;
pub mod cargo_lock;
