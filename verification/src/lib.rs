//! Backend of a live memory-allocation profiler: the allocation store and the
//! per-client streaming protocol.

pub mod conf;
pub mod data;
pub mod data_laws;
pub mod error;
pub mod from_client;
pub mod invariants;
pub mod layout;
pub mod model;
pub mod record;
pub mod socket;
pub mod socket_laws;
pub mod text;
pub mod time;
pub mod tod_map;
pub mod uid_set;
