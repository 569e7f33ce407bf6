//! A companion program's library: the door that lends this machine's models to an Epoch
//! Host, the pairing code it shows, and the pages its own window draws.

pub mod bench;
pub mod creations;
pub mod curve;
pub mod door;
pub mod form;
pub mod here;
pub mod host;
pub mod invite;
pub mod keep;
pub mod modelspage;
pub mod page;
pub mod shelfpage;
pub mod text;
pub mod window;
pub mod workshop;
