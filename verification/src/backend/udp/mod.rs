pub mod codec;
pub mod following;
pub mod network;
pub mod routes;
