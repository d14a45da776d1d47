//! Collaborative Rust editor: the members of a room edit one source text together,
//! run it on the server and see each run's result.
pub mod highlighting;
pub mod home;
pub mod json;
pub mod message;
pub mod protocol;
pub mod relay;
pub mod response;
pub mod room;
pub mod routes;
pub mod run_code;
pub mod text;
