//! Verified core of the khudib request and proxy services: the request logs of the
//! khudib server and of its server-side proxy, the requests that the clients build,
//! the command lines of the programs, the client's record of its requests, the steps
//! of a hotel search, the proxy's rewriting of what it forwards, and `dec2bin`.
pub mod binary;
pub mod breakwater;
pub mod cli;
pub mod client;
pub mod clock;
pub mod ids;
pub mod khudib;
pub mod monitor;
pub mod rewrite;
pub mod search;
pub mod sidecar;

pub use binary::dec2bin;
pub use khudib::{KRequest, KResponse, KhudibService, Mkhudib};
pub use sidecar::{KProxyRequest, KProxyResponse, KhudibProxyService};
