//! Resolution of the originating client address of a connection that may have
//! passed through trusted reverse proxies.
//!
//! Header values are split into tokens, the tokens are stripped of quoting and
//! bracketing, and the resulting chain of claimed addresses is walked against a
//! set of trusted networks.

pub mod headers;
pub mod list;
pub mod network;
pub mod normalize;
pub mod resolve;
pub mod tokenizer;

pub use headers::{forwarded_addresses, forwarded_from, get_forwarded_for};
pub use list::{CommaSeparated, ListError};
pub use network::{IpAddress, IpNetwork, IpNetworks};
pub use normalize::{maybe_bracketed, maybe_quoted};
pub use resolve::real_ip;
pub use tokenizer::{CommaSeparatedIterator, CommaSeparatedIteratorState};
