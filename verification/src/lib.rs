//! The logic of a web terminal that reaches machines behind a firewall: agents connect out to a
//! server, browsers connect to the server, and the server relays between the two.

pub mod agent;
pub mod assets;
pub mod config;
pub mod end_to_end;
pub mod protocol;
pub mod reconnect;
pub mod relay;
pub mod relay_calls;
mod relay_facts;
pub mod relay_laws;
pub mod server;
pub mod text;
pub mod token;
pub mod ws;

pub use config::Config;
pub use protocol::{Frame, FrameType, ProtocolError};
pub use token::generate_token;
