//! The decisions of a connector between an HTTP gateway and a service.
//!
//! The connector opens websocket connections to the gateway, takes requests
//! from it, sends them to the service and relays the answers. This library
//! holds all that is decided on the way, and nothing that waits or touches the
//! network:
//!
//! - [`connector`]: the settings, and the addresses that follow from them;
//! - [`supervisor`]: when to open connections, and when to open them anew;
//! - [`message_chunk`]: how chunks travel;
//! - [`request_message_info_chunk_body`] and [`response_info`]: the heads of
//!   requests and of answers;
//! - [`session`]: what to do about the chunks of the gateway;
//! - [`outgoing_request`]: the requests that go to the service;
//! - [`relay`]: what to tell the gateway of an answer;
//! - [`transport`]: what goes out over the websocket.
//!
//! What is believed of other crates stands in [`external`].

pub mod connector;
pub mod external;
pub mod message_chunk;
pub mod outgoing_request;
pub mod relay;
pub mod request_headers;
pub mod request_message_info_chunk_body;
pub mod response_info;
pub mod session;
pub mod supervisor;
pub mod text;
pub mod transport;

pub use connector::{
    ConnectorError, ConnectorOptions, ConnectorOptionsBuilder, VertxHttpGatewayConnector,
};
pub use message_chunk::MessageChunk;
pub use outgoing_request::build_request;
pub use relay::{RelayEvent, RelayPhase, ResponseRelay};
pub use request_headers::RequestHeaders;
pub use request_message_info_chunk_body::RequestMessageInfoChunkBody;
pub use response_info::{
    build_response_info_chunk_body, try_build_response_info_chunk_body, HttpVersion,
    ResponseInfoError,
};
pub use session::{Action, ProxyRequest, Session, SessionError};
pub use supervisor::{Supervisor, SupervisorAction, SupervisorEvent};
