//! A verified implementation of the VLESS proxy protocol core: the
//! incremental binary codec for addresses, request headers and response
//! headers, the prepend-on-first-write bookkeeping, and the per-connection
//! decision logic that drives a relay.  All I/O lives outside this crate;
//! the functions here compute over plain byte buffers and are specified
//! against ghost-level models of the wire format.

pub mod address;
pub mod buffer_parser;
pub mod relay;
pub mod request;
pub mod response;
pub mod vless;
pub mod write_ext;

pub use buffer_parser::BufferFormer;
pub use buffer_parser::BufferParseResult;
pub use buffer_parser::BufferParser;
pub use buffer_parser::SpecParseResult;

pub use address::InsufficientBuffer;
pub use address::InvalidAddressType;
pub use address::ProxyAddress;
pub use address::ProxyAddressParser;
pub use address::ProxyAddressWithPort;

pub use request::VlessCommand;
pub use request::VlessRequestHeader;
pub use request::VlessrParseOptions;

pub use response::Never;
pub use response::VlessResponseHeader;

pub use vless::ConnectionState;
pub use vless::HeaderProgress;
pub use vless::VlessHeaderParseError;
pub use vless::VlessProtocol;
