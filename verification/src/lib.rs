//! A small file-store protocol: numbered file ids, their integrity digest,
//! the wire header of the TCP service and the routing of the HTTP service.
//! The logic is verified; sockets, files and threads live outside this crate.

pub mod codec;
pub mod decimal;
pub mod text;
pub mod fileid;
pub mod request;
pub mod http;
pub mod transfer;
