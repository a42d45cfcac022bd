//! The core of a small HTTP/1.1 server: the decoding of request lines and the
//! encoding of responses, the dispatch of what was read to a handler, the
//! bookkeeping of a worker pool, and the decisions of a handler for static
//! files. Sockets, threads and files are left to the program around it.

pub mod http;
pub mod server;
pub mod thread_pool;
pub mod website_handler;
