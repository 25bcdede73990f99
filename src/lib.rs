//! Host-side orchestration for running server-side PHP scripts: the CGI
//! environment contract, the parsing of script output, the header and status
//! capture of the embedded runtime, the length-prefixed wire framing of the
//! persistent worker, and the admission rules of the worker pools.

pub mod text;
pub mod vars;
pub mod sapi;
pub mod env;
pub mod protocol;
pub mod pool;
pub mod config;
pub mod executor;
pub mod cgi;
pub mod paths;
pub mod router;
pub mod static_files;
pub mod cache;
pub mod worker;
pub mod orchestrator;
