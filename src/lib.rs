//! Live TCP socket statistics: the kernel socket-diagnostic wire format,
//! per-socket rate history, display rows and the reverse-name cache.

pub mod text;
pub mod tcpdiag;
pub mod names;
pub mod table;
