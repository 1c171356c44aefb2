//! Operations: what each asks of the kernel, and what it makes of the answers.

pub mod accept;
pub mod accept_unix;
pub mod connect;
pub mod fsync;
pub mod io_util;
pub mod recvfrom;
pub mod sockaddr;
pub mod waitpid;
pub mod writeat;
