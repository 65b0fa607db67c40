//! A small Redis-compatible server library: the RESP wire format, an in-memory database of
//! strings and lists, and the commands PING, ECHO, SET, GET, LPUSH, RPUSH, LLEN, LPOP, LRANGE
//! and BLPOP.
pub mod buffer;
pub mod clock;
pub mod command;
pub mod db;
pub mod frame_laws;
pub mod io_error;
pub mod parser;
pub mod resp;
pub mod resp_codec;
pub mod text;
pub mod utf8_text;
pub mod waiters;

pub use command::cmd_blpop::CommandBlpop;
pub use command::cmd_echo::CommandEcho;
pub use command::cmd_get_set::{CommandGet, CommandSet};
pub use command::cmd_llen::CommandLlen;
pub use command::cmd_lpop::CommandLpop;
pub use command::cmd_lpush::CommandLpush;
pub use command::cmd_lrange::CommandLrange;
pub use command::cmd_ping::CommandPing;
pub use command::cmd_rpush::CommandRpush;
pub use command::command::{CommandKind, CommandRegistry, Step, handle_command};
pub use db::{DbEntry, MemoryDb, RedisType};
pub use resp::Resp;
pub use resp_codec::{CodecError, RespCodec};
