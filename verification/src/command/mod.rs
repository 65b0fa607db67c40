pub mod cmd_blpop;
pub mod cmd_echo;
pub mod cmd_get_set;
pub mod cmd_llen;
pub mod cmd_lpop;
pub mod cmd_lpush;
pub mod cmd_lrange;
pub mod cmd_ping;
pub mod cmd_rpush;
pub mod command;
pub mod common;
pub mod laws;
pub mod name_laws;
pub mod reply_laws;
