use vstd::prelude::*;
use crate::resp::{Resp, RespV};
use crate::db::{MemoryDb, wrote};

verus! {

/// `PING`: answers `PONG`.
pub struct CommandPing {}

impl CommandPing {
    pub fn execute(&self, db: &mut MemoryDb, args: &[Resp]) -> (r: Resp)
        ensures
            r@ == RespV::Simple("PONG"@),
            final(db)@ == old(db)@,
            wrote(*old(db), *final(db), None),
    {
        Resp::Simple("PONG".to_owned())
    }
}

} // verus!
