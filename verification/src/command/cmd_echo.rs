use vstd::prelude::*;
use crate::resp::{Resp, RespV};
use crate::db::{MemoryDb, wrote};
use crate::command::common::{args_view, lemma_args_view};

verus! {

/// `ECHO`: answers its first argument, or an empty simple string where there is none.
pub struct CommandEcho {}

impl CommandEcho {
    pub fn execute(&self, db: &mut MemoryDb, args: &[Resp]) -> (r: Resp)
        ensures
            r@ == (if args@.len() > 0 { args_view(args)[0] } else { RespV::Simple(""@) }),
            final(db)@ == old(db)@,
            wrote(*old(db), *final(db), None),
    {
        proof {
            lemma_args_view(args);
        }
        if args.len() > 0 {
            args[0].clone()
        } else {
            Resp::Simple("".to_owned())
        }
    }
}

} // verus!
