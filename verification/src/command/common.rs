use vstd::prelude::*;
use crate::resp::{Resp, RespV, items_view, lemma_items_view, lemma_items_view_push};
use crate::db::strings_view;

verus! {

/// The models of the arguments of a command.
pub open spec fn args_view(args: &[Resp]) -> Seq<RespV> {
    items_view(args@)
}

/// Bulk strings holding the given texts, in order.
pub open spec fn bulk_strings(texts: Seq<Seq<char>>) -> Seq<RespV> {
    texts.map_values(|t: Seq<char>| RespV::BulkString(t))
}

/// An argument's model is the model of the argument.
pub proof fn lemma_args_view(args: &[Resp])
    ensures
        args_view(args).len() == args@.len(),
        forall|i: int| 0 <= i < args@.len() ==> #[trigger] args_view(args)[i] == args@[i]@,
{
    lemma_items_view(args@);
}

/// Bulk strings holding copies of `items[start..end]`.
pub fn bulk_array(items: &Vec<String>, start: usize, end: usize) -> (r: Vec<Resp>)
    requires
        start <= end <= items@.len(),
    ensures
        items_view(r@) == bulk_strings(strings_view(items@).subrange(start as int, end as int)),
{
    let mut out: Vec<Resp> = Vec::new();
    let mut i: usize = start;
    proof {
        lemma_items_view(out@);
    }
    while i < end
        invariant
            start <= i <= end <= items@.len(),
            items_view(out@) == bulk_strings(strings_view(items@).subrange(start as int, i as int)),
        decreases end - i,
    {
        let s = items[i].clone();
        let v = Resp::BulkString(s);
        proof {
            lemma_items_view_push(out@, v);
        }
        out.push(v);
        i = i + 1;
        assert(items_view(out@) =~= bulk_strings(strings_view(items@).subrange(start as int, i as int)));
    }
    out
}

} // verus!
