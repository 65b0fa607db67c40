use vstd::prelude::*;

verus! {

/// A value of the Redis serialization protocol (RESP).
#[derive(Debug, PartialEq)]
pub enum Resp {
    Simple(String),
    BulkString(String),
    Error(String),
    Int(i64),
    Array(Vec<Resp>),
    NullArray,
    NullBulkString,
}

/// The mathematical model of a [`Resp`] value: text is a sequence of characters.
pub enum RespV {
    Simple(Seq<char>),
    BulkString(Seq<char>),
    Error(Seq<char>),
    Int(i64),
    Array(Seq<RespV>),
    NullArray,
    NullBulkString,
}

/// The model of a value.
pub open spec fn resp_view(r: Resp) -> RespV
    decreases r,
{
    match r {
        Resp::Simple(s) => RespV::Simple(s@),
        Resp::BulkString(s) => RespV::BulkString(s@),
        Resp::Error(s) => RespV::Error(s@),
        Resp::Int(i) => RespV::Int(i),
        Resp::Array(items) => RespV::Array(items_view(items@)),
        Resp::NullArray => RespV::NullArray,
        Resp::NullBulkString => RespV::NullBulkString,
    }
}

/// The models of a sequence of values.
pub open spec fn items_view(items: Seq<Resp>) -> Seq<RespV>
    decreases items,
{
    if items.len() == 0 {
        Seq::empty()
    } else {
        seq![resp_view(items[0])] + items_view(items.drop_first())
    }
}

/// The model of a sequence of values has one model per value, in order.
pub proof fn lemma_items_view(items: Seq<Resp>)
    ensures
        items_view(items).len() == items.len(),
        forall|i: int| 0 <= i < items.len() ==> #[trigger] items_view(items)[i] == resp_view(items[i]),
    decreases items.len(),
{
    if items.len() > 0 {
        lemma_items_view(items.drop_first());
        assert forall|i: int| 0 <= i < items.len() implies #[trigger] items_view(items)[i] == resp_view(items[i]) by {
            if i > 0 {
                assert(items.drop_first()[i - 1] == items[i]);
            }
        }
    }
}

/// Appending a value appends its model.
pub proof fn lemma_items_view_push(items: Seq<Resp>, r: Resp)
    ensures
        items_view(items.push(r)) == items_view(items).push(resp_view(r)),
{
    lemma_items_view(items);
    lemma_items_view(items.push(r));
    assert(items_view(items.push(r)) =~= items_view(items).push(resp_view(r)));
}

impl View for Resp {
    type V = RespV;

    open spec fn view(&self) -> RespV {
        resp_view(*self)
    }
}

impl Clone for Resp {
    fn clone(&self) -> (r: Resp)
        ensures
            r@ == self@,
        decreases self,
    {
        match self {
            Resp::Simple(s) => Resp::Simple(s.clone()),
            Resp::BulkString(s) => Resp::BulkString(s.clone()),
            Resp::Error(s) => Resp::Error(s.clone()),
            Resp::Int(i) => Resp::Int(*i),
            Resp::Array(items) => {
                let mut out: Vec<Resp> = Vec::new();
                let mut i: usize = 0;
                proof {
                    lemma_items_view(items@);
                }
                while i < items.len()
                    invariant
                        i <= items.len(),
                        *self == Resp::Array(*items),
                        items_view(out@) == items_view(items@).take(i as int),
                        items_view(items@).len() == items@.len(),
                        forall|j: int| 0 <= j < items@.len() ==> #[trigger] items_view(items@)[j] == resp_view(items@[j]),
                    decreases items.len() - i,
                {
                    proof {
                        assert(decreases_to!(*self => (*self)->Array_0));
                        assert(decreases_to!(*self => items@[i as int]));
                    }
                    let c = items[i].clone();
                    proof {
                        lemma_items_view_push(out@, c);
                        assert(items_view(items@).take(i + 1) =~= items_view(items@).take(i as int).push(resp_view(items@[i as int])));
                    }
                    out.push(c);
                    i = i + 1;
                }
                proof {
                    assert(items_view(items@).take(items@.len() as int) =~= items_view(items@));
                }
                Resp::Array(out)
            },
            Resp::NullArray => Resp::NullArray,
            Resp::NullBulkString => Resp::NullBulkString,
        }
    }
}

} // verus!
