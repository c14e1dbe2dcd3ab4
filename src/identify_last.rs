//! Walking a sequence while knowing which item is the last.
use vstd::prelude::*;

verus! {

/// Yields each remaining item together with whether it is the last one.
pub struct Iter<T> {
    /// The remaining items, last first.
    pending: Vec<T>,
}

impl<T> View for Iter<T> {
    type V = Seq<T>;

    /// The remaining items, in order.
    closed spec fn view(&self) -> Seq<T> {
        self.pending@.reverse()
    }
}

impl<T> Iter<T> {
    /// The next item, flagged `true` when no item follows it.
    pub fn next(&mut self) -> (r: Option<(bool, T)>)
        ensures
            old(self)@.len() == 0 ==> r is None && final(self)@ == old(self)@,
            old(self)@.len() > 0 ==> r == Some((old(self)@.len() == 1, old(self)@[0]))
                && final(self)@ == old(self)@.drop_first(),
    {
        let r = self.pending.pop();
        match r {
            None => None,
            Some(e) => {
                let last = self.pending.len() == 0;
                proof {
                    assert(self@ =~= old(self)@.drop_first());
                }
                Some((last, e))
            },
        }
    }
}

/// Turns a sequence into an [`Iter`].
pub trait IdentifyLast<T>: Sized {
    spec fn items(&self) -> Seq<T>;

    fn identify_last(self) -> (r: Iter<T>)
        ensures
            r@ == self.items(),
    ;
}

impl<T> IdentifyLast<T> for Vec<T> {
    open spec fn items(&self) -> Seq<T> {
        self@
    }

    fn identify_last(self) -> (r: Iter<T>) {
        let mut items = self;
        let mut pending: Vec<T> = Vec::new();
        proof {
            assert(items@ + pending@.reverse() =~= self@);
        }
        while items.len() > 0
            invariant
                items@ + pending@.reverse() == self@,
            decreases items@.len(),
        {
            let ghost before = pending@.reverse();
            let ghost rest = items@;
            let e = items.pop().unwrap();
            pending.push(e);
            proof {
                assert(pending@.reverse() =~= seq![e] + before);
                assert(rest =~= items@ + seq![e]);
                assert(items@ + pending@.reverse() =~= rest + before);
            }
        }
        proof {
            assert(items@ + pending@.reverse() =~= pending@.reverse());
        }
        Iter { pending }
    }
}

} // verus!
