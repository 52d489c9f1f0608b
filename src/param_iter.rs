use vstd::prelude::*;

verus! {

/// `callback` may be called on every state: its precondition, if it has
/// one, holds whatever the state is.
pub open spec fn accepts_all_states<F, D, R>(callback: F) -> bool where
    F: FnMut(&mut D) -> Option<R>,
 {
    forall|m: &mut D| #[trigger] call_requires(callback, (m,))
}

/// An iterator whose items come from a callback, which gets mutable access to
/// a piece of state on every pull.
///
/// It holds the state and the callback and nothing else. Only a pull touches
/// the state, and only through the reference it hands to the callback.
pub struct ParamFromFnIter<F, D> {
    callback: F,
    data: D,
}

impl<F, D> ParamFromFnIter<F, D> {
    /// The callback that each pull calls.
    pub closed spec fn callback(&self) -> F {
        self.callback
    }

    /// The state that the callback receives.
    pub closed spec fn data(&self) -> D {
        self.data
    }

    /// The iterator that `new(data, callback)` creates.
    pub closed spec fn spec_new(data: D, callback: F) -> Self {
        ParamFromFnIter { callback, data }
    }
}

impl<F, D, R> ParamFromFnIter<F, D> where F: FnMut(&mut D) -> Option<R> {
    /// Creates an iterator that passes `data` to `callback` on each pull.
    ///
    /// Nothing is called here: the callback runs only when the iterator is
    /// pulled.
    pub fn new(data: D, callback: F) -> (r: Self)
        ensures
            r == Self::spec_new(data, callback),
            r.data() == data,
            r.callback() == callback,
    {
        ParamFromFnIter { callback, data }
    }

    /// Pulls the next item: calls the callback exactly once with a mutable
    /// reference to the state and returns its result unchanged.
    ///
    /// `None` is the callback's own end signal. Pulling again after it calls
    /// the callback again: the iterator is not guaranteed to stay exhausted.
    pub fn next(&mut self) -> (r: Option<R>)
        requires
            accepts_all_states(old(self).callback()),
        ensures
            final(self).callback() == old(self).callback(),
            exists|m: &mut D|
                mut_ref_current(m) == old(self).data() && mut_ref_future(m) == final(self).data()
                    && call_ensures(old(self).callback(), (m,), r),
    {
        let callback = &mut self.callback;
        let data = &mut self.data;
        proof {
            assert(call_requires(old(self).callback, (data,)));
        }
        callback(data)
    }

    /// Pulls `n` times in a row and appends the `n` results to `outs` in
    /// order, end signals included: each pull is one call of the callback,
    /// none is skipped, merged or repeated.
    ///
    /// `states[i]` is the state before the i-th call and `refs[i]` the
    /// reference that the call received.
    pub fn next_n(&mut self, outs: &mut Vec<Option<R>>, n: usize)
        requires
            accepts_all_states(old(self).callback()),
        ensures
            final(self).callback() == old(self).callback(),
            final(outs)@.len() == old(outs)@.len() + n,
            final(outs)@.subrange(0, old(outs)@.len() as int) == old(outs)@,
            exists|states: Seq<D>, refs: Seq<&mut D>|
                #![trigger states.len(), refs.len()]
                {
                    &&& states.len() == n + 1
                    &&& refs.len() == n
                    &&& states[0] == old(self).data()
                    &&& states[n as int] == final(self).data()
                    &&& forall|i: int|
                        0 <= i < n ==> {
                            &&& mut_ref_current(#[trigger] refs[i]) == states[i]
                            &&& mut_ref_future(refs[i]) == states[i + 1]
                            &&& call_ensures(
                                old(self).callback(),
                                (refs[i],),
                                final(outs)@[old(outs)@.len() + i],
                            )
                        }
                },
        decreases n,
    {
        if n == 0 {
            proof {
                let states = seq![self.data()];
                let refs = Seq::<&mut D>::empty();
                assert(outs@.subrange(0, old(outs)@.len() as int) =~= old(outs)@);
                assert(states.len() == n + 1 && refs.len() == n);
                assert(states[n as int] == self.data());
            }
        } else {
            let ghost d0 = self.data();
            let ghost len0 = outs@.len();
            let item = self.next();
            let ghost d1 = self.data();
            let ghost pulled = item;
            outs.push(item);
            let ghost mid = outs@;
            let k: usize = n - 1;
            self.next_n(outs, k);
            proof {
                let m0 = choose|m: &mut D|
                    mut_ref_current(m) == d0 && mut_ref_future(m) == d1 && call_ensures(
                        old(self).callback(),
                        (m,),
                        pulled,
                    );
                let (st, rf) = choose|st: Seq<D>, rf: Seq<&mut D>|
                    {
                        &&& st.len() == k + 1
                        &&& rf.len() == k
                        &&& st[0] == d1
                        &&& st[k as int] == self.data()
                        &&& forall|i: int|
                            0 <= i < k ==> {
                                &&& mut_ref_current(#[trigger] rf[i]) == st[i]
                                &&& mut_ref_future(rf[i]) == st[i + 1]
                                &&& call_ensures(old(self).callback(), (rf[i],), outs@[mid.len() + i])
                            }
                    };
                let states = seq![d0] + st;
                let refs = seq![m0] + rf;
                assert(outs@[len0 as int] == pulled) by {
                    assert(outs@.subrange(0, mid.len() as int) == mid);
                    assert(outs@.subrange(0, mid.len() as int)[len0 as int] == outs@[len0 as int]);
                }
                assert forall|i: int| 0 <= i < n implies {
                    &&& mut_ref_current(#[trigger] refs[i]) == states[i]
                    &&& mut_ref_future(refs[i]) == states[i + 1]
                    &&& call_ensures(old(self).callback(), (refs[i],), outs@[old(outs)@.len() + i])
                } by {
                    if i > 0 {
                        assert(refs[i] == rf[i - 1]);
                        assert(outs@[old(outs)@.len() + i] == outs@[mid.len() + (i - 1)]);
                    }
                }
                assert(outs@.subrange(0, len0 as int) =~= old(outs)@) by {
                    assert(outs@.subrange(0, mid.len() as int) == mid);
                    assert forall|j: int| 0 <= j < len0 implies outs@[j] == old(outs)@[j] by {
                        assert(outs@.subrange(0, mid.len() as int)[j] == outs@[j]);
                        assert(mid[j] == old(outs)@[j]);
                    }
                }
                assert(states.len() == n + 1 && refs.len() == n);
            }
        }
    }
}

} // verus!
