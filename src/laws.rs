use vstd::prelude::*;
use crate::signal::Sample;
use crate::ring::{charge_count, charged, delivered, read_count, read_rest};

verus! {

/// Charging `s` into an empty buffer that has room for all of it stores every
/// sample, and reading into an empty destination then gives back exactly
/// `s`, in order, and leaves the buffer empty.
pub proof fn lemma_round_trip(cap: nat, s: Seq<Sample>)
    requires
        s.len() <= cap,
    ensures
        charge_count(Seq::empty(), cap, s, 0) == s.len(),
        read_count(charged(Seq::empty(), cap, s, 0), 0) == s.len(),
        delivered(Seq::empty(), charged(Seq::empty(), cap, s, 0)) == s,
        read_rest(charged(Seq::empty(), cap, s, 0), 0) == Seq::<Sample>::empty(),
{
    let c = charged(Seq::empty(), cap, s, 0);
    assert(c =~= s);
    assert(read_rest(c, 0) =~= Seq::<Sample>::empty());
}

/// A full buffer takes no sample, whatever is charged, and stays as it was;
/// any read of it frees at least one slot, after which a charge stores at
/// least one sample.
pub proof fn lemma_backpressure(contents: Seq<Sample>, cap: nat, s: Seq<Sample>, from: nat, room: nat)
    requires
        cap > 0,
        contents.len() == cap,
        from < s.len(),
    ensures
        charge_count(contents, cap, s, from) == 0,
        charged(contents, cap, s, from) == contents,
        read_count(contents, room) >= 1,
        read_rest(contents, room).len() < cap,
        charge_count(read_rest(contents, room), cap, s, from) >= 1,
{
    assert(charged(contents, cap, s, from) =~= contents);
}

/// An empty buffer hands over no sample and leaves the destination as it
/// was; once a charge has stored a sample, a read hands over at least one.
pub proof fn lemma_no_starvation(cap: nat, dest: Seq<Sample>, s: Seq<Sample>, from: nat)
    requires
        cap > 0,
        from < s.len(),
    ensures
        read_count(Seq::empty(), dest.len()) == 0,
        read_rest(Seq::empty(), dest.len()) == Seq::<Sample>::empty(),
        delivered(dest, Seq::empty()) == dest,
        charge_count(Seq::empty(), cap, s, from) >= 1,
        read_count(charged(Seq::empty(), cap, s, from), dest.len()) >= 1,
{
    assert(read_rest(Seq::<Sample>::empty(), dest.len()) =~= Seq::<Sample>::empty());
    assert(delivered(dest, Seq::empty()) =~= dest);
}

/// What a reader collects when each sample of `xs` in turn is charged alone
/// into a buffer holding `contents` and a read into an empty destination
/// follows it.
pub open spec fn alternate_out(contents: Seq<Sample>, cap: nat, xs: Seq<Sample>) -> Seq<Sample>
    decreases xs.len(),
{
    if xs.len() == 0 {
        Seq::empty()
    } else {
        let c = charged(contents, cap, seq![xs[0]], 0);
        delivered(Seq::empty(), c) + alternate_out(read_rest(c, 0), cap, xs.drop_first())
    }
}

/// Alternating single-sample charges and reads delivers every charged
/// sample first in first out; samples already buffered come out ahead of
/// them, with the first read.
pub proof fn lemma_fifo_alternating(contents: Seq<Sample>, cap: nat, xs: Seq<Sample>)
    requires
        contents.len() < cap,
    ensures
        xs.len() > 0 ==> alternate_out(contents, cap, xs) == contents + xs,
        alternate_out(Seq::empty(), cap, xs) == xs,
    decreases xs.len(),
{
    if xs.len() > 0 {
        let c = charged(contents, cap, seq![xs[0]], 0);
        assert(c =~= contents.push(xs[0]));
        assert(read_rest(c, 0) =~= Seq::<Sample>::empty());
        lemma_fifo_alternating(Seq::empty(), cap, xs.drop_first());
        assert(Seq::<Sample>::empty() + xs.drop_first() =~= xs.drop_first());
        assert(contents.push(xs[0]) + xs.drop_first() =~= contents + xs);
        let e = charged(Seq::empty(), cap, seq![xs[0]], 0);
        assert(e =~= seq![xs[0]]);
        assert(read_rest(e, 0) =~= Seq::<Sample>::empty());
        assert(seq![xs[0]] + xs.drop_first() =~= xs);
    } else {
        assert(alternate_out(Seq::empty(), cap, xs) =~= xs);
    }
}

} // verus!
