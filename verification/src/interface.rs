//! The bus abstraction between the controller logic and the hardware.

use vstd::prelude::*;

verus! {

/// One request made to an [`Interface`]: the command byte, its argument
/// bytes, and what the interface answered.
pub type Exchange<E> = (u8, Seq<u8>, Result<(), E>);

/// Trait representing the interface to the hardware.
///
/// Intended to abstract the various buses (SPI, MPU 8/9/16-bit) from the
/// controller code. Implementations record, in `history`, every request made
/// to them together with its outcome; verified callers state what they send
/// in terms of that record.
pub trait Interface {
    type Error;

    /// Every `write` request made to this interface so far, oldest first,
    /// with the result that each one returned.
    ///
    /// A verified implementation defines it. The definition given here only
    /// lets implementations outside verified code leave it out: it never
    /// grows, so no implementation that keeps it can meet the contract of
    /// `write`, and code generic over the trait never sees it.
    closed spec fn history(&self) -> Seq<Exchange<Self::Error>> {
        Seq::empty()
    }

    /// Sends a command with a sequence of 8-bit arguments.
    ///
    /// Mostly used for sending configuration commands and flushing the
    /// framebuffer.
    fn write(&mut self, command: u8, data: &[u8]) -> (r: Result<(), Self::Error>)
        ensures
            final(self).history() == old(self).history().push((command, data@, r)),
    ;
}

/// The errors of the SPI front end: one from the bus, or one from a control
/// pin (chip select, data/command, reset).
#[derive(Debug)]
pub enum Error<IfaceE, PinE> {
    Interface(IfaceE),
    OutputPin(PinE),
}

impl<IfaceE, PinE> From<IfaceE> for Error<IfaceE, PinE> {
    fn from(e: IfaceE) -> (r: Self) {
        Error::Interface(e)
    }
}

impl<IfaceE, PinE> vstd::std_specs::convert::FromSpecImpl<IfaceE> for Error<IfaceE, PinE> {
    open spec fn obeys_from_spec() -> bool {
        true
    }

    open spec fn from_spec(e: IfaceE) -> Self {
        Error::Interface(e)
    }
}

/// A sequence of requests, given as (command, arguments), was issued in
/// order, stopping after the first one that failed: `issued` is what was
/// appended to the interface's history, and `r` is the outcome reported to
/// the caller (the last answer received, which is an error whenever not all
/// requests were issued).
pub open spec fn issued_until_failure<E>(
    issued: Seq<Exchange<E>>,
    requests: Seq<(u8, Seq<u8>)>,
    r: Result<(), E>,
) -> bool {
    &&& 0 < issued.len() <= requests.len()
    &&& forall|i: int|
        0 <= i < issued.len() ==> (#[trigger] issued[i]).0 == requests[i].0 && issued[i].1
            == requests[i].1
    &&& forall|i: int| 0 <= i < issued.len() - 1 ==> (#[trigger] issued[i]).2 is Ok
    &&& r == issued.last().2
    &&& issued.len() < requests.len() ==> r is Err
}

/// `after` is `before` followed by the requests, issued in order until the
/// first failure.
pub open spec fn sent_in_order<E>(
    before: Seq<Exchange<E>>,
    after: Seq<Exchange<E>>,
    requests: Seq<(u8, Seq<u8>)>,
    r: Result<(), E>,
) -> bool {
    &&& before.len() <= after.len()
    &&& after.subrange(0, before.len() as int) == before
    &&& issued_until_failure(after.subrange(before.len() as int, after.len() as int), requests, r)
}

/// When every request succeeds, the outcome is `Ok` and all of them were
/// issued; when the outcome is `Ok`, no request was left out.
pub proof fn lemma_ok_means_all_issued<E>(
    issued: Seq<Exchange<E>>,
    requests: Seq<(u8, Seq<u8>)>,
    r: Result<(), E>,
)
    requires
        issued_until_failure(issued, requests, r),
    ensures
        r is Ok <==> (issued.len() == requests.len() && forall|i: int|
            0 <= i < issued.len() ==> (#[trigger] issued[i]).2 is Ok),
{
    if r is Ok {
        assert forall|i: int| 0 <= i < issued.len() implies (#[trigger] issued[i]).2 is Ok by {
            if i < issued.len() - 1 {
            } else {
                assert(issued[i] == issued.last());
            }
        }
    }
    if issued.len() == requests.len() && forall|i: int|
        0 <= i < issued.len() ==> (#[trigger] issued[i]).2 is Ok {
        assert(issued[issued.len() - 1].2 is Ok);
    }
}

/// A single request issued on its own.
pub proof fn lemma_sent_one<E>(before: Seq<Exchange<E>>, command: u8, data: Seq<u8>, r: Result<(), E>)
    ensures
        sent_in_order(before, before.push((command, data, r)), seq![(command, data)], r),
{
    let after = before.push((command, data, r));
    assert(after.subrange(0, before.len() as int) =~= before);
    let issued = after.subrange(before.len() as int, after.len() as int);
    assert(issued =~= seq![(command, data, r)]);
}

/// Two runs of requests, the second made only when the first succeeded,
/// form one run of the concatenated requests.
pub proof fn lemma_sent_then<E>(
    h0: Seq<Exchange<E>>,
    h1: Seq<Exchange<E>>,
    h2: Seq<Exchange<E>>,
    reqs1: Seq<(u8, Seq<u8>)>,
    reqs2: Seq<(u8, Seq<u8>)>,
    r1: Result<(), E>,
    r2: Result<(), E>,
)
    requires
        sent_in_order(h0, h1, reqs1, r1),
        r1 is Err ==> h2 == h1 && r2 == r1,
        r1 is Ok ==> sent_in_order(h1, h2, reqs2, r2),
    ensures
        sent_in_order(h0, h2, reqs1 + reqs2, r2),
{
    let t01 = h1.subrange(h0.len() as int, h1.len() as int);
    let reqs = reqs1 + reqs2;
    lemma_ok_means_all_issued(t01, reqs1, r1);
    if r1 is Err {
        assert(h2 == h1);
        assert forall|i: int| 0 <= i < t01.len() implies (#[trigger] t01[i]).0 == reqs[i].0
            && t01[i].1 == reqs[i].1 by {
            assert(t01[i].0 == reqs1[i].0);
        }
    } else {
        let t12 = h2.subrange(h1.len() as int, h2.len() as int);
        let t02 = h2.subrange(h0.len() as int, h2.len() as int);
        assert(h2.subrange(0, h1.len() as int) == h1);
        assert(t02 =~= t01 + t12);
        assert(h2.subrange(0, h0.len() as int) =~= h0) by {
            assert(h2.subrange(0, h0.len() as int) =~= h1.subrange(0, h0.len() as int));
        }
        assert forall|i: int| 0 <= i < t02.len() implies (#[trigger] t02[i]).0 == reqs[i].0
            && t02[i].1 == reqs[i].1 by {
            if i < t01.len() {
                assert(t02[i] == t01[i]);
            } else {
                assert(t02[i] == t12[i - t01.len()]);
            }
        }
        assert forall|i: int| 0 <= i < t02.len() - 1 implies (#[trigger] t02[i]).2 is Ok by {
            if i < t01.len() {
                assert(t02[i] == t01[i]);
            } else {
                assert(t02[i] == t12[i - t01.len()]);
            }
        }
        assert(t02.last() == t12.last());
    }
}

} // verus!
