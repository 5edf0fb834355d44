//! Bookkeeping for the prepend-on-first-write adapter: a writer wrapper
//! that injects a fixed byte prefix ahead of the first application data
//! and is transparent afterwards.  The I/O wrapper itself lives outside
//! this crate; what is here is the pure state transition it performs after
//! every write the inner writer accepts, with ghost history proving that
//! the inner writer observes exactly the prepend bytes followed by the
//! acknowledged application bytes — however the accepted counts are
//! chunked.

use vstd::prelude::*;

use crate::buffer_parser::read_bytes;

verus! {

broadcast use {vstd::slice::group_slice_axioms, vstd::std_specs::vec::axiom_spec_len};

/// What one write attempt reports to the caller.  `NotReady` means the
/// inner writer consumed only prepend bytes, so the caller made no
/// progress of its own; `Accepted` carries the number of caller bytes
/// consumed.
#[derive(Debug, PartialEq, Eq, Structural)]
pub enum WriteOutcome {
    NotReady,
    Accepted(usize),
}

/// The state of the prepend adapter: the prepend bytes not yet accepted by
/// the inner writer, plus ghost history — the bytes originally queued, the
/// bytes the inner writer has accepted so far, and the application bytes
/// acknowledged to the caller so far.
pub struct UnsendData {
    pending: Vec<u8>,
    orig: Ghost<Seq<u8>>,
    observed: Ghost<Seq<u8>>,
    acked: Ghost<Seq<u8>>,
}

impl UnsendData {
    /// The bytes queued at construction.
    pub closed spec fn spec_prepend(&self) -> Seq<u8> {
        self.orig@
    }

    /// The prepend bytes the inner writer has not accepted yet.
    pub closed spec fn spec_pending(&self) -> Seq<u8> {
        self.pending@
    }

    /// Every byte the inner writer has accepted, in order.
    pub closed spec fn spec_observed(&self) -> Seq<u8> {
        self.observed@
    }

    /// Every application byte acknowledged to the caller, in order.
    pub closed spec fn spec_acked(&self) -> Seq<u8> {
        self.acked@
    }

    /// The adapter's invariant: the inner writer's history plus the bytes
    /// still pending is the prepend followed by the acknowledged
    /// application bytes, and nothing is acknowledged while any prepend
    /// byte is still pending.
    pub closed spec fn wf(&self) -> bool {
        &&& self.observed@ + self.pending@ == self.orig@ + self.acked@
        &&& self.pending@.len() <= self.orig@.len()
        &&& self.pending@.len() > 0 ==> self.acked@ == Seq::<u8>::empty()
    }

    /// Queue `prepend` to run ahead of the first application write.
    pub fn new(prepend: Vec<u8>) -> (s: Self)
        ensures
            s.wf(),
            s.spec_prepend() == prepend@,
            s.spec_pending() == prepend@,
            s.spec_observed() == Seq::<u8>::empty(),
            s.spec_acked() == Seq::<u8>::empty(),
    {
        let ghost g: Seq<u8> = prepend@;
        UnsendData {
            pending: prepend,
            orig: Ghost(g),
            observed: Ghost(Seq::empty()),
            acked: Ghost(Seq::empty()),
        }
    }

    /// Whether any prepend byte is still waiting for the inner writer.
    pub fn has_pending(&self) -> (b: bool)
        ensures
            b == (self.spec_pending().len() > 0),
    {
        self.pending.len() > 0
    }

    /// The pending prepend bytes that must run ahead of `buf`: the view
    /// the inner writer is to be offered is these bytes followed by `buf`.
    pub fn pending_bytes(&self) -> (out: Vec<u8>)
        ensures
            out@ == self.spec_pending(),
    {
        let out = read_bytes(self.pending.as_slice(), 0, self.pending.len());
        proof {
            assert(out@ =~= self.pending@);
        }
        out
    }

    /// Account for the inner writer having accepted `accepted` bytes of
    /// the view `pending ++ buf`.  Prepend bytes drain first; the caller
    /// is told `NotReady` until every one of them is gone, and from then
    /// on exactly how many of its own bytes were consumed.
    pub fn write_step(&mut self, buf: &[u8], accepted: usize) -> (r: WriteOutcome)
        requires
            old(self).wf(),
            accepted as int <= old(self).spec_pending().len() + buf@.len(),
        ensures
            final(self).wf(),
            final(self).spec_prepend() == old(self).spec_prepend(),
            final(self).spec_observed() == old(self).spec_observed() + (old(self).spec_pending()
                + buf@).take(accepted as int),
            accepted < old(self).spec_pending().len() ==> {
                &&& r is NotReady
                &&& final(self).spec_pending() == old(self).spec_pending().skip(accepted as int)
                &&& final(self).spec_acked() == old(self).spec_acked()
            },
            accepted >= old(self).spec_pending().len() ==> {
                &&& (r matches WriteOutcome::Accepted(k) && k as int == accepted - old(
                    self,
                ).spec_pending().len())
                &&& final(self).spec_pending() == Seq::<u8>::empty()
                &&& final(self).spec_acked() == old(self).spec_acked() + buf@.take(
                    accepted - old(self).spec_pending().len(),
                )
            },
    {
        let plen: usize = self.pending.len();
        if accepted < plen {
            let rest = read_bytes(self.pending.as_slice(), accepted, plen - accepted);
            proof {
                assert(rest@ =~= self.pending@.skip(accepted as int));
            }
            self.pending = rest;
            proof {
                self.observed@ = self.observed@ + old(self).pending@.take(accepted as int);
                assert((old(self).pending@ + buf@).take(accepted as int) =~= old(
                    self,
                ).pending@.take(accepted as int));
                assert(self.observed@ + self.pending@ =~= old(self).observed@ + old(
                    self,
                ).pending@);
            }
            WriteOutcome::NotReady
        } else {
            let k: usize = accepted - plen;
            self.pending = Vec::new();
            proof {
                self.observed@ = self.observed@ + old(self).pending@ + buf@.take(k as int);
                self.acked@ = self.acked@ + buf@.take(k as int);
                assert((old(self).pending@ + buf@).take(accepted as int) =~= old(self).pending@
                    + buf@.take(k as int));
                assert(self.observed@ =~= old(self).observed@ + (old(self).pending@ + buf@).take(
                    accepted as int,
                ));
                assert(self.observed@ + self.pending@ =~= self.orig@ + self.acked@);
            }
            WriteOutcome::Accepted(k)
        }
    }
}

/// Once the prepend has drained, the inner writer has observed exactly the
/// prepend bytes followed by the acknowledged application bytes, as one
/// contiguous stream — whatever the chunking of the accepted counts was.
pub proof fn lemma_prepend_drained(s: &UnsendData)
    requires
        s.wf(),
        s.spec_pending().len() == 0,
    ensures
        s.spec_observed() == s.spec_prepend() + s.spec_acked(),
{
    assert(s.spec_observed() =~= s.spec_observed() + s.spec_pending());
}

/// While any prepend byte is still pending, the inner writer has observed
/// a prefix of the prepend bytes and nothing else.
pub proof fn lemma_prepend_draining(s: &UnsendData)
    requires
        s.wf(),
        s.spec_pending().len() > 0,
    ensures
        s.spec_observed() == s.spec_prepend().take(
            s.spec_prepend().len() - s.spec_pending().len(),
        ),
{
    assert(s.spec_observed() + s.spec_pending() == s.spec_prepend() + s.spec_acked());
    assert(s.spec_observed() =~= s.spec_prepend().take(
        s.spec_prepend().len() - s.spec_pending().len(),
    ));
}

} // verus!
