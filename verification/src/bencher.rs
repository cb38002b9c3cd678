//! The timer handed to a benchmark routine.
//!
//! A routine under test receives a [`Bencher`] and must call [`Bencher::iter`]
//! or [`Bencher::iter_custom`] exactly once per invocation; the engine
//! checks that it did. The bencher runs the requested number of
//! iterations, measures the local cycle-counter delta across the batch
//! with wraparound-safe subtraction, and — during warm-up — captures the
//! wall time of the whole call through the link. A fatal link condition
//! met on the way is held in the bencher and surfaces after the call.

use vstd::prelude::*;

use crate::error::LinkError;
use crate::link::{LinkIo, ProxyLink};
use crate::protocol::{
    lemma_instants_push, lemma_instants_refl, lemma_instants_trans, lemma_queries_push,
    lemma_queries_refl, lemma_queries_trans, spec_appends_only_instants,
    spec_appends_only_queries, UpstreamMessageView,
};
use crate::time::{Duration, Instant};

verus! {

/// The timer struct used to iterate a benchmark routine and measure it.
/// It owns the link for the duration of one measurement phase and hands
/// it back through [`Bencher::into_link`].
pub struct Bencher<Io: LinkIo> {
    pub(crate) iterated: bool,
    pub(crate) iters: u64,
    pub(crate) value: u64,
    pub(crate) elapsed_time: Duration,
    pub(crate) wants_elapsed_time: bool,
    pub(crate) error: Option<LinkError>,
    pub(crate) link: ProxyLink<Io>,
}

/// The observable state of a [`Bencher`], apart from the link it holds.
pub struct BencherView {
    pub iterated: bool,
    pub iters: u64,
    pub value: u64,
    pub elapsed_time: Duration,
    pub wants_elapsed_time: bool,
    pub error: Option<LinkError>,
}

impl<Io: LinkIo> View for Bencher<Io> {
    type V = BencherView;

    closed spec fn view(&self) -> BencherView {
        BencherView {
            iterated: self.iterated,
            iters: self.iters,
            value: self.value,
            elapsed_time: self.elapsed_time,
            wants_elapsed_time: self.wants_elapsed_time,
            error: self.error,
        }
    }
}

impl<Io: LinkIo> Bencher<Io> {
    /// The frame capacity of the held link.
    pub closed spec fn spec_capacity(&self) -> int {
        self.link.spec_capacity()
    }

    /// The held link's emission log.
    pub closed spec fn spec_sent(&self) -> Seq<UpstreamMessageView> {
        self.link.spec_sent()
    }

    /// The held link's reception log.
    pub closed spec fn spec_received(&self) -> Seq<crate::protocol::DownstreamMessage> {
        self.link.spec_received()
    }

    /// A timer for the next routine invocations, running `iters`
    /// iterations per call.
    pub fn new(link: ProxyLink<Io>, iters: u64, wants_elapsed_time: bool) -> (r: Self)
        ensures
            r.spec_capacity() == link.spec_capacity(),
            r.spec_sent() == link.spec_sent(),
            r.spec_received() == link.spec_received(),
            r@ == (BencherView {
                iterated: false,
                iters,
                value: 0,
                elapsed_time: Duration(0),
                wants_elapsed_time,
                error: None,
            }),
    {
        Bencher {
            iterated: false,
            iters,
            value: 0,
            elapsed_time: Duration(0),
            wants_elapsed_time,
            error: None,
            link,
        }
    }

    /// The value measured by the last iteration batch.
    pub fn value(&self) -> (r: u64)
        ensures
            r == self@.value,
    {
        self.value
    }

    /// The wall time of the last call, where it was captured.
    pub fn elapsed(&self) -> (r: Duration)
        ensures
            r == self@.elapsed_time,
    {
        self.elapsed_time
    }

    /// Sets the iteration count for the next call.
    pub fn set_iters(&mut self, iters: u64)
        ensures
            final(self)@ == (BencherView { iters, ..old(self)@ }),
            final(self).spec_capacity() == old(self).spec_capacity(),
            final(self).spec_sent() == old(self).spec_sent(),
            final(self).spec_received() == old(self).spec_received(),
    {
        self.iters = iters;
    }

    /// Hands the link back when the measurement phase is over.
    pub fn into_link(self) -> (r: ProxyLink<Io>)
        ensures
            r.spec_capacity() == self.spec_capacity(),
            r.spec_sent() == self.spec_sent(),
            r.spec_received() == self.spec_received(),
    {
        let Bencher { link, .. } = self;
        link
    }

    /// Times `routine` by running it `iters` times and measuring the
    /// cycle-counter delta around the whole batch; during warm-up it also
    /// captures the wall time of the call. The link carries nothing but
    /// the timing queries this needs.
    pub fn iter<O, R: Fn() -> O>(&mut self, routine: R)
        requires
            call_requires(routine, ()),
        ensures
            final(self).spec_capacity() == old(self).spec_capacity(),
            final(self)@.iterated,
            final(self)@.iters == old(self)@.iters,
            final(self)@.wants_elapsed_time == old(self)@.wants_elapsed_time,
            old(self)@.error is Some ==> final(self)@.error == old(self)@.error
                && final(self).spec_sent() == old(self).spec_sent() && final(self).spec_received()
                == old(self).spec_received() && final(self)@.elapsed_time
                == old(self)@.elapsed_time,
            !old(self)@.wants_elapsed_time ==> final(self)@.elapsed_time
                == old(self)@.elapsed_time && final(self).spec_sent() == old(self).spec_sent()
                && final(self).spec_received() == old(self).spec_received(),
            spec_appends_only_queries(old(self).spec_sent(), final(self).spec_sent()),
            crate::utils::spec_prefix_of(old(self).spec_received(), final(self).spec_received()),
            final(self)@.error is None ==> spec_appends_only_instants(
                old(self).spec_received(),
                final(self).spec_received(),
            ),
            match final(self)@.error {
                Some(e) => old(self)@.error is Some || (e != LinkError::DidNotIterate && e
                    != LinkError::IterationCountOverflow && e != LinkError::BadHandshake),
                None => true,
            },
    {
        proof {
            lemma_queries_refl(self.spec_sent());
            lemma_instants_refl(self.spec_received());
            crate::utils::lemma_prefix_refl(self.spec_received());
        }
        self.iterated = true;
        if self.error.is_some() {
            return ;
        }
        let ghost s0 = self.spec_sent();
        let ghost r0 = self.spec_received();
        let time_start: Option<Instant> = if self.wants_elapsed_time {
            match self.link.get_instant() {
                Ok(t) => {
                    proof {
                        lemma_queries_push(s0);
                        lemma_instants_push(r0, t);
                    }
                    Some(t)
                },
                Err(e) => {
                    self.error = Some(e);
                    proof {
                        if e != LinkError::SendPacketTooLarge {
                            lemma_queries_push(s0);
                        }
                        if e == LinkError::UnexpectedMessage {
                            crate::utils::lemma_prefix_push(r0, self.spec_received().last());
                        }
                    }
                    return ;
                },
            }
        } else {
            None
        };
        let start = self.link.io().counter();
        let mut i: u64 = 0;
        while i < self.iters
            invariant
                call_requires(routine, ()),
            decreases self.iters - i,
        {
            routine();
            i = i + 1;
        }
        let end = self.link.io().counter();
        self.value = end.wrapping_sub(start);
        if let Some(ts) = time_start {
            let ghost s1 = self.spec_sent();
            let ghost r1 = self.spec_received();
            match self.link.get_instant() {
                Ok(now) => {
                    proof {
                        lemma_queries_push(s1);
                        lemma_queries_trans(s0, s1, self.spec_sent());
                        lemma_instants_push(r1, now);
                        lemma_instants_trans(r0, r1, self.spec_received());
                    }
                    match now.checked_duration_since(ts) {
                        Some(d) => {
                            self.elapsed_time = d;
                        },
                        None => {
                            self.error = Some(LinkError::NonMonotonicInstant);
                        },
                    }
                },
                Err(e) => {
                    self.error = Some(e);
                    proof {
                        if e != LinkError::SendPacketTooLarge {
                            lemma_queries_push(s1);
                            lemma_queries_trans(s0, s1, self.spec_sent());
                        }
                        if e == LinkError::UnexpectedMessage {
                            crate::utils::lemma_prefix_push(r1, self.spec_received().last());
                        }
                        crate::utils::lemma_prefix_trans(r0, r1, self.spec_received());
                    }
                },
            }
        }
    }

    /// Times `routine` by handing it the iteration count and letting it
    /// measure itself; the returned value is recorded as the sample, and
    /// the link carries nothing but the two timing queries around it.
    pub fn iter_custom<R: Fn(u64) -> u64>(&mut self, routine: R)
        requires
            call_requires(routine, (old(self)@.iters,)),
        ensures
            final(self).spec_capacity() == old(self).spec_capacity(),
            final(self)@.iterated,
            final(self)@.iters == old(self)@.iters,
            final(self)@.wants_elapsed_time == old(self)@.wants_elapsed_time,
            old(self)@.error is Some ==> final(self)@.error == old(self)@.error
                && final(self).spec_sent() == old(self).spec_sent() && final(self).spec_received()
                == old(self).spec_received(),
            old(self)@.error is None && final(self)@.error is None ==> call_ensures(
                routine,
                (old(self)@.iters,),
                final(self)@.value,
            ),
            spec_appends_only_queries(old(self).spec_sent(), final(self).spec_sent()),
            crate::utils::spec_prefix_of(old(self).spec_received(), final(self).spec_received()),
            final(self)@.error is None ==> spec_appends_only_instants(
                old(self).spec_received(),
                final(self).spec_received(),
            ),
            match final(self)@.error {
                Some(e) => old(self)@.error is Some || (e != LinkError::DidNotIterate && e
                    != LinkError::IterationCountOverflow && e != LinkError::BadHandshake),
                None => true,
            },
    {
        proof {
            lemma_queries_refl(self.spec_sent());
            lemma_instants_refl(self.spec_received());
            crate::utils::lemma_prefix_refl(self.spec_received());
        }
        self.iterated = true;
        if self.error.is_some() {
            return ;
        }
        let ghost s0 = self.spec_sent();
        let ghost r0 = self.spec_received();
        let time_start = match self.link.get_instant() {
            Ok(t) => {
                proof {
                    lemma_queries_push(s0);
                    lemma_instants_push(r0, t);
                }
                t
            },
            Err(e) => {
                self.error = Some(e);
                proof {
                    if e != LinkError::SendPacketTooLarge {
                        lemma_queries_push(s0);
                    }
                }
                return ;
            },
        };
        self.value = routine(self.iters);
        let ghost s1 = self.spec_sent();
        let ghost r1 = self.spec_received();
        match self.link.get_instant() {
            Ok(now) => {
                proof {
                    lemma_queries_push(s1);
                    lemma_queries_trans(s0, s1, self.spec_sent());
                    lemma_instants_push(r1, now);
                    lemma_instants_trans(r0, r1, self.spec_received());
                }
                match now.checked_duration_since(time_start) {
                    Some(d) => {
                        self.elapsed_time = d;
                    },
                    None => {
                        self.error = Some(LinkError::NonMonotonicInstant);
                    },
                }
            },
            Err(e) => {
                self.error = Some(e);
                proof {
                    if e != LinkError::SendPacketTooLarge {
                        lemma_queries_push(s1);
                        lemma_queries_trans(s0, s1, self.spec_sent());
                    }
                }
            },
        }
        proof {
            crate::utils::lemma_prefix_trans(r0, r1, self.spec_received());
        }
    }

    /// Whether the routine reported an iteration; resets the flag for the
    /// next invocation. A routine that never iterated is a fatal
    /// authoring error, which the engine raises on a `false` answer.
    pub fn assert_iterated(&mut self) -> (r: bool)
        ensures
            r == old(self)@.iterated,
            final(self)@ == (BencherView { iterated: false, ..old(self)@ }),
            final(self).spec_capacity() == old(self).spec_capacity(),
            final(self).spec_sent() == old(self).spec_sent(),
            final(self).spec_received() == old(self).spec_received(),
    {
        let was = self.iterated;
        self.iterated = false;
        was
    }

    /// The fatal condition met during the last call, if any.
    pub fn take_error(&mut self) -> (r: Option<LinkError>)
        ensures
            r == old(self)@.error,
            final(self)@ == (BencherView { error: None, ..old(self)@ }),
            final(self).spec_capacity() == old(self).spec_capacity(),
            final(self).spec_sent() == old(self).spec_sent(),
            final(self).spec_received() == old(self).spec_received(),
    {
        let e = self.error;
        self.error = None;
        e
    }
}

} // verus!
