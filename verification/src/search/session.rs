//! The search session: the handle that a consumer polls and cancels, and
//! the stop signal that it shares with the threads of the search.

use vstd::prelude::*;
use std::sync::atomic::{AtomicBool, Ordering};
use std::sync::mpsc::{Receiver, TryRecvError};
use std::sync::Arc;
use std::time::{Duration, Instant};
use crate::search::result::SearchResult;

verus! {

/// `std::sync::mpsc::Receiver`: the receiving end of the channel that
/// carries the results of a search.
#[verifier::external_type_specification]
#[verifier::external_body]
#[verifier::reject_recursive_types(T)]
pub struct ExReceiver<T>(Receiver<T>);

/// `std::sync::mpsc::TryRecvError`: why a poll of the channel handed out
/// no result.
#[verifier::external_type_specification]
pub struct ExTryRecvError(TryRecvError);

/// `std::time::Instant`: a point in time.
#[verifier::external_type_specification]
#[verifier::external_body]
pub struct ExInstant(Instant);

/// `Instant::now`: the current point in time.
pub assume_specification[ Instant::now ]() -> Instant;

/// `Instant::elapsed`: the time that has passed since the instant.
pub assume_specification[ Instant::elapsed ](start: &Instant) -> Duration;

/// `Receiver::try_recv`: a result that is waiting in the channel, or the
/// reason why there is none; it never blocks.
pub assume_specification<T>[ Receiver::<T>::try_recv ](rx: &Receiver<T>) -> Result<
    T,
    TryRecvError,
>;

/// `Arc::clone`: another handle to the same flag.
#[verifier::external_body]
fn share_flag(flag: &Arc<AtomicBool>) -> (shared: Arc<AtomicBool>)
    ensures
        shared == *flag,
{
    Arc::clone(flag)
}

/// `AtomicBool::store` with relaxed ordering: writes the flag. It cannot
/// fail.
#[verifier::external_body]
fn store_flag(flag: &Arc<AtomicBool>, value: bool)
    opens_invariants none
    no_unwind
{
    flag.store(value, Ordering::Relaxed)
}

/// The stop signal of one search, shared by the consumer and every worker
/// thread.
pub struct CancelToken {
    flag: Arc<AtomicBool>,
}

impl CancelToken {
    /// A token that has not been cancelled.
    pub fn new() -> Self {
        CancelToken { flag: Arc::new(AtomicBool::new(false)) }
    }

    /// Asks every holder of the token to stop. Does not block.
    pub fn cancel(&self)
        opens_invariants none
        no_unwind
    {
        store_flag(&self.flag, true);
    }

    /// Whether a holder of the token asked to stop.
    pub fn is_cancelled(&self) -> bool {
        self.flag.load(Ordering::Relaxed)
    }

    /// Another handle to the same signal.
    pub fn share(&self) -> (shared: Self)
        ensures
            shared == *self,
    {
        CancelToken { flag: share_flag(&self.flag) }
    }
}

/// A search that runs in the background.
pub struct PendingSearch {
    rx: Receiver<SearchResult>,
    quit: CancelToken,
    start_time: Instant,
    finished_after: Option<Duration>,
}

impl PendingSearch {
    /// Whether the search has ended: the channel was found disconnected.
    pub closed spec fn is_finished(&self) -> bool {
        self.finished_after is Some
    }

    /// The duration of the search, fixed when it ended.
    pub closed spec fn final_duration(&self) -> Duration {
        self.finished_after->0
    }

    /// The stop signal of the search.
    pub closed spec fn stop_signal(&self) -> CancelToken {
        self.quit
    }

    /// The handle of a search that starts now and sends its results to `rx`.
    pub fn new(rx: Receiver<SearchResult>) -> (pending: Self)
        ensures
            !pending.is_finished(),
            pending.receiver() == rx,
    {
        PendingSearch {
            rx,
            quit: CancelToken::new(),
            start_time: Instant::now(),
            finished_after: None,
        }
    }

    /// The end of the channel that the results of the search come from.
    pub closed spec fn receiver(&self) -> Receiver<SearchResult> {
        self.rx
    }

    /// A handle to the stop signal of the search, for the threads that
    /// produce its results.
    pub fn token(&self) -> (token: CancelToken)
        ensures
            token == self.stop_signal(),
    {
        self.quit.share()
    }

    /// Asks the search to stop. Does not block.
    pub fn signal_stop(&self)
        opens_invariants none
        no_unwind
    {
        self.quit.cancel();
    }

    /// The duration of the search at a moment when the clock shows that
    /// `since_start` has passed since the search started: that time while
    /// the search runs, and its final duration once it has ended.
    pub fn duration_at(&self, since_start: Duration) -> (duration: Duration)
        ensures
            duration == (if self.is_finished() {
                self.final_duration()
            } else {
                since_start
            }),
    {
        match self.finished_after {
            Some(duration) => duration,
            None => since_start,
        }
    }

    /// The time since the search started, or its final duration once it has
    /// ended.
    pub fn elapsed(&self) -> (duration: Duration)
        ensures
            self.is_finished() ==> duration == self.final_duration(),
    {
        self.duration_at(self.start_time.elapsed())
    }

    /// Takes in what a poll of the channel gave at a moment when the clock
    /// shows that `since_start` has passed since the search started. The
    /// answer is handed on as it came. The search ends when the channel is
    /// found disconnected, and `since_start` is then its final duration. A
    /// search that has ended stays as it is and answers that the channel is
    /// disconnected.
    pub fn settle(
        &mut self,
        polled: Result<SearchResult, TryRecvError>,
        since_start: Duration,
    ) -> (answer: Result<SearchResult, TryRecvError>)
        ensures
            answer == (if old(self).is_finished() {
                Err::<SearchResult, TryRecvError>(TryRecvError::Disconnected)
            } else {
                polled
            }),
            final(self).is_finished() <==> old(self).is_finished() || polled matches Err(
                TryRecvError::Disconnected,
            ),
            final(self).is_finished() ==> final(self).final_duration() == (if old(
                self,
            ).is_finished() {
                old(self).final_duration()
            } else {
                since_start
            }),
            old(self).is_finished() || !final(self).is_finished() ==> *final(self) == *old(self),
            final(self).stop_signal() == old(self).stop_signal(),
            final(self).receiver() == old(self).receiver(),
    {
        if self.finished_after.is_some() {
            return Err(TryRecvError::Disconnected);
        }
        match &polled {
            Err(TryRecvError::Disconnected) => {
                self.finished_after = Some(since_start);
            },
            _ => {},
        }
        polled
    }

    /// Takes one result if one is waiting; never blocks. The search has
    /// ended once this finds the channel disconnected: from then on the
    /// answer stays the same and the duration of the search is fixed.
    pub fn try_recv(&mut self) -> (polled: Result<SearchResult, TryRecvError>)
        ensures
            final(self).is_finished() <==> polled matches Err(TryRecvError::Disconnected),
            old(self).is_finished() || !final(self).is_finished() ==> *final(self) == *old(self),
            final(self).stop_signal() == old(self).stop_signal(),
            final(self).receiver() == old(self).receiver(),
    {
        if self.finished_after.is_some() {
            return Err(TryRecvError::Disconnected);
        }
        let polled = self.rx.try_recv();
        let since_start = self.start_time.elapsed();
        self.settle(polled, since_start)
    }
}

impl Drop for PendingSearch {
    /// A handle that goes away takes its search with it.
    fn drop(&mut self)
        opens_invariants none
        no_unwind
    {
        self.signal_stop();
    }
}

} // verus!
