//! The decisions around opening a multicast socket.
//!
//! The calls into the platform are made elsewhere. Here is what is done with
//! their results: which candidate address is tried next, when the search is
//! over, and what a platform call that returns a status number has said. The
//! numbers of the platform are the caller's to give.

use crate::net::SocketAddress;
use vstd::prelude::*;

verus! {

/// Whether a socket call that returned `res` has failed, on a platform whose
/// socket calls report a failure with `error_status`.
pub fn socket_call_failed(res: i32, error_status: i32) -> (r: bool)
    ensures
        r == (res == error_status),
{
    res == error_status
}

/// The bytes of an interface name that go into a request with room for
/// `room` bytes, the terminator included.
pub open spec fn name_len_in_request(len: usize, room: usize) -> usize {
    if room == 0 {
        0
    } else if len < room - 1 {
        len
    } else {
        (room - 1) as usize
    }
}

/// How many bytes of an interface name of `len` bytes go into a request with
/// room for `room` bytes: all of them, as far as room is left for the
/// terminator.
pub fn request_name_len(len: usize, room: usize) -> (r: usize)
    ensures
        r == name_len_in_request(len, room),
{
    if room == 0 {
        0
    } else if len < room - 1 {
        len
    } else {
        room - 1
    }
}

/// What to do after a query for the adapters.
#[derive(Clone, Copy, Debug, PartialEq, Eq)]
pub enum AdapterQuery {
    /// The buffer holds the adapters.
    Done,
    /// The buffer was too small: ask again with the size that the platform
    /// named.
    Retry,
    /// The query failed with this status.
    Failed(u32),
}

/// Reads the status of a query for the adapters, on a platform that reports
/// success with `success` and a buffer that was too small with `overflow`.
pub fn after_adapter_query(status: u32, success: u32, overflow: u32) -> (r: AdapterQuery)
    ensures
        r == (if status == success {
            AdapterQuery::Done
        } else if status == overflow {
            AdapterQuery::Retry
        } else {
            AdapterQuery::Failed(status)
        }),
{
    if status == success {
        AdapterQuery::Done
    } else if status == overflow {
        AdapterQuery::Retry
    } else {
        AdapterQuery::Failed(status)
    }
}

/// Whether an adapter is the one asked for: an adapter has an index for each
/// address family, and either may be the one.
pub fn adapter_matches(ipv6_index: u32, index: u32, wanted: u32) -> (r: bool)
    ensures
        r == (ipv6_index == wanted || index == wanted),
{
    ipv6_index == wanted || index == wanted
}

/// The address family of a socket.
#[derive(Clone, Copy, Debug, PartialEq, Eq)]
pub enum Domain {
    Ipv4,
    Ipv6,
}

/// The family of the socket that can bind to `addr`.
pub fn domain_for(addr: &SocketAddress) -> (r: Domain)
    ensures
        r == (if addr.ip is V6 {
            Domain::Ipv6
        } else {
            Domain::Ipv4
        }),
{
    if addr.ip.is_ipv6() {
        Domain::Ipv6
    } else {
        Domain::Ipv4
    }
}

/// Why no socket could be bound: every candidate address failed, the last
/// of them with this error; or there was no candidate.
#[derive(Debug, PartialEq, Eq)]
pub enum BindError<E> {
    NoViableAddress { last: Option<E> },
}

/// The position of the first attempt that succeeded, or the number of
/// attempts where none did.
pub open spec fn first_bound<E>(outcomes: Seq<Result<(), E>>) -> int
    decreases outcomes.len(),
{
    if outcomes.len() == 0 || outcomes.first() is Ok {
        0
    } else {
        1 + first_bound(outcomes.drop_first())
    }
}

/// The error of the last attempt that failed, if any did.
pub open spec fn last_failure<E>(outcomes: Seq<Result<(), E>>) -> Option<E>
    decreases outcomes.len(),
{
    if outcomes.len() == 0 {
        None
    } else {
        match outcomes.last() {
            Err(e) => Some(e),
            Ok(_) => last_failure(outcomes.drop_last()),
        }
    }
}

/// The result of trying the candidates in turn: the position of the first
/// one that could be bound, or the report that none could.
pub open spec fn bind_result<E>(outcomes: Seq<Result<(), E>>) -> Result<int, BindError<E>> {
    if first_bound(outcomes) < outcomes.len() {
        Ok(first_bound(outcomes))
    } else {
        Err(BindError::NoViableAddress { last: last_failure(outcomes) })
    }
}

/// The first attempt that succeeded lies within the attempts, none before
/// it succeeded, and it did.
pub proof fn lemma_first_bound<E>(outcomes: Seq<Result<(), E>>)
    ensures
        0 <= first_bound(outcomes) <= outcomes.len(),
        forall|i: int| 0 <= i < first_bound(outcomes) ==> (#[trigger] outcomes[i]) is Err,
        first_bound(outcomes) < outcomes.len() ==> outcomes[first_bound(outcomes)] is Ok,
    decreases outcomes.len(),
{
    if outcomes.len() == 0 || outcomes.first() is Ok {
    } else {
        let rest = outcomes.drop_first();
        lemma_first_bound(rest);
        assert forall|i: int| 0 <= i < first_bound(outcomes) implies (
        #[trigger] outcomes[i]) is Err by {
            if i > 0 {
                assert(outcomes[i] == rest[i - 1]);
            }
        }
        if first_bound(outcomes) < outcomes.len() {
            assert(outcomes[first_bound(outcomes)] == rest[first_bound(rest)]);
        }
    }
}

/// The search for a candidate address that a socket can be bound to.
#[derive(Debug)]
pub struct BindAttempts<E> {
    /// The error of the last candidate that failed.
    last_error: Option<E>,
    /// Whether a candidate could be bound.
    bound: bool,
}

/// What a `BindAttempts` holds.
pub struct BindAttemptsView<E> {
    pub last_error: Option<E>,
    pub bound: bool,
}

impl<E> BindAttemptsView<E> {
    /// The search after an attempt: a success ends it, a failure is kept as
    /// the last error and the next candidate has its turn. After a success
    /// nothing changes any more.
    pub open spec fn after(self, outcome: Result<(), E>) -> BindAttemptsView<E> {
        if self.bound {
            self
        } else {
            match outcome {
                Ok(_) => BindAttemptsView { bound: true, ..self },
                Err(e) => BindAttemptsView { last_error: Some(e), bound: false },
            }
        }
    }

    /// The search after the attempts of `outcomes`, one after the other.
    pub open spec fn after_all(self, outcomes: Seq<Result<(), E>>) -> BindAttemptsView<E>
        decreases outcomes.len(),
    {
        if outcomes.len() == 0 {
            self
        } else {
            self.after_all(outcomes.drop_last()).after(outcomes.last())
        }
    }
}

/// The search knows what trying the candidates in turn gives: it has bound a
/// socket exactly when some attempt succeeded, and where none succeeded it
/// gives up with the error of the last attempt.
pub proof fn lemma_search_follows_attempts<E>(outcomes: Seq<Result<(), E>>)
    ensures
        ({
            let start = BindAttemptsView::<E> { last_error: None, bound: false };
            let end = start.after_all(outcomes);
            &&& end.bound == (bind_result(outcomes) is Ok)
            &&& !end.bound ==> bind_result(outcomes) == Err::<int, BindError<E>>(
                BindError::NoViableAddress { last: end.last_error },
            )
        }),
    decreases outcomes.len(),
{
    if outcomes.len() > 0 {
        let rest = outcomes.drop_last();
        lemma_search_follows_attempts(rest);
        lemma_first_bound(rest);
        lemma_first_bound(outcomes);
        let k = first_bound(rest);
        if k < rest.len() {
            assert(outcomes[k] == rest[k]);
            assert forall|i: int| 0 <= i < k implies (#[trigger] outcomes[i]) is Err by {
                assert(outcomes[i] == rest[i]);
            }
            if first_bound(outcomes) < k {
                assert(rest[first_bound(outcomes)] == outcomes[first_bound(outcomes)]);
            }
        } else {
            assert forall|i: int| 0 <= i < rest.len() implies (#[trigger] outcomes[i]) is Err by {
                assert(outcomes[i] == rest[i]);
            }
            if first_bound(outcomes) < rest.len() {
                assert(outcomes[first_bound(outcomes)] is Err);
            }
        }
    }
}

impl<E> View for BindAttempts<E> {
    type V = BindAttemptsView<E>;

    closed spec fn view(&self) -> BindAttemptsView<E> {
        BindAttemptsView { last_error: self.last_error, bound: self.bound }
    }
}

impl<E> BindAttempts<E> {
    /// A search that has tried nothing yet.
    pub fn new() -> (r: BindAttempts<E>)
        ensures
            r@ == (BindAttemptsView::<E> { last_error: None, bound: false }),
    {
        BindAttempts { last_error: None, bound: false }
    }

    /// Takes in the outcome of an attempt and tells whether the search is
    /// over: the candidate could be bound.
    pub fn record(&mut self, outcome: Result<(), E>) -> (done: bool)
        ensures
            final(self)@ == old(self)@.after(outcome),
            done == final(self)@.bound,
    {
        if self.bound {
            return true;
        }
        match outcome {
            Ok(_) => {
                self.bound = true;
                true
            },
            Err(e) => {
                self.last_error = Some(e);
                false
            },
        }
    }

    /// The report of a search in which no candidate could be bound.
    pub fn give_up(self) -> (r: BindError<E>)
        ensures
            r == (BindError::NoViableAddress { last: self@.last_error }),
    {
        BindError::NoViableAddress { last: self.last_error }
    }
}

} // verus!
