//! Writing a batch to the key-value store, which may leave some requests
//! unprocessed: those are sent again after a doubling wait, at most five
//! times, and what is still unprocessed after the last wait is given up.
use vstd::prelude::*;
use vstd::arithmetic::power2::{lemma2_to64, pow2};

verus! {

/// How many times the unprocessed requests of a batch are sent again.
pub const MAX_BATCH_RETRIES: u32 = 5;

/// The wait before the retry numbered `n` (from one): 50 ms times 2^n.
pub open spec fn retry_wait(n: nat) -> nat {
    50 * pow2(n)
}

/// What a batch write does next.
#[derive(Debug)]
pub enum BatchAction<T, E> {
    /// Wait this many milliseconds, then send these requests.
    Send { wait_ms: u64, requests: Vec<T> },
    /// Wait this many milliseconds, then report success.
    Finish { wait_ms: u64 },
    /// Report this error.
    Fail(E),
}

/// The action is to wait `ms` and report success.
pub open spec fn finishes<T, E>(a: BatchAction<T, E>, ms: nat) -> bool {
    a matches BatchAction::Finish { wait_ms } && wait_ms == ms
}

/// The action is to wait `ms` and send `requests`.
pub open spec fn sends<T, E>(a: BatchAction<T, E>, ms: nat, requests: Seq<T>) -> bool {
    a matches BatchAction::Send { wait_ms, requests: q } && wait_ms == ms && q@ == requests
}

/// The action is to report `e`.
pub open spec fn fails_with<T, E>(a: BatchAction<T, E>, e: E) -> bool {
    a matches BatchAction::Fail(x) && x == e
}

/// A batch write in progress: how many times requests were sent again.
#[derive(Debug)]
pub struct BatchWrite {
    pub retries: u32,
}

fn wait_before(n: u32) -> (r: u64)
    requires
        1 <= n <= MAX_BATCH_RETRIES,
    ensures
        r == retry_wait(n as nat),
{
    proof {
        lemma2_to64();
    }
    if n == 1 {
        100
    } else if n == 2 {
        200
    } else if n == 3 {
        400
    } else if n == 4 {
        800
    } else {
        1600
    }
}

impl BatchWrite {
    /// Starts writing `requests`: an empty batch is done at once; any other
    /// is sent without waiting.
    pub fn start<T, E>(requests: Vec<T>) -> (r: (BatchWrite, BatchAction<T, E>))
        ensures
            r.0.retries == 0,
            requests@.len() == 0 ==> finishes(r.1, 0),
            requests@.len() > 0 ==> sends(r.1, 0, requests@),
    {
        if requests.len() == 0 {
            (BatchWrite { retries: 0 }, BatchAction::Finish { wait_ms: 0 })
        } else {
            (BatchWrite { retries: 0 }, BatchAction::Send { wait_ms: 0, requests })
        }
    }

    /// Takes the store's reply to the last send: an error, or the requests
    /// that it left unprocessed (`None` when it names none for the table).
    /// An error ends the write with that error; no unprocessed request ends
    /// it with success; otherwise the unprocessed requests are sent again
    /// after a wait that doubles with each retry, and after the fifth retry's
    /// wait the write ends with success whatever is left.
    pub fn on_reply<T, E>(&mut self, reply: Result<Option<Vec<T>>, E>) -> (r: BatchAction<T, E>)
        requires
            old(self).retries < MAX_BATCH_RETRIES,
        ensures
            match reply {
                Err(e) => final(self).retries == old(self).retries && fails_with(r, e),
                Ok(None) => final(self).retries == old(self).retries && finishes(r, 0),
                Ok(Some(left)) => if left@.len() == 0 {
                    final(self).retries == old(self).retries && finishes(r, 0)
                } else {
                    &&& final(self).retries == old(self).retries + 1
                    &&& final(self).retries < MAX_BATCH_RETRIES ==> sends(
                        r,
                        retry_wait(final(self).retries as nat),
                        left@,
                    )
                    &&& final(self).retries == MAX_BATCH_RETRIES ==> finishes(
                        r,
                        retry_wait(MAX_BATCH_RETRIES as nat),
                    )
                },
            },
            r is Send ==> final(self).retries < MAX_BATCH_RETRIES,
    {
        match reply {
            Err(e) => BatchAction::Fail(e),
            Ok(None) => BatchAction::Finish { wait_ms: 0 },
            Ok(Some(left)) => {
                if left.len() == 0 {
                    BatchAction::Finish { wait_ms: 0 }
                } else {
                    self.retries = self.retries + 1;
                    let wait_ms = wait_before(self.retries);
                    if self.retries < MAX_BATCH_RETRIES {
                        BatchAction::Send { wait_ms, requests: left }
                    } else {
                        BatchAction::Finish { wait_ms }
                    }
                }
            },
        }
    }
}

} // verus!
