//! Dispatching execution requests: look up the venue's channel, attempt a
//! non-blocking send, classify failures as recoverable (backpressure) or
//! unrecoverable (missing or terminated channel), and report per-request
//! results as values.

use vstd::prelude::*;
use crate::error::{EngineError, RecoverableEngineError, UnrecoverableEngineError};
use crate::execution_tx::{ExecutionRequest, ExecutionTxMap, SendOutcome};
use crate::order::{OrderRequestCancel, OrderRequestOpen};
use crate::types::ExchangeIndex;

verus! {

/// The outcome of dispatching a batch: the requests that were sent, and the
/// ones that failed, each with its error.
#[derive(Debug, Clone, PartialEq)]
pub struct SendRequestsOutput<Kind> {
    pub sent: Vec<Kind>,
    pub errors: Vec<(Kind, EngineError)>,
}

impl<Kind> SendRequestsOutput<Kind> {
    /// An empty output: nothing attempted yet.
    pub fn new_empty() -> (r: Self)
        ensures
            r.sent@.len() == 0,
            r.errors@.len() == 0,
    {
        SendRequestsOutput { sent: Vec::new(), errors: Vec::new() }
    }

    /// Whether any error in this output forces a shutdown.
    pub open spec fn spec_is_unrecoverable(self) -> bool {
        exists|k: int| 0 <= k < self.errors@.len() && (#[trigger] self.errors@[k]).1 is Unrecoverable
    }

    /// True iff some request failed with an unrecoverable error.
    pub fn is_unrecoverable(&self) -> (r: bool)
        ensures
            r == self.spec_is_unrecoverable(),
    {
        let n = self.errors.len();
        let mut k: usize = 0;
        while k < n
            invariant
                k <= n,
                n == self.errors@.len(),
                forall|j: int| 0 <= j < k ==> !((#[trigger] self.errors@[j]).1 is Unrecoverable),
            decreases n - k,
        {
            if self.errors[k].1.is_unrecoverable() {
                assert(self.errors@[k as int].1 is Unrecoverable);
                return true;
            }
            k = k + 1;
        }
        false
    }

    /// The unrecoverable errors this output carries, in order.
    pub open spec fn spec_unrecoverable_reasons(self) -> Seq<UnrecoverableEngineError> {
        spec_unrecoverable_of(self.errors@)
    }

    /// The unrecoverable errors of this output, in error order; empty iff
    /// the engine may continue.
    pub fn unrecoverable_errors(&self) -> (r: Vec<UnrecoverableEngineError>)
        ensures
            r@ == self.spec_unrecoverable_reasons(),
            r@.len() == 0 <==> !self.spec_is_unrecoverable(),
    {
        let mut r: Vec<UnrecoverableEngineError> = Vec::new();
        let n = self.errors.len();
        let mut k: usize = 0;
        while k < n
            invariant
                k <= n,
                n == self.errors@.len(),
                r@ == spec_unrecoverable_of(self.errors@.take(k as int)),
                r@.len() == 0 <==> (forall|j: int|
                    0 <= j < k ==> !((#[trigger] self.errors@[j]).1 is Unrecoverable)),
            decreases n - k,
        {
            proof {
                assert(self.errors@.take(k + 1int).drop_last() =~= self.errors@.take(k as int));
                assert(self.errors@.take(k + 1int).last() == self.errors@[k as int]);
            }
            match self.errors[k].1 {
                EngineError::Unrecoverable(e) => {
                    proof {
                        assert(self.errors@[k as int].1 == EngineError::Unrecoverable(e));
                    }
                    r.push(e);
                },
                EngineError::Recoverable(_) => {
                    proof {
                        assert(!(self.errors@[k as int].1 is Unrecoverable));
                    }
                },
            }
            k = k + 1;
        }
        proof {
            assert(self.errors@.take(n as int) =~= self.errors@);
        }
        r
    }
}

/// The unrecoverable members of an error list, in order.
pub open spec fn spec_unrecoverable_of<Kind>(errs: Seq<(Kind, EngineError)>) -> Seq<
    UnrecoverableEngineError,
>
    decreases errs.len(),
{
    if errs.len() == 0 {
        Seq::empty()
    } else {
        let rest = spec_unrecoverable_of(errs.drop_last());
        match errs.last().1 {
            EngineError::Unrecoverable(e) => rest.push(e),
            EngineError::Recoverable(_) => rest,
        }
    }
}

/// `sent` and `errs` interleave to exactly `reqs`, in order: every request
/// lands in one of the two, keeping its relative position.
pub open spec fn spec_partitions<Kind>(
    reqs: Seq<Kind>,
    sent: Seq<Kind>,
    errs: Seq<(Kind, EngineError)>,
) -> bool
    decreases reqs.len(),
{
    if reqs.len() == 0 {
        sent.len() == 0 && errs.len() == 0
    } else {
        ||| (sent.len() > 0 && sent.last() == reqs.last() && spec_partitions(
            reqs.drop_last(),
            sent.drop_last(),
            errs,
        ))
        ||| (errs.len() > 0 && errs.last().0 == reqs.last() && spec_partitions(
            reqs.drop_last(),
            sent,
            errs.drop_last(),
        ))
    }
}

/// A partition accounts for every request exactly once.
pub proof fn lemma_partitions_len<Kind>(
    reqs: Seq<Kind>,
    sent: Seq<Kind>,
    errs: Seq<(Kind, EngineError)>,
)
    requires
        spec_partitions(reqs, sent, errs),
    ensures
        sent.len() + errs.len() == reqs.len(),
    decreases reqs.len(),
{
    if reqs.len() > 0 {
        if sent.len() > 0 && sent.last() == reqs.last() && spec_partitions(
            reqs.drop_last(),
            sent.drop_last(),
            errs,
        ) {
            lemma_partitions_len(reqs.drop_last(), sent.drop_last(), errs);
        } else {
            lemma_partitions_len(reqs.drop_last(), sent, errs.drop_last());
        }
    }
}

/// Each side of a partition draws its elements from the requests.
pub proof fn lemma_partitions_membership<Kind>(
    reqs: Seq<Kind>,
    sent: Seq<Kind>,
    errs: Seq<(Kind, EngineError)>,
)
    requires
        spec_partitions(reqs, sent, errs),
    ensures
        forall|k: int| 0 <= k < sent.len() ==> reqs.contains(#[trigger] sent[k]),
        forall|k: int| 0 <= k < errs.len() ==> reqs.contains((#[trigger] errs[k]).0),
    decreases reqs.len(),
{
    if reqs.len() > 0 {
        if sent.len() > 0 && sent.last() == reqs.last() && spec_partitions(
            reqs.drop_last(),
            sent.drop_last(),
            errs,
        ) {
            lemma_partitions_membership(reqs.drop_last(), sent.drop_last(), errs);
            assert forall|k: int| 0 <= k < sent.len() implies reqs.contains(#[trigger] sent[k]) by {
                if k < sent.len() - 1 {
                    let j = choose|j: int|
                        0 <= j < reqs.drop_last().len() && reqs.drop_last()[j] == sent.drop_last()[
                            k];
                    assert(reqs[j] == sent[k]);
                } else {
                    assert(reqs[reqs.len() - 1] == sent[k]);
                }
            }
            assert forall|k: int| 0 <= k < errs.len() implies reqs.contains((#[trigger] errs[k]).0)
            by {
                let j = choose|j: int|
                    0 <= j < reqs.drop_last().len() && reqs.drop_last()[j] == errs[k].0;
                assert(reqs[j] == errs[k].0);
            }
        } else {
            lemma_partitions_membership(reqs.drop_last(), sent, errs.drop_last());
            assert forall|k: int| 0 <= k < sent.len() implies reqs.contains(#[trigger] sent[k]) by {
                let j = choose|j: int|
                    0 <= j < reqs.drop_last().len() && reqs.drop_last()[j] == sent[k];
                assert(reqs[j] == sent[k]);
            }
            assert forall|k: int| 0 <= k < errs.len() implies reqs.contains((#[trigger] errs[k]).0)
            by {
                if k < errs.len() - 1 {
                    let j = choose|j: int|
                        0 <= j < reqs.drop_last().len() && reqs.drop_last()[j] == errs.drop_last()[
                            k].0;
                    assert(reqs[j] == errs[k].0);
                } else {
                    assert(reqs[reqs.len() - 1] == errs[k].0);
                }
            }
        }
    }
}

/// Dispatch one execution request: look up the venue's outbound channel and
/// attempt a non-blocking send. A venue without a channel always fails with
/// `MissingExecutionChannel`; a present channel yields `Ok` when the request
/// was queued, `ExecutionChannelUnhealthy` on backpressure, and
/// `ExecutionChannelTerminated` when the channel is closed.
pub fn send_request(txs: &ExecutionTxMap, request: &ExecutionRequest) -> (r: Result<
    (),
    EngineError,
>)
    ensures
        txs.spec_has_channel(request.spec_exchange()) ==> {
            ||| r is Ok
            ||| r == Err::<(), EngineError>(
                EngineError::Recoverable(
                    RecoverableEngineError::ExecutionChannelUnhealthy {
                        exchange: request.spec_exchange(),
                    },
                ),
            )
            ||| r == Err::<(), EngineError>(
                EngineError::Unrecoverable(
                    UnrecoverableEngineError::ExecutionChannelTerminated {
                        exchange: request.spec_exchange(),
                    },
                ),
            )
        },
        !txs.spec_has_channel(request.spec_exchange()) ==> r == Err::<(), EngineError>(
            EngineError::Unrecoverable(
                UnrecoverableEngineError::MissingExecutionChannel { exchange: request.spec_exchange() },
            ),
        ),
{
    let exchange = request.exchange();
    let outcome = txs.try_send(*request);
    match outcome {
        None => Err(
            EngineError::Unrecoverable(UnrecoverableEngineError::MissingExecutionChannel { exchange }),
        ),
        Some(SendOutcome::Sent) => Ok(()),
        Some(SendOutcome::Full) => Err(
            EngineError::Recoverable(RecoverableEngineError::ExecutionChannelUnhealthy { exchange }),
        ),
        Some(SendOutcome::Closed) => Err(
            EngineError::Unrecoverable(UnrecoverableEngineError::ExecutionChannelTerminated { exchange }),
        ),
    }
}

/// Dispatch one order request. The same dispatch as `send_request`, under
/// the name the per-order call sites use.
pub fn send_order(txs: &ExecutionTxMap, request: &ExecutionRequest) -> (r: Result<
    (),
    EngineError,
>)
    ensures
        txs.spec_has_channel(request.spec_exchange()) ==> {
            ||| r is Ok
            ||| r == Err::<(), EngineError>(
                EngineError::Recoverable(
                    RecoverableEngineError::ExecutionChannelUnhealthy {
                        exchange: request.spec_exchange(),
                    },
                ),
            )
            ||| r == Err::<(), EngineError>(
                EngineError::Unrecoverable(
                    UnrecoverableEngineError::ExecutionChannelTerminated {
                        exchange: request.spec_exchange(),
                    },
                ),
            )
        },
        !txs.spec_has_channel(request.spec_exchange()) ==> r == Err::<(), EngineError>(
            EngineError::Unrecoverable(
                UnrecoverableEngineError::MissingExecutionChannel { exchange: request.spec_exchange() },
            ),
        ),
{
    send_request(txs, request)
}

/// The venue of the order behind each error matches the error's venue, and
/// the error is one of the three channel failures.
pub open spec fn spec_channel_error_for(e: EngineError, exchange: ExchangeIndex) -> bool {
    ||| e == EngineError::Recoverable(
        RecoverableEngineError::ExecutionChannelUnhealthy { exchange },
    )
    ||| e == EngineError::Unrecoverable(
        UnrecoverableEngineError::ExecutionChannelTerminated { exchange },
    )
    ||| e == EngineError::Unrecoverable(
        UnrecoverableEngineError::MissingExecutionChannel { exchange },
    )
}

/// Every failed cancel is marked with the channel error of its own venue.
pub open spec fn spec_cancel_errors_per_venue(errs: Seq<(OrderRequestCancel, EngineError)>) -> bool {
    forall|k: int|
        0 <= k < errs.len() ==> spec_channel_error_for((#[trigger] errs[k]).1, errs[k].0.exchange)
}

/// Every failed open is marked with the channel error of its own venue.
pub open spec fn spec_open_errors_per_venue(errs: Seq<(OrderRequestOpen, EngineError)>) -> bool {
    forall|k: int|
        0 <= k < errs.len() ==> spec_channel_error_for((#[trigger] errs[k]).1, errs[k].0.exchange)
}

/// Dispatch a batch of cancel requests in order. The output partitions the
/// batch: each request is either sent, or reported failed with the channel
/// error of its own venue; a request whose venue has no channel never
/// counts as sent.
#[verifier::loop_isolation(false)]
pub fn send_cancel_requests(txs: &ExecutionTxMap, requests: &Vec<OrderRequestCancel>) -> (r:
    SendRequestsOutput<OrderRequestCancel>)
    ensures
        spec_partitions(requests@, r.sent@, r.errors@),
        r.sent@.len() + r.errors@.len() == requests@.len(),
        forall|k: int|
            0 <= k < r.errors@.len() ==> spec_channel_error_for(
                (#[trigger] r.errors@[k]).1,
                r.errors@[k].0.exchange,
            ),
        forall|k: int|
            0 <= k < r.sent@.len() ==> txs.spec_has_channel((#[trigger] r.sent@[k]).exchange),
{
    let mut out = SendRequestsOutput::<OrderRequestCancel>::new_empty();
    let n = requests.len();
    let mut i: usize = 0;
    while i < n
        invariant
            i <= n,
            spec_partitions(requests@.take(i as int), out.sent@, out.errors@),
            forall|k: int|
                0 <= k < out.errors@.len() ==> spec_channel_error_for(
                    (#[trigger] out.errors@[k]).1,
                    out.errors@[k].0.exchange,
                ),
            forall|k: int|
                0 <= k < out.sent@.len() ==> txs.spec_has_channel(
                    (#[trigger] out.sent@[k]).exchange,
                ),
        decreases n - i,
    {
        let req = requests[i];
        proof {
            assert(requests@.take(i + 1int).drop_last() =~= requests@.take(i as int));
            assert(requests@.take(i + 1int).last() == requests@[i as int]);
        }
        let ghost sent0 = out.sent@;
        let ghost errs0 = out.errors@;
        match send_request(txs, &ExecutionRequest::CancelOrder(req)) {
            Ok(()) => {
                out.sent.push(req);
                proof {
                    assert(out.sent@.drop_last() =~= sent0);
                }
            },
            Err(e) => {
                out.errors.push((req, e));
                proof {
                    assert(out.errors@.drop_last() =~= errs0);
                }
            },
        }
        i = i + 1;
    }
    proof {
        assert(requests@.take(n as int) =~= requests@);
        lemma_partitions_len(requests@, out.sent@, out.errors@);
    }
    out
}

/// Dispatch a batch of open requests in order; same contract as the cancel
/// batch.
#[verifier::loop_isolation(false)]
pub fn send_open_requests(txs: &ExecutionTxMap, requests: &Vec<OrderRequestOpen>) -> (r:
    SendRequestsOutput<OrderRequestOpen>)
    ensures
        spec_partitions(requests@, r.sent@, r.errors@),
        r.sent@.len() + r.errors@.len() == requests@.len(),
        forall|k: int|
            0 <= k < r.errors@.len() ==> spec_channel_error_for(
                (#[trigger] r.errors@[k]).1,
                r.errors@[k].0.exchange,
            ),
        forall|k: int|
            0 <= k < r.sent@.len() ==> txs.spec_has_channel((#[trigger] r.sent@[k]).exchange),
{
    let mut out = SendRequestsOutput::<OrderRequestOpen>::new_empty();
    let n = requests.len();
    let mut i: usize = 0;
    while i < n
        invariant
            i <= n,
            spec_partitions(requests@.take(i as int), out.sent@, out.errors@),
            forall|k: int|
                0 <= k < out.errors@.len() ==> spec_channel_error_for(
                    (#[trigger] out.errors@[k]).1,
                    out.errors@[k].0.exchange,
                ),
            forall|k: int|
                0 <= k < out.sent@.len() ==> txs.spec_has_channel(
                    (#[trigger] out.sent@[k]).exchange,
                ),
        decreases n - i,
    {
        let req = requests[i];
        proof {
            assert(requests@.take(i + 1int).drop_last() =~= requests@.take(i as int));
            assert(requests@.take(i + 1int).last() == requests@[i as int]);
        }
        let ghost sent0 = out.sent@;
        let ghost errs0 = out.errors@;
        match send_request(txs, &ExecutionRequest::OpenOrder(req)) {
            Ok(()) => {
                out.sent.push(req);
                proof {
                    assert(out.sent@.drop_last() =~= sent0);
                }
            },
            Err(e) => {
                out.errors.push((req, e));
                proof {
                    assert(out.errors@.drop_last() =~= errs0);
                }
            },
        }
        i = i + 1;
    }
    proof {
        assert(requests@.take(n as int) =~= requests@);
        lemma_partitions_len(requests@, out.sent@, out.errors@);
    }
    out
}

/// Dispatch a batch of mixed execution requests in order; same contract as
/// the typed batches.
#[verifier::loop_isolation(false)]
pub fn send_requests(txs: &ExecutionTxMap, requests: &Vec<ExecutionRequest>) -> (r:
    SendRequestsOutput<ExecutionRequest>)
    ensures
        spec_partitions(requests@, r.sent@, r.errors@),
        r.sent@.len() + r.errors@.len() == requests@.len(),
        forall|k: int|
            0 <= k < r.errors@.len() ==> spec_channel_error_for(
                (#[trigger] r.errors@[k]).1,
                r.errors@[k].0.spec_exchange(),
            ),
        forall|k: int|
            0 <= k < r.sent@.len() ==> txs.spec_has_channel(
                (#[trigger] r.sent@[k]).spec_exchange(),
            ),
{
    let mut out = SendRequestsOutput::<ExecutionRequest>::new_empty();
    let n = requests.len();
    let mut i: usize = 0;
    while i < n
        invariant
            i <= n,
            spec_partitions(requests@.take(i as int), out.sent@, out.errors@),
            forall|k: int|
                0 <= k < out.errors@.len() ==> spec_channel_error_for(
                    (#[trigger] out.errors@[k]).1,
                    out.errors@[k].0.spec_exchange(),
                ),
            forall|k: int|
                0 <= k < out.sent@.len() ==> txs.spec_has_channel(
                    (#[trigger] out.sent@[k]).spec_exchange(),
                ),
        decreases n - i,
    {
        let req = requests[i];
        proof {
            assert(requests@.take(i + 1int).drop_last() =~= requests@.take(i as int));
            assert(requests@.take(i + 1int).last() == requests@[i as int]);
        }
        let ghost sent0 = out.sent@;
        let ghost errs0 = out.errors@;
        match send_request(txs, &req) {
            Ok(()) => {
                out.sent.push(req);
                proof {
                    assert(out.sent@.drop_last() =~= sent0);
                }
            },
            Err(e) => {
                out.errors.push((req, e));
                proof {
                    assert(out.errors@.drop_last() =~= errs0);
                }
            },
        }
        i = i + 1;
    }
    proof {
        assert(requests@.take(n as int) =~= requests@);
        lemma_partitions_len(requests@, out.sent@, out.errors@);
    }
    out
}

/// Dispatch a batch of cancels, then a batch of opens: cancels always go
/// first within one pass, to reduce double exposure when a strategy replaces
/// a resting order.
pub fn send_orders(
    txs: &ExecutionTxMap,
    cancels: &Vec<OrderRequestCancel>,
    opens: &Vec<OrderRequestOpen>,
) -> (r: (SendRequestsOutput<OrderRequestCancel>, SendRequestsOutput<OrderRequestOpen>))
    ensures
        spec_partitions(cancels@, r.0.sent@, r.0.errors@),
        spec_partitions(opens@, r.1.sent@, r.1.errors@),
        forall|k: int|
            0 <= k < r.0.sent@.len() ==> txs.spec_has_channel((#[trigger] r.0.sent@[k]).exchange),
        forall|k: int|
            0 <= k < r.1.sent@.len() ==> txs.spec_has_channel((#[trigger] r.1.sent@[k]).exchange),
{
    let sent_cancels = send_cancel_requests(txs, cancels);
    let sent_opens = send_open_requests(txs, opens);
    (sent_cancels, sent_opens)
}

} // verus!
