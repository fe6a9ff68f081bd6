//! Queue pair error state recovery.
//!
//! A guard that checks queue pair health before each post operation. If the
//! queue pair has entered ERROR state, it returns an error that signals the
//! caller to trigger a reconnect via the transport layer.
//!
//! # Design
//!
//! - **Check-on-use**: the state of the queue pair is queried before each post
//!   operation; the return code of the query and the state that it found are
//!   handed to the guard.
//! - **Recovery is external**: when ERROR is detected, the guard returns
//!   `RdmaError::HardwareError("QP in ERROR state")`. The caller's retry
//!   layer catches this, and the transport handles the actual destroy and
//!   recreate cycle.

use vstd::prelude::*;
use vstd::string::*;

use crate::error::{ErrorView, RdmaError};
use crate::rdma::qp;
use crate::rdma::qp::{PostedRecv, PostedSend, QpState, QueuePair, RecvWorkRequest, SendWorkRequest};
use crate::text;

verus! {

/// The guard as a value: how often an ERROR state was detected, and the last
/// error.
pub struct GuardView {
    pub recoveries: u64,
    pub last_error: Option<ErrorView>,
}

/// The state is one that the queue pair does not recover from.
pub open spec fn broken(state: QpState) -> bool {
    state is Error || state is Unknown
}

/// The error of a health check, from the return code of the query and the state
/// that it found.
pub open spec fn health_error(ret: i32, state: QpState) -> Option<ErrorView> {
    if ret != 0 {
        Some(
            ErrorView::HardwareError(
                "ibv_query_qp failed with return code "@ + text::signed_decimal(ret as int),
            ),
        )
    } else if broken(state) {
        Some(ErrorView::HardwareError("QP in ERROR state"@))
    } else {
        None
    }
}

/// The guard after a health check: an error is remembered, and a broken queue
/// pair is counted.
pub open spec fn after_check(g: GuardView, ret: i32, state: QpState) -> GuardView {
    match health_error(ret, state) {
        None => g,
        Some(e) => GuardView {
            recoveries: if ret == 0 {
                ((g.recoveries + 1) % 0x1_0000_0000_0000_0000) as u64
            } else {
                g.recoveries
            },
            last_error: Some(e),
        },
    }
}

/// A guarded queue pair that checks its health before each post operation.
#[derive(Debug)]
pub struct QpGuard {
    qp: QueuePair,
    recovery_count: u64,
    last_error: Option<RdmaError>,
}

impl View for QpGuard {
    type V = GuardView;

    closed spec fn view(&self) -> GuardView {
        GuardView {
            recoveries: self.recovery_count,
            last_error: match self.last_error {
                Some(e) => Some(e@),
                None => None,
            },
        }
    }
}

impl QpGuard {
    pub closed spec fn spec_qp(&self) -> QueuePair {
        self.qp
    }

    /// Wrap an existing [`QueuePair`] with health checking.
    pub fn new(qp: QueuePair) -> (r: Self)
        ensures
            r@ == (GuardView { recoveries: 0, last_error: None }),
            r.spec_qp() == qp,
    {
        QpGuard { qp, recovery_count: 0, last_error: None }
    }

    /// Checks the state of the queue pair. Returns `Ok(())` if healthy.
    ///
    /// `ret` is the return code of the query, `state` the state that it found.
    /// If the queue pair is in the ERROR or UNKNOWN state, returns
    /// `RdmaError::HardwareError("QP in ERROR state")`.
    pub fn check_health(&mut self, ret: i32, state: QpState) -> (r: Result<(), RdmaError>)
        ensures
            final(self)@ == after_check(old(self)@, ret, state),
            final(self).spec_qp() == old(self).spec_qp(),
            match r {
                Ok(_) => health_error(ret, state) is None,
                Err(e) => health_error(ret, state) == Some(e@),
            },
    {
        if ret != 0 {
            let err = RdmaError::HardwareError(
                text::with_code("ibv_query_qp failed with return code ", ret),
            );
            self.last_error = Some(err.clone());
            return Err(err);
        }
        match state {
            QpState::Error | QpState::Unknown => {
                let err = RdmaError::HardwareError("QP in ERROR state".to_owned());
                self.last_error = Some(err.clone());
                self.recovery_count = self.recovery_count.wrapping_add(1);
                Err(err)
            },
            _ => Ok(()),
        }
    }

    /// Post a send WR with automatic health check.
    ///
    /// If the queue pair is in ERROR state, returns `RdmaError::HardwareError`.
    /// The caller should reconnect to create a fresh transport and retry the
    /// operation.
    pub fn post_send(&mut self, ret: i32, state: QpState, wr: &SendWorkRequest) -> (r: Result<
        PostedSend,
        RdmaError,
    >)
        ensures
            final(self)@ == after_check(old(self)@, ret, state),
            final(self).spec_qp() == old(self).spec_qp(),
            match r {
                Ok(p) => health_error(ret, state) is None && p@ == qp::posted(wr@, true),
                Err(e) => health_error(ret, state) == Some(e@),
            },
    {
        match self.check_health(ret, state) {
            Ok(_) => Ok(self.qp.post_send(wr)),
            Err(e) => Err(e),
        }
    }

    /// Post a batch of send WRs with automatic health check.
    ///
    /// Same semantics as [`Self::post_send`] but for batched work requests.
    pub fn post_send_batch(
        &mut self,
        ret: i32,
        state: QpState,
        wrs: &[SendWorkRequest],
    ) -> (r: Result<Vec<PostedSend>, RdmaError>)
        ensures
            final(self)@ == after_check(old(self)@, ret, state),
            final(self).spec_qp() == old(self).spec_qp(),
            match health_error(ret, state) {
                Some(e) => r matches Err(x) && x@ == e,
                None => match r {
                    Ok(chain) => wrs@.len() > 0 && qp::chain_view(chain@) == qp::chain_of(wrs@),
                    Err(e) => wrs@.len() == 0 && e@ == ErrorView::Internal("empty batch"@),
                },
            },
    {
        match self.check_health(ret, state) {
            Ok(_) => self.qp.post_send_batch(wrs),
            Err(e) => Err(e),
        }
    }

    /// Post a receive WR with automatic health check.
    pub fn post_recv(&mut self, ret: i32, state: QpState, wr: &RecvWorkRequest) -> (r: Result<
        PostedRecv,
        RdmaError,
    >)
        ensures
            final(self)@ == after_check(old(self)@, ret, state),
            final(self).spec_qp() == old(self).spec_qp(),
            match r {
                Ok(p) => health_error(ret, state) is None && p.wr_id == wr.wr_id && p.sge@
                    == wr.sge@,
                Err(e) => health_error(ret, state) == Some(e@),
            },
    {
        match self.check_health(ret, state) {
            Ok(_) => Ok(self.qp.post_recv(wr)),
            Err(e) => Err(e),
        }
    }

    /// The state that a query found, or an error if the query itself failed.
    pub fn query_state(&self, ret: i32, state: QpState) -> (r: Result<QpState, RdmaError>)
        ensures
            match r {
                Ok(s) => ret == 0 && s == state,
                Err(e) => ret != 0 && Some(e@) == health_error(ret, state),
            },
    {
        if ret != 0 {
            return Err(
                RdmaError::HardwareError(
                    text::with_code("ibv_query_qp failed with return code ", ret),
                ),
            );
        }
        Ok(state)
    }

    /// Number of times an ERROR state has been detected on this queue pair.
    pub fn recovery_count(&self) -> (n: u64)
        ensures
            n == self@.recoveries,
    {
        self.recovery_count
    }

    /// Get the last recorded error, if any.
    pub fn last_error(&self) -> (r: Option<RdmaError>)
        ensures
            match r {
                Some(e) => self@.last_error == Some(e@),
                None => self@.last_error is None,
            },
    {
        match &self.last_error {
            Some(e) => Some(e.clone()),
            None => None,
        }
    }

    /// Get the underlying [`QueuePair`].
    pub fn qp(&self) -> (r: &QueuePair)
        ensures
            *r == self.spec_qp(),
    {
        &self.qp
    }
}

// ---------------------------------------------------------------------------
// Laws
// ---------------------------------------------------------------------------
/// A broken queue pair is counted, and its error remembered, on every check; a
/// healthy one leaves the guard as it was.
pub proof fn law_recovery_is_counted(g: GuardView, state: QpState)
    requires
        g.recoveries < u64::MAX,
    ensures
        broken(state) ==> after_check(g, 0, state).recoveries == g.recoveries + 1
            && after_check(g, 0, state).last_error == Some(
            ErrorView::HardwareError("QP in ERROR state"@),
        ),
        !broken(state) ==> after_check(g, 0, state) == g,
{
}

/// No error that the guard reports is retried by itself: the caller has to
/// reconnect.
pub proof fn law_guard_errors_need_reconnect(ret: i32, state: QpState)
    requires
        health_error(ret, state) is Some,
    ensures
        !crate::error::retriable(health_error(ret, state)->0),
{
}

/// A queue pair is healthy when its state could be queried and is neither ERROR nor
/// UNKNOWN.
pub proof fn law_health(ret: i32, state: QpState)
    ensures
        health_error(ret, state) is None <==> ret == 0 && !(state is Error) && !(state
            is Unknown),
        ret == 0 && (state is Error || state is Unknown) ==> health_error(ret, state) == Some(
            ErrorView::HardwareError("QP in ERROR state"@),
        ),
        ret != 0 ==> health_error(ret, state) == Some(
            ErrorView::HardwareError(
                "ibv_query_qp failed with return code "@ + text::signed_decimal(ret as int),
            ),
        ),
{
}

/// A query that fails is remembered and counts as no recovery; the count wraps around.
pub proof fn law_failed_query_is_remembered(g: GuardView, ret: i32, state: QpState)
    ensures
        ret != 0 ==> after_check(g, ret, state).recoveries == g.recoveries && after_check(
            g,
            ret,
            state,
        ).last_error == health_error(ret, state),
        g.recoveries == u64::MAX && state is Error ==> after_check(g, 0, state).recoveries == 0,
{
}

} // verus!
