//! Inbound frame routing: classify a frame, correlate responses to earlier
//! requests, dispatch to the action handlers, and report what happened.

use vstd::prelude::*;
use crate::codec::{decode, spec_decode, call_result_frame, Frame, FrameS};
use crate::engine::{
    Engine, EngineS, boot_post, find_pending, lemma_find_pending, start_accept, start_post,
    start_reply, stop_known, stop_post, stop_reply, handle_set_variables, handle_get_variables,
};
use crate::ext::{fresh_id, wf_id};
use crate::parse::{
    parse_boot_status, parse_boot_interval, parse_set_variables_payload,
    parse_get_variables_payload, parse_start_payload, parse_stop_payload, spec_parse_boot_status,
    spec_parse_boot_interval, spec_parse_set_variables, spec_parse_get_variables,
    spec_parse_start, spec_parse_stop,
};
use crate::payloads::{
    set_variables_response_payload, get_variables_response_payload,
};

verus! {

/// Tokens for the messages one inbound frame may cause the engine to
/// produce.
pub struct FreshIds {
    pub a: String,
    pub b: String,
    pub c: String,
    pub d: String,
}

#[verifier::ext_equal]
pub struct FreshIdsS {
    pub a: Seq<char>,
    pub b: Seq<char>,
    pub c: Seq<char>,
    pub d: Seq<char>,
}

impl View for FreshIds {
    type V = FreshIdsS;

    open spec fn view(&self) -> FreshIdsS {
        FreshIdsS { a: self.a@, b: self.b@, c: self.c@, d: self.d@ }
    }
}

pub open spec fn wf_ids(ids: FreshIdsS) -> bool {
    wf_id(ids.a) && wf_id(ids.b) && wf_id(ids.c) && wf_id(ids.d)
}

/// What an inbound frame led to.
#[derive(Clone, Copy, PartialEq, Eq, Structural, Debug)]
pub enum OutcomeKind {
    /// A Call was dispatched and answered.
    CallHandled,
    /// A CallResult was correlated and acted on.
    ResultHandled,
    /// A CallResult was correlated but asked for nothing.
    ResultIgnored,
    /// A Call names an action without a handler.
    UnknownAction,
    /// A CallResult's original action has no response handler.
    UnknownResponse,
    /// A CallResult references no pending request.
    StaleResult,
    /// A CallError was noted.
    ErrorNoted,
    /// The frame or its payload fits no known shape.
    DecodeFailed,
}

/// The fields of a noted CallError, kept for logging.
pub struct ErrorNote {
    pub code: String,
    pub description: String,
    pub details: String,
}

#[verifier::ext_equal]
pub struct ErrorNoteS {
    pub code: Seq<char>,
    pub description: Seq<char>,
    pub details: Seq<char>,
}

impl View for ErrorNote {
    type V = ErrorNoteS;

    open spec fn view(&self) -> ErrorNoteS {
        ErrorNoteS {
            code: self.code@,
            description: self.description@,
            details: self.details@,
        }
    }
}

/// The router's report on one inbound frame: a reply to transmit at once,
/// an order to arm the heartbeat timer, the fields of a noted CallError,
/// and what happened.
pub struct Outcome {
    pub reply: Option<String>,
    pub arm_heartbeat_ms: Option<u64>,
    pub error: Option<ErrorNote>,
    pub kind: OutcomeKind,
}

#[verifier::ext_equal]
pub struct OutcomeS {
    pub reply: Option<Seq<char>>,
    pub arm_heartbeat_ms: Option<u64>,
    pub error: Option<ErrorNoteS>,
    pub kind: OutcomeKind,
}

impl View for Outcome {
    type V = OutcomeS;

    open spec fn view(&self) -> OutcomeS {
        OutcomeS {
            reply: match self.reply {
                Some(r) => Some(r@),
                None => None,
            },
            arm_heartbeat_ms: self.arm_heartbeat_ms,
            error: match self.error {
                Some(e) => Some(e@),
                None => None,
            },
            kind: self.kind,
        }
    }
}

/// One routing step: the state after the frame and the router's report.
#[verifier::ext_equal]
pub struct StepRes {
    pub post: EngineS,
    pub out: OutcomeS,
}

pub open spec fn no_step(pre: EngineS, kind: OutcomeKind) -> StepRes {
    StepRes {
        post: pre,
        out: OutcomeS { reply: None, arm_heartbeat_ms: None, error: None, kind },
    }
}

pub open spec fn reply_step(pre: EngineS, post: EngineS, reply: Seq<char>) -> StepRes {
    StepRes {
        post,
        out: OutcomeS {
            reply: Some(reply),
            arm_heartbeat_ms: None,
            error: None,
            kind: OutcomeKind::CallHandled,
        },
    }
}

/// Routing of an inbound Call.
pub open spec fn step_call(
    pre: EngineS,
    id: Seq<char>,
    action: Seq<char>,
    payload: Seq<char>,
    ids: FreshIdsS,
) -> StepRes {
    if action == "SetVariables"@ {
        match spec_parse_set_variables(payload) {
            None => no_step(pre, OutcomeKind::DecodeFailed),
            Some(entries) => reply_step(
                pre,
                pre,
                call_result_frame(id, set_variables_response_payload(entries)),
            ),
        }
    } else if action == "GetVariables"@ {
        match spec_parse_get_variables(payload) {
            None => no_step(pre, OutcomeKind::DecodeFailed),
            Some(entries) => reply_step(
                pre,
                pre,
                call_result_frame(id, get_variables_response_payload(entries)),
            ),
        }
    } else if action == "RequestStartTransaction"@ {
        match spec_parse_start(payload) {
            None => no_step(pre, OutcomeKind::DecodeFailed),
            Some((rsid, evse)) => reply_step(
                pre,
                start_post(pre, rsid as u64, evse as u64, payload, ids.a, ids.b, ids.c, ids.d),
                start_reply(id, rsid as u64, start_accept(pre, evse as u64)),
            ),
        }
    } else if action == "RequestStopTransaction"@ {
        match spec_parse_stop(payload) {
            None => no_step(pre, OutcomeKind::DecodeFailed),
            Some(txn) => reply_step(
                pre,
                stop_post(pre, txn, ids.a, ids.b, ids.c),
                stop_reply(id, stop_known(pre, txn)),
            ),
        }
    } else {
        no_step(pre, OutcomeKind::UnknownAction)
    }
}

/// Routing of an inbound CallResult.
pub open spec fn step_result(
    pre: EngineS,
    id: Seq<char>,
    payload: Seq<char>,
    ids: FreshIdsS,
) -> StepRes {
    let i = find_pending(pre.pending, id);
    if i < 0 {
        no_step(pre, OutcomeKind::StaleResult)
    } else if pre.pending[i].action == "BootNotification"@ {
        match spec_parse_boot_status(payload) {
            None => no_step(pre, OutcomeKind::DecodeFailed),
            Some(status) => {
                if status == "Accepted"@ {
                    match spec_parse_boot_interval(payload) {
                        None => no_step(pre, OutcomeKind::DecodeFailed),
                        Some(interval) => {
                            if interval <= u64::MAX / 1000 {
                                StepRes {
                                    post: boot_post(pre, interval as u64, ids.a),
                                    out: OutcomeS {
                                        reply: None,
                                        arm_heartbeat_ms: Some((interval * 1000) as u64),
                                        error: None,
                                        kind: OutcomeKind::ResultHandled,
                                    },
                                }
                            } else {
                                no_step(pre, OutcomeKind::DecodeFailed)
                            }
                        },
                    }
                } else {
                    no_step(pre, OutcomeKind::ResultIgnored)
                }
            },
        }
    } else {
        no_step(pre, OutcomeKind::UnknownResponse)
    }
}

/// Routing of one inbound frame, whatever it holds.
pub open spec fn step(pre: EngineS, raw: Seq<char>, ids: FreshIdsS) -> StepRes {
    match spec_decode(raw) {
        None => no_step(pre, OutcomeKind::DecodeFailed),
        Some(f) => match f {
            FrameS::Call { id, action, payload } => step_call(pre, id, action, payload, ids),
            FrameS::CallResult { id, payload } => step_result(pre, id, payload, ids),
            FrameS::CallError { id, code, description, details } => StepRes {
                post: pre,
                out: OutcomeS {
                    reply: None,
                    arm_heartbeat_ms: None,
                    error: Some(ErrorNoteS { code, description, details }),
                    kind: OutcomeKind::ErrorNoted,
                },
            },
        },
    }
}

/// Law: routing an inbound frame never removes or reorders what is already
/// queued: the queue after a step extends the queue before it.
pub proof fn lemma_step_keeps_queue_order(pre: EngineS, raw: Seq<char>, ids: FreshIdsS)
    ensures
        step(pre, raw, ids).post.queue.len() >= pre.queue.len(),
        forall|i: int|
            0 <= i < pre.queue.len() ==> step(pre, raw, ids).post.queue[i] == pre.queue[i],
{
}

/// Law: a frame whose report is neither CallHandled nor ResultHandled
/// leaves the engine state exactly as it was.
pub proof fn lemma_unhandled_frame_changes_nothing(pre: EngineS, raw: Seq<char>, ids: FreshIdsS)
    ensures
        step(pre, raw, ids).out.kind != OutcomeKind::CallHandled && step(pre, raw, ids).out.kind
            != OutcomeKind::ResultHandled ==> step(pre, raw, ids).post == pre,
{
}

/// Law: the heartbeat interval is written only by an accepted boot
/// acknowledgement correlated to a pending BootNotification Call; every
/// other frame leaves it unchanged.
pub proof fn lemma_interval_written_only_by_boot(pre: EngineS, raw: Seq<char>, ids: FreshIdsS)
    ensures
        step(pre, raw, ids).post.heartbeat_interval_ms != pre.heartbeat_interval_ms ==> match spec_decode(
            raw,
        ) {
            Some(FrameS::CallResult { id, payload }) => {
                &&& find_pending(pre.pending, id) >= 0
                &&& pre.pending[find_pending(pre.pending, id)].action == "BootNotification"@
                &&& spec_parse_boot_status(payload) == Some("Accepted"@)
                &&& match spec_parse_boot_interval(payload) {
                    Some(interval) => step(pre, raw, ids).post.heartbeat_interval_ms == Some(
                        (interval * 1000) as u64,
                    ),
                    None => false,
                }
            },
            _ => false,
        },
{
}

impl Engine {
    /// Routes one inbound frame, with the tokens of the messages it may
    /// produce.
    pub fn on_frame_with_ids(&mut self, raw: &str, ids: FreshIds) -> (out: Outcome)
        requires
            wf_ids(ids@),
        ensures
            final(self)@ == step(old(self)@, raw@, ids@).post,
            out@ == step(old(self)@, raw@, ids@).out,
    {
        let FreshIds { a, b, c, d } = ids;
        match decode(raw) {
            None => Outcome {
                reply: None,
                arm_heartbeat_ms: None,
                error: None,
                kind: OutcomeKind::DecodeFailed,
            },
            Some(Frame::CallError { id: _, code, description, details }) => Outcome {
                reply: None,
                arm_heartbeat_ms: None,
                error: Some(ErrorNote { code, description, details }),
                kind: OutcomeKind::ErrorNoted,
            },
            Some(Frame::Call { id, action, payload }) => {
                if action == String::from_str("SetVariables") {
                    match parse_set_variables_payload(payload.as_str()) {
                        None => Outcome {
                            reply: None,
                            arm_heartbeat_ms: None,
                            error: None,
                            kind: OutcomeKind::DecodeFailed,
                        },
                        Some(entries) => Outcome {
                            reply: Some(handle_set_variables(id.as_str(), &entries)),
                            arm_heartbeat_ms: None,
                            error: None,
                            kind: OutcomeKind::CallHandled,
                        },
                    }
                } else if action == String::from_str("GetVariables") {
                    match parse_get_variables_payload(payload.as_str()) {
                        None => Outcome {
                            reply: None,
                            arm_heartbeat_ms: None,
                            error: None,
                            kind: OutcomeKind::DecodeFailed,
                        },
                        Some(entries) => Outcome {
                            reply: Some(handle_get_variables(id.as_str(), &entries)),
                            arm_heartbeat_ms: None,
                            error: None,
                            kind: OutcomeKind::CallHandled,
                        },
                    }
                } else if action == String::from_str("RequestStartTransaction") {
                    match parse_start_payload(payload.as_str()) {
                        None => Outcome {
                            reply: None,
                            arm_heartbeat_ms: None,
                            error: None,
                            kind: OutcomeKind::DecodeFailed,
                        },
                        Some((rsid, evse)) => {
                            let reply = self.handle_request_start(
                                id.as_str(),
                                rsid,
                                evse,
                                payload.as_str(),
                                a,
                                b,
                                c,
                                d,
                            );
                            Outcome {
                                reply: Some(reply),
                                arm_heartbeat_ms: None,
                                error: None,
                                kind: OutcomeKind::CallHandled,
                            }
                        },
                    }
                } else if action == String::from_str("RequestStopTransaction") {
                    match parse_stop_payload(payload.as_str()) {
                        None => Outcome {
                            reply: None,
                            arm_heartbeat_ms: None,
                            error: None,
                            kind: OutcomeKind::DecodeFailed,
                        },
                        Some(txn) => {
                            let reply = self.handle_request_stop(id.as_str(), &txn, a, b, c);
                            Outcome {
                                reply: Some(reply),
                                arm_heartbeat_ms: None,
                                error: None,
                                kind: OutcomeKind::CallHandled,
                            }
                        },
                    }
                } else {
                    Outcome {
                        reply: None,
                        arm_heartbeat_ms: None,
                        error: None,
                        kind: OutcomeKind::UnknownAction,
                    }
                }
            },
            Some(Frame::CallResult { id, payload }) => {
                match self.find_pending_record(&id) {
                    None => Outcome {
                        reply: None,
                        arm_heartbeat_ms: None,
                        error: None,
                        kind: OutcomeKind::StaleResult,
                    },
                    Some(i) => {
                        proof {
                            lemma_find_pending(self@.pending, id@);
                        }
                        if self.pending[i].action == String::from_str("BootNotification") {
                            match parse_boot_status(payload.as_str()) {
                                None => Outcome {
                                    reply: None,
                                    arm_heartbeat_ms: None,
                                    error: None,
                                    kind: OutcomeKind::DecodeFailed,
                                },
                                Some(status) => {
                                    if status == String::from_str("Accepted") {
                                        match parse_boot_interval(payload.as_str()) {
                                            None => Outcome {
                                                reply: None,
                                                arm_heartbeat_ms: None,
                                                error: None,
                                                kind: OutcomeKind::DecodeFailed,
                                            },
                                            Some(interval) => {
                                                if interval <= u64::MAX / 1000 {
                                                    let ms = self.handle_boot_accepted(
                                                        interval,
                                                        a,
                                                    );
                                                    Outcome {
                                                        reply: None,
                                                        arm_heartbeat_ms: Some(ms),
                                                        error: None,
                                                        kind: OutcomeKind::ResultHandled,
                                                    }
                                                } else {
                                                    Outcome {
                                                        reply: None,
                                                        arm_heartbeat_ms: None,
                                                        error: None,
                                                        kind: OutcomeKind::DecodeFailed,
                                                    }
                                                }
                                            },
                                        }
                                    } else {
                                        Outcome {
                                            reply: None,
                                            arm_heartbeat_ms: None,
                                            error: None,
                                            kind: OutcomeKind::ResultIgnored,
                                        }
                                    }
                                },
                            }
                        } else {
                            Outcome {
                                reply: None,
                                arm_heartbeat_ms: None,
                                error: None,
                                kind: OutcomeKind::UnknownResponse,
                            }
                        }
                    },
                }
            },
        }
    }

    /// Routes one inbound frame, generating tokens for whatever messages it
    /// produces.  Whatever tokens come back, the transition is a routing
    /// step over well-formed tokens.
    pub fn on_frame(&mut self, raw: &str) -> (out: Outcome)
        ensures
            exists|ids: FreshIdsS|
                #[trigger] wf_ids(ids) && final(self)@ == step(old(self)@, raw@, ids).post && out@
                    == step(old(self)@, raw@, ids).out,
    {
        let ids = FreshIds { a: fresh_id(), b: fresh_id(), c: fresh_id(), d: fresh_id() };
        let ghost g = ids@;
        let out = self.on_frame_with_ids(raw, ids);
        proof {
            assert(wf_ids(g) && self@ == step(old(self)@, raw@, g).post && out@ == step(
                old(self)@,
                raw@,
                g,
            ).out);
        }
        out
    }
}

} // verus!
