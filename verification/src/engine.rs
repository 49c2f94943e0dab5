//! The protocol engine's state and transitions: the pending-request
//! correlation map, the FIFO delivery queue with its timeout gate, the
//! transaction records, the connector statuses and the heartbeat interval.

use vstd::prelude::*;
use crate::codec::{
    call_frame, call_result_frame, encode_call, encode_call_result, lemma_call_round_trip,
    no_quote, spec_decode, FrameS,
};
use crate::ext::{fresh_id, unix_time_now, wf_id, lemma_wf_id_no_quote};
use crate::payloads::{
    ConnStatus, build_boot_payload, build_heartbeat_payload, build_status_notification_payload,
    build_start_response_payload, build_stop_response_payload, build_transaction_event_payload,
    build_set_variables_response_payload, build_get_variables_response_payload, boot_payload,
    heartbeat_payload, status_notification_payload, start_response_payload, stop_response_payload,
    transaction_event_payload, set_variables_response_payload, get_variables_response_payload,
    VarRef, var_refs_view,
};

verus! {

/// Seconds after which the last transmitted message no longer blocks the
/// queue.
pub const QUEUE_EXPIRY_S: u64 = 10;

/// A serialized outbound Call awaiting transmission.
pub struct QueueEntry {
    pub id: String,
    pub action: String,
    pub body: String,
}

#[verifier::ext_equal]
pub struct QueueEntryS {
    pub id: Seq<char>,
    pub action: Seq<char>,
    pub body: Seq<char>,
}

impl View for QueueEntry {
    type V = QueueEntryS;

    open spec fn view(&self) -> QueueEntryS {
        QueueEntryS { id: self.id@, action: self.action@, body: self.body@ }
    }
}

/// The most recently transmitted queued message.
pub struct LastSent {
    pub id: String,
    pub timestamp: u64,
}

#[verifier::ext_equal]
pub struct LastSentS {
    pub id: Seq<char>,
    pub timestamp: u64,
}

impl View for LastSent {
    type V = LastSentS;

    open spec fn view(&self) -> LastSentS {
        LastSentS { id: self.id@, timestamp: self.timestamp }
    }
}

/// A sent Call whose response is still awaited, kept to recover its action
/// when a CallResult arrives.
pub struct Pending {
    pub id: String,
    pub action: String,
}

#[verifier::ext_equal]
pub struct PendingS {
    pub id: Seq<char>,
    pub action: Seq<char>,
}

impl View for Pending {
    type V = PendingS;

    open spec fn view(&self) -> PendingS {
        PendingS { id: self.id@, action: self.action@ }
    }
}

/// A running charging transaction: its token, the connector it occupies and
/// the start request payload, stored verbatim.
pub struct Transaction {
    pub id: String,
    pub evse_id: u64,
    pub payload: String,
}

#[verifier::ext_equal]
pub struct TransactionS {
    pub id: Seq<char>,
    pub evse_id: u64,
    pub payload: Seq<char>,
}

impl View for Transaction {
    type V = TransactionS;

    open spec fn view(&self) -> TransactionS {
        TransactionS { id: self.id@, evse_id: self.evse_id, payload: self.payload@ }
    }
}

/// The engine's whole session state.
pub struct Engine {
    pub connectors: Vec<ConnStatus>,
    pub transactions: Vec<Transaction>,
    pub pending: Vec<Pending>,
    pub queue: Vec<QueueEntry>,
    pub last_sent: Option<LastSent>,
    pub heartbeat_interval_ms: Option<u64>,
}

#[verifier::ext_equal]
pub struct EngineS {
    pub connectors: Seq<ConnStatus>,
    pub transactions: Seq<TransactionS>,
    pub pending: Seq<PendingS>,
    pub queue: Seq<QueueEntryS>,
    pub last_sent: Option<LastSentS>,
    pub heartbeat_interval_ms: Option<u64>,
}

impl View for Engine {
    type V = EngineS;

    open spec fn view(&self) -> EngineS {
        EngineS {
            connectors: self.connectors@,
            transactions: self.transactions@.map_values(|t: Transaction| t@),
            pending: self.pending@.map_values(|p: Pending| p@),
            queue: self.queue@.map_values(|e: QueueEntry| e@),
            last_sent: match self.last_sent {
                Some(l) => Some(l@),
                None => None,
            },
            heartbeat_interval_ms: self.heartbeat_interval_ms,
        }
    }
}

/// The queue entry of an outbound Call.
pub open spec fn call_entry(id: Seq<char>, action: Seq<char>, payload: Seq<char>) -> QueueEntryS {
    QueueEntryS { id, action, body: call_frame(id, action, payload) }
}

pub open spec fn pending_of(id: Seq<char>, action: Seq<char>) -> PendingS {
    PendingS { id, action }
}

/// Law: the serialized body of every queue entry the engine builds decodes
/// back to the Call it encodes, for every generated token and every action
/// name free of quote characters.
pub proof fn lemma_entry_round_trip(id: Seq<char>, action: Seq<char>, payload: Seq<char>)
    requires
        wf_id(id),
        no_quote(action),
    ensures
        spec_decode(call_entry(id, action, payload).body) == Some(
            FrameS::Call { id, action, payload },
        ),
{
    lemma_wf_id_no_quote(id);
    lemma_call_round_trip(id, action, payload);
}

impl Engine {
    /// A fresh session over `n_connectors` connectors, every one available,
    /// with nothing pending, nothing queued, nothing sent and no heartbeat
    /// interval known yet.
    pub fn new(n_connectors: usize) -> (r: Engine)
        ensures
            r@.connectors.len() == n_connectors,
            forall|i: int| 0 <= i < n_connectors ==> r@.connectors[i] == ConnStatus::Available,
            r@.transactions == Seq::<TransactionS>::empty(),
            r@.pending == Seq::<PendingS>::empty(),
            r@.queue == Seq::<QueueEntryS>::empty(),
            r@.last_sent is None,
            r@.heartbeat_interval_ms is None,
    {
        let mut connectors: Vec<ConnStatus> = Vec::new();
        let mut i: usize = 0;
        while i < n_connectors
            invariant
                i <= n_connectors,
                connectors@.len() == i,
                forall|j: int| 0 <= j < i ==> connectors@[j] == ConnStatus::Available,
            decreases n_connectors - i,
        {
            connectors.push(ConnStatus::Available);
            i += 1;
        }
        let r = Engine {
            connectors,
            transactions: Vec::new(),
            pending: Vec::new(),
            queue: Vec::new(),
            last_sent: None,
            heartbeat_interval_ms: None,
        };
        proof {
            assert(r@.transactions =~= Seq::<TransactionS>::empty());
            assert(r@.pending =~= Seq::<PendingS>::empty());
            assert(r@.queue =~= Seq::<QueueEntryS>::empty());
        }
        r
    }

    /// Serializes a Call, records it as pending and appends it to the
    /// delivery queue.
    fn enqueue_call(&mut self, id: String, action: &str, payload: &str)
        ensures
            final(self)@ == (EngineS {
                queue: old(self)@.queue.push(call_entry(id@, action@, payload@)),
                pending: old(self)@.pending.push(pending_of(id@, action@)),
                ..old(self)@
            }),
    {
        let body = encode_call(id.as_str(), action, payload);
        self.pending.push(Pending { id: id.clone(), action: action.to_owned() });
        self.queue.push(QueueEntry { id, action: action.to_owned(), body });
        proof {
            assert(self@.queue =~= old(self)@.queue.push(
                call_entry(self.queue@.last().id@, self.queue@.last().action@, payload@),
            ));
            assert(self@.pending =~= old(self)@.pending.push(
                pending_of(self.queue@.last().id@, self.queue@.last().action@),
            ));
            assert(self@ =~= (EngineS {
                queue: old(self)@.queue.push(
                    call_entry(self.queue@.last().id@, action@, payload@),
                ),
                pending: old(self)@.pending.push(pending_of(self.queue@.last().id@, action@)),
                ..old(self)@
            }));
        }
    }

    /// The flow-control gate: open when nothing was ever transmitted, or
    /// when the expiry window has elapsed since the last transmission.
    pub open spec fn gate_open(last: Option<LastSentS>, now: u64) -> bool {
        match last {
            None => true,
            Some(l) => l.timestamp + QUEUE_EXPIRY_S <= now,
        }
    }

    /// One queue-fetch tick: hands out the head of the queue for
    /// transmission when the window is open and records it as last sent,
    /// and otherwise does nothing.
    pub fn queue_tick(&mut self, now: u64) -> (sent: Option<QueueEntry>)
        ensures
            old(self)@.queue.len() > 0 && Self::gate_open(old(self)@.last_sent, now) ==> {
                &&& match sent {
                    Some(e) => e@ == old(self)@.queue[0],
                    None => false,
                }
                &&& final(self)@ == (EngineS {
                    queue: old(self)@.queue.drop_first(),
                    last_sent: Some(LastSentS { id: old(self)@.queue[0].id, timestamp: now }),
                    ..old(self)@
                })
            },
            !(old(self)@.queue.len() > 0 && Self::gate_open(old(self)@.last_sent, now)) ==> {
                &&& sent is None
                &&& final(self)@ == old(self)@
            },
    {
        let gate = match &self.last_sent {
            None => true,
            Some(l) => now >= QUEUE_EXPIRY_S && l.timestamp <= now - QUEUE_EXPIRY_S,
        };
        if self.queue.len() > 0 && gate {
            let entry = self.queue.remove(0);
            self.last_sent = Some(LastSent { id: entry.id.clone(), timestamp: now });
            proof {
                assert(self@.queue =~= old(self)@.queue.drop_first());
                assert(self@ =~= (EngineS {
                    queue: old(self)@.queue.drop_first(),
                    last_sent: Some(
                        LastSentS { id: old(self)@.queue[0].id, timestamp: now },
                    ),
                    ..old(self)@
                }));
            }
            Some(entry)
        } else {
            proof {
                assert(self@ =~= old(self)@);
            }
            None
        }
    }

    /// One queue-fetch tick at the current time: whatever instant the clock
    /// reports, either the head of the queue goes out through an open
    /// window, or nothing changes; before anything was ever transmitted the
    /// window is open whatever the clock says, so a non-empty queue owes a
    /// send.
    pub fn tick_now(&mut self) -> (sent: Option<QueueEntry>)
        ensures
            old(self)@.last_sent is None && old(self)@.queue.len() > 0 ==> sent is Some,
            match sent {
                Some(e) => {
                    &&& old(self)@.queue.len() > 0
                    &&& e@ == old(self)@.queue[0]
                    &&& exists|now: u64|
                        #[trigger] Self::gate_open(old(self)@.last_sent, now) && final(self)@
                            == (EngineS {
                            queue: old(self)@.queue.drop_first(),
                            last_sent: Some(
                                LastSentS { id: old(self)@.queue[0].id, timestamp: now },
                            ),
                            ..old(self)@
                        })
                },
                None => final(self)@ == old(self)@,
            },
    {
        let now = unix_time_now();
        let sent = self.queue_tick(now);
        proof {
            if sent is Some {
                assert(Self::gate_open(old(self)@.last_sent, now) && self@ == (EngineS {
                    queue: old(self)@.queue.drop_first(),
                    last_sent: Some(LastSentS { id: old(self)@.queue[0].id, timestamp: now }),
                    ..old(self)@
                }));
            }
        }
        sent
    }

    /// Builds the BootNotification Call of a freshly opened session, records
    /// it as pending and queues it.
    pub fn boot_request(&mut self, model: &str, vendor: &str, serial: &Option<String>, id: String)
        requires
            wf_id(id@),
        ensures
            final(self)@ == (EngineS {
                queue: old(self)@.queue.push(
                    call_entry(
                        id@,
                        "BootNotification"@,
                        boot_payload(model@, vendor@, match serial {
                            Some(s) => Some(s@),
                            None => None,
                        }),
                    ),
                ),
                pending: old(self)@.pending.push(pending_of(id@, "BootNotification"@)),
                ..old(self)@
            }),
    {
        let payload = build_boot_payload(model, vendor, serial);
        self.enqueue_call(id, "BootNotification", payload.as_str());
    }

    /// Opens the session: generates the boot message's token and queues the
    /// BootNotification Call.
    pub fn open_session(&mut self, model: &str, vendor: &str, serial: &Option<String>)
        ensures
            exists|id: Seq<char>|
                wf_id(id) && final(self)@ == (EngineS {
                    queue: old(self)@.queue.push(
                        call_entry(
                            id,
                            "BootNotification"@,
                            boot_payload(model@, vendor@, match serial {
                                Some(s) => Some(s@),
                                None => None,
                            }),
                        ),
                    ),
                    pending: old(self)@.pending.push(pending_of(id, "BootNotification"@)),
                    ..old(self)@
                }),
    {
        let id = fresh_id();
        let ghost g = id@;
        self.boot_request(model, vendor, serial, id);
        proof {
            assert(wf_id(g) && self@ == (EngineS {
                queue: old(self)@.queue.push(
                    call_entry(g, "BootNotification"@, boot_payload(model@, vendor@, match serial {
                        Some(s) => Some(s@),
                        None => None,
                    })),
                ),
                pending: old(self)@.pending.push(pending_of(g, "BootNotification"@)),
                ..old(self)@
            }));
        }
    }

    /// Builds a Heartbeat Call, records it as pending, queues it, and
    /// returns the interval after which the heartbeat timer fires again.
    pub fn heartbeat_tick_with_id(&mut self, id: String) -> (interval_ms: u64)
        requires
            wf_id(id@),
            old(self)@.heartbeat_interval_ms is Some,
        ensures
            old(self)@.heartbeat_interval_ms == Some(interval_ms),
            final(self)@ == (EngineS {
                queue: old(self)@.queue.push(call_entry(id@, "Heartbeat"@, heartbeat_payload())),
                pending: old(self)@.pending.push(pending_of(id@, "Heartbeat"@)),
                ..old(self)@
            }),
    {
        let payload = build_heartbeat_payload();
        self.enqueue_call(id, "Heartbeat", payload.as_str());
        match &self.heartbeat_interval_ms {
            Some(ms) => *ms,
            None => 0,
        }
    }

    /// One firing of the heartbeat timer.
    pub fn heartbeat_tick(&mut self) -> (interval_ms: u64)
        requires
            old(self)@.heartbeat_interval_ms is Some,
        ensures
            old(self)@.heartbeat_interval_ms == Some(interval_ms),
            exists|id: Seq<char>|
                wf_id(id) && final(self)@ == (EngineS {
                    queue: old(self)@.queue.push(
                        call_entry(id, "Heartbeat"@, heartbeat_payload()),
                    ),
                    pending: old(self)@.pending.push(pending_of(id, "Heartbeat"@)),
                    ..old(self)@
                }),
    {
        let id = fresh_id();
        let ghost g = id@;
        let interval_ms = self.heartbeat_tick_with_id(id);
        proof {
            assert(wf_id(g) && self@ == (EngineS {
                queue: old(self)@.queue.push(call_entry(g, "Heartbeat"@, heartbeat_payload())),
                pending: old(self)@.pending.push(pending_of(g, "Heartbeat"@)),
                ..old(self)@
            }));
        }
        interval_ms
    }
}

/// Index of the first transaction carrying `id`, or -1 if none does.
pub open spec fn find_txn(txns: Seq<TransactionS>, id: Seq<char>) -> int
    decreases txns.len(),
{
    if txns.len() == 0 {
        -1
    } else if txns[0].id == id {
        0
    } else {
        let r = find_txn(txns.drop_first(), id);
        if r == -1 {
            -1
        } else {
            r + 1
        }
    }
}

pub proof fn lemma_find_txn(txns: Seq<TransactionS>, id: Seq<char>)
    ensures
        -1 <= find_txn(txns, id) < txns.len(),
        find_txn(txns, id) >= 0 ==> txns[find_txn(txns, id)].id == id,
        forall|j: int|
            0 <= j < txns.len() && (find_txn(txns, id) == -1 || j < find_txn(txns, id))
                ==> txns[j].id != id,
    decreases txns.len(),
{
    if txns.len() > 0 && txns[0].id != id {
        let rest = txns.drop_first();
        lemma_find_txn(rest, id);
        assert forall|j: int|
            0 <= j < txns.len() && (find_txn(txns, id) == -1 || j < find_txn(txns, id))
            implies txns[j].id != id by {
            if j > 0 {
                assert(txns[j] == rest[j - 1]);
            }
        }
    }
}

pub proof fn lemma_find_txn_at(txns: Seq<TransactionS>, id: Seq<char>, k: int)
    requires
        0 <= k < txns.len(),
        txns[k].id == id,
        forall|j: int| 0 <= j < k ==> txns[j].id != id,
    ensures
        find_txn(txns, id) == k,
    decreases k,
{
    if k > 0 {
        let rest = txns.drop_first();
        assert forall|j: int| 0 <= j < k - 1 implies rest[j].id != id by {
            assert(rest[j] == txns[j + 1]);
        }
        assert(rest[k - 1] == txns[k]);
        lemma_find_txn_at(rest, id, k - 1);
    }
}

/// Index of the first pending record carrying `id`, or -1 if none does.
pub open spec fn find_pending(pending: Seq<PendingS>, id: Seq<char>) -> int
    decreases pending.len(),
{
    if pending.len() == 0 {
        -1
    } else if pending[0].id == id {
        0
    } else {
        let r = find_pending(pending.drop_first(), id);
        if r == -1 {
            -1
        } else {
            r + 1
        }
    }
}

pub proof fn lemma_find_pending(pending: Seq<PendingS>, id: Seq<char>)
    ensures
        -1 <= find_pending(pending, id) < pending.len(),
        find_pending(pending, id) >= 0 ==> pending[find_pending(pending, id)].id == id,
        forall|j: int|
            0 <= j < pending.len() && (find_pending(pending, id) == -1 || j < find_pending(
                pending,
                id,
            )) ==> pending[j].id != id,
    decreases pending.len(),
{
    if pending.len() > 0 && pending[0].id != id {
        let rest = pending.drop_first();
        lemma_find_pending(rest, id);
        assert forall|j: int|
            0 <= j < pending.len() && (find_pending(pending, id) == -1 || j < find_pending(
                pending,
                id,
            )) implies pending[j].id != id by {
            if j > 0 {
                assert(pending[j] == rest[j - 1]);
            }
        }
    }
}

pub proof fn lemma_find_pending_at(pending: Seq<PendingS>, id: Seq<char>, k: int)
    requires
        0 <= k < pending.len(),
        pending[k].id == id,
        forall|j: int| 0 <= j < k ==> pending[j].id != id,
    ensures
        find_pending(pending, id) == k,
    decreases k,
{
    if k > 0 {
        let rest = pending.drop_first();
        assert forall|j: int| 0 <= j < k - 1 implies rest[j].id != id by {
            assert(rest[j] == pending[j + 1]);
        }
        assert(rest[k - 1] == pending[k]);
        lemma_find_pending_at(rest, id, k - 1);
    }
}

/// A start request is accepted exactly when it addresses an existing
/// connector that is available.
pub open spec fn start_accept(pre: EngineS, evse_id: u64) -> bool {
    1 <= evse_id <= pre.connectors.len() && pre.connectors[evse_id as int - 1]
        == ConnStatus::Available
}

/// State after an accepted RequestStartTransaction: the connector occupied,
/// the transaction recorded with the request payload kept verbatim, and a
/// StatusNotification plus the Started and Updated TransactionEvents queued
/// in that order.  A rejected request changes nothing.
pub open spec fn start_post(
    pre: EngineS,
    remote_start_id: u64,
    evse_id: u64,
    raw_payload: Seq<char>,
    txn_id: Seq<char>,
    sn_id: Seq<char>,
    ev1_id: Seq<char>,
    ev2_id: Seq<char>,
) -> EngineS {
    if !start_accept(pre, evse_id) {
        pre
    } else {
        EngineS {
            connectors: pre.connectors.update(evse_id as int - 1, ConnStatus::Occupied),
            transactions: pre.transactions.push(
                TransactionS { id: txn_id, evse_id, payload: raw_payload },
            ),
            queue: pre.queue + seq![
                call_entry(
                    sn_id,
                    "StatusNotification"@,
                    status_notification_payload(evse_id as nat, 1, ConnStatus::Occupied),
                ),
                call_entry(
                    ev1_id,
                    "TransactionEvent"@,
                    transaction_event_payload(
                        "Started"@,
                        "RemoteStart"@,
                        txn_id,
                        None,
                        Some(remote_start_id as nat),
                        None,
                    ),
                ),
                call_entry(
                    ev2_id,
                    "TransactionEvent"@,
                    transaction_event_payload(
                        "Updated"@,
                        "CablePluggedIn"@,
                        txn_id,
                        Some("Charging"@),
                        None,
                        None,
                    ),
                ),
            ],
            pending: pre.pending + seq![
                pending_of(sn_id, "StatusNotification"@),
                pending_of(ev1_id, "TransactionEvent"@),
                pending_of(ev2_id, "TransactionEvent"@),
            ],
            ..pre
        }
    }
}

/// The CallResult answering a RequestStartTransaction.
pub open spec fn start_reply(msg_id: Seq<char>, remote_start_id: u64, accepted: bool) -> Seq<
    char,
> {
    call_result_frame(msg_id, start_response_payload(remote_start_id as nat, accepted))
}

/// A stop request is accepted exactly when a transaction carries its id.
pub open spec fn stop_known(pre: EngineS, txn_id: Seq<char>) -> bool {
    find_txn(pre.transactions, txn_id) >= 0
}

/// State after an accepted RequestStopTransaction: the Updated and Ended
/// TransactionEvents queued in that order, the transaction record removed,
/// the transaction's connector available again and a StatusNotification
/// queued.  An unknown id changes nothing.
pub open spec fn stop_post(
    pre: EngineS,
    txn_id: Seq<char>,
    ev1_id: Seq<char>,
    ev2_id: Seq<char>,
    sn_id: Seq<char>,
) -> EngineS {
    if !stop_known(pre, txn_id) {
        pre
    } else {
        let i = find_txn(pre.transactions, txn_id);
        let evse_id = pre.transactions[i].evse_id;
        EngineS {
            transactions: pre.transactions.remove(i),
            connectors: if 1 <= evse_id <= pre.connectors.len() {
                pre.connectors.update(evse_id as int - 1, ConnStatus::Available)
            } else {
                pre.connectors
            },
            queue: pre.queue + seq![
                call_entry(
                    ev1_id,
                    "TransactionEvent"@,
                    transaction_event_payload(
                        "Updated"@,
                        "RemoteStop"@,
                        txn_id,
                        None,
                        None,
                        None,
                    ),
                ),
                call_entry(
                    ev2_id,
                    "TransactionEvent"@,
                    transaction_event_payload(
                        "Ended"@,
                        "RemoteStop"@,
                        txn_id,
                        None,
                        None,
                        Some("Remote"@),
                    ),
                ),
                call_entry(
                    sn_id,
                    "StatusNotification"@,
                    status_notification_payload(evse_id as nat, 1, ConnStatus::Available),
                ),
            ],
            pending: pre.pending + seq![
                pending_of(ev1_id, "TransactionEvent"@),
                pending_of(ev2_id, "TransactionEvent"@),
                pending_of(sn_id, "StatusNotification"@),
            ],
            ..pre
        }
    }
}

/// The CallResult answering a RequestStopTransaction.
pub open spec fn stop_reply(msg_id: Seq<char>, accepted: bool) -> Seq<char> {
    call_result_frame(msg_id, stop_response_payload(accepted))
}

/// Law: stopping a known transaction removes its record, so afterwards no
/// transaction carries the id.  Transaction ids are producer-generated
/// unique tokens, so the records' ids are pairwise distinct.
pub proof fn lemma_stop_removes_transaction(
    pre: EngineS,
    txn_id: Seq<char>,
    ev1_id: Seq<char>,
    ev2_id: Seq<char>,
    sn_id: Seq<char>,
)
    requires
        stop_known(pre, txn_id),
        forall|i: int, j: int|
            0 <= i < j < pre.transactions.len() ==> pre.transactions[i].id
                != pre.transactions[j].id,
    ensures
        !stop_known(stop_post(pre, txn_id, ev1_id, ev2_id, sn_id), txn_id),
{
    let i = find_txn(pre.transactions, txn_id);
    lemma_find_txn(pre.transactions, txn_id);
    let post = stop_post(pre, txn_id, ev1_id, ev2_id, sn_id);
    assert forall|k: int| 0 <= k < post.transactions.len() implies post.transactions[k].id
        != txn_id by {
        if k < i {
            assert(post.transactions[k] == pre.transactions[k]);
        } else {
            assert(post.transactions[k] == pre.transactions[k + 1]);
        }
    }
    lemma_find_txn(post.transactions, txn_id);
}

/// Law: stopping a known transaction frees its connector: where the
/// record's connector exists, it is available afterwards.
pub proof fn lemma_stop_frees_connector(
    pre: EngineS,
    txn_id: Seq<char>,
    ev1_id: Seq<char>,
    ev2_id: Seq<char>,
    sn_id: Seq<char>,
)
    requires
        stop_known(pre, txn_id),
        1 <= pre.transactions[find_txn(pre.transactions, txn_id)].evse_id
            <= pre.connectors.len(),
    ensures
        ({
            let evse_id = pre.transactions[find_txn(pre.transactions, txn_id)].evse_id;
            stop_post(pre, txn_id, ev1_id, ev2_id, sn_id).connectors[evse_id as int - 1]
                == ConnStatus::Available
        }),
{
    lemma_find_txn(pre.transactions, txn_id);
}

/// State after an accepted boot acknowledgement: the first connector
/// available, a StatusNotification queued, and the heartbeat interval
/// stored in milliseconds.
pub open spec fn boot_post(pre: EngineS, interval_s: u64, sn_id: Seq<char>) -> EngineS {
    EngineS {
        connectors: if pre.connectors.len() >= 1 {
            pre.connectors.update(0, ConnStatus::Available)
        } else {
            pre.connectors
        },
        queue: pre.queue.push(
            call_entry(
                sn_id,
                "StatusNotification"@,
                status_notification_payload(1, 1, ConnStatus::Available),
            ),
        ),
        pending: pre.pending.push(pending_of(sn_id, "StatusNotification"@)),
        heartbeat_interval_ms: Some((interval_s * 1000) as u64),
        ..pre
    }
}

/// The CallResult answering a SetVariables request: one classified item per
/// input item, in input order.
pub fn handle_set_variables(msg_id: &str, entries: &Vec<VarRef>) -> (reply: String)
    ensures
        reply@ == call_result_frame(
            msg_id@,
            set_variables_response_payload(var_refs_view(entries@)),
        ),
{
    let payload = build_set_variables_response_payload(entries);
    encode_call_result(msg_id, payload.as_str())
}

/// The CallResult answering a GetVariables request: one looked-up item per
/// input item, in input order.
pub fn handle_get_variables(msg_id: &str, entries: &Vec<VarRef>) -> (reply: String)
    ensures
        reply@ == call_result_frame(
            msg_id@,
            get_variables_response_payload(var_refs_view(entries@)),
        ),
{
    let payload = build_get_variables_response_payload(entries);
    encode_call_result(msg_id, payload.as_str())
}

impl Engine {
    /// Index of the first transaction carrying `id`.
    pub(crate) fn find_transaction(&self, id: &String) -> (r: Option<usize>)
        ensures
            match r {
                Some(i) => find_txn(self@.transactions, id@) == i as int,
                None => find_txn(self@.transactions, id@) == -1,
            },
    {
        let n = self.transactions.len();
        let mut i: usize = 0;
        while i < n
            invariant
                i <= n,
                n == self.transactions@.len(),
                forall|j: int| 0 <= j < i ==> self@.transactions[j].id != id@,
            decreases n - i,
        {
            if self.transactions[i].id == *id {
                proof {
                    lemma_find_txn_at(self@.transactions, id@, i as int);
                }
                return Some(i);
            }
            i += 1;
        }
        proof {
            lemma_find_txn(self@.transactions, id@);
        }
        None
    }

    /// Index of the first pending record carrying `id`.
    pub(crate) fn find_pending_record(&self, id: &String) -> (r: Option<usize>)
        ensures
            match r {
                Some(i) => find_pending(self@.pending, id@) == i as int,
                None => find_pending(self@.pending, id@) == -1,
            },
    {
        let n = self.pending.len();
        let mut i: usize = 0;
        while i < n
            invariant
                i <= n,
                n == self.pending@.len(),
                forall|j: int| 0 <= j < i ==> self@.pending[j].id != id@,
            decreases n - i,
        {
            if self.pending[i].id == *id {
                proof {
                    lemma_find_pending_at(self@.pending, id@, i as int);
                }
                return Some(i);
            }
            i += 1;
        }
        proof {
            lemma_find_pending(self@.pending, id@);
        }
        None
    }

    /// Handles a RequestStartTransaction Call whose fields are already
    /// decoded, with the four tokens of the messages it may produce.
    pub fn handle_request_start(
        &mut self,
        msg_id: &str,
        remote_start_id: u64,
        evse_id: u64,
        raw_payload: &str,
        txn_id: String,
        sn_id: String,
        ev1_id: String,
        ev2_id: String,
    ) -> (reply: String)
        requires
            wf_id(txn_id@),
            wf_id(sn_id@),
            wf_id(ev1_id@),
            wf_id(ev2_id@),
        ensures
            reply@ == start_reply(msg_id@, remote_start_id, start_accept(old(self)@, evse_id)),
            final(self)@ == start_post(
                old(self)@,
                remote_start_id,
                evse_id,
                raw_payload@,
                txn_id@,
                sn_id@,
                ev1_id@,
                ev2_id@,
            ),
    {
        let n = self.connectors.len();
        let accept = 1 <= evse_id && evse_id <= n as u64 && self.connectors[(evse_id - 1) as usize]
            == ConnStatus::Available;
        let resp = build_start_response_payload(remote_start_id, accept);
        let reply = encode_call_result(msg_id, resp.as_str());
        if accept {
            self.connectors.set((evse_id - 1) as usize, ConnStatus::Occupied);
            let sn_payload = build_status_notification_payload(evse_id, 1, ConnStatus::Occupied);
            self.enqueue_call(sn_id, "StatusNotification", sn_payload.as_str());
            let ev1_payload = build_transaction_event_payload(
                "Started",
                "RemoteStart",
                txn_id.as_str(),
                None,
                Some(remote_start_id),
                None,
            );
            self.enqueue_call(ev1_id, "TransactionEvent", ev1_payload.as_str());
            self.transactions.push(
                Transaction { id: txn_id.clone(), evse_id, payload: raw_payload.to_owned() },
            );
            let ev2_payload = build_transaction_event_payload(
                "Updated",
                "CablePluggedIn",
                txn_id.as_str(),
                Some("Charging"),
                None,
                None,
            );
            self.enqueue_call(ev2_id, "TransactionEvent", ev2_payload.as_str());
            proof {
                assert(self@.queue =~= start_post(
                    old(self)@,
                    remote_start_id,
                    evse_id,
                    raw_payload@,
                    txn_id@,
                    sn_id@,
                    ev1_id@,
                    ev2_id@,
                ).queue);
                assert(self@.pending =~= start_post(
                    old(self)@,
                    remote_start_id,
                    evse_id,
                    raw_payload@,
                    txn_id@,
                    sn_id@,
                    ev1_id@,
                    ev2_id@,
                ).pending);
                assert(self@.transactions =~= start_post(
                    old(self)@,
                    remote_start_id,
                    evse_id,
                    raw_payload@,
                    txn_id@,
                    sn_id@,
                    ev1_id@,
                    ev2_id@,
                ).transactions);
                assert(self@ =~= start_post(
                    old(self)@,
                    remote_start_id,
                    evse_id,
                    raw_payload@,
                    txn_id@,
                    sn_id@,
                    ev1_id@,
                    ev2_id@,
                ));
            }
        }
        reply
    }

    /// Handles a RequestStopTransaction Call whose transaction id is already
    /// decoded, with the three tokens of the messages it may produce.
    pub fn handle_request_stop(
        &mut self,
        msg_id: &str,
        txn_id: &String,
        ev1_id: String,
        ev2_id: String,
        sn_id: String,
    ) -> (reply: String)
        requires
            wf_id(ev1_id@),
            wf_id(ev2_id@),
            wf_id(sn_id@),
        ensures
            reply@ == stop_reply(msg_id@, stop_known(old(self)@, txn_id@)),
            final(self)@ == stop_post(old(self)@, txn_id@, ev1_id@, ev2_id@, sn_id@),
    {
        let found = self.find_transaction(txn_id);
        let resp = build_stop_response_payload(found.is_some());
        let reply = encode_call_result(msg_id, resp.as_str());
        match found {
            None => reply,
            Some(i) => {
                proof {
                    lemma_find_txn(old(self)@.transactions, txn_id@);
                }
                let ev1_payload = build_transaction_event_payload(
                    "Updated",
                    "RemoteStop",
                    txn_id.as_str(),
                    None,
                    None,
                    None,
                );
                self.enqueue_call(ev1_id, "TransactionEvent", ev1_payload.as_str());
                let ev2_payload = build_transaction_event_payload(
                    "Ended",
                    "RemoteStop",
                    txn_id.as_str(),
                    None,
                    None,
                    Some("Remote"),
                );
                self.enqueue_call(ev2_id, "TransactionEvent", ev2_payload.as_str());
                let evse_id = self.transactions[i].evse_id;
                let sn_payload = build_status_notification_payload(
                    evse_id,
                    1,
                    ConnStatus::Available,
                );
                self.enqueue_call(sn_id, "StatusNotification", sn_payload.as_str());
                self.transactions.remove(i);
                let nc = self.connectors.len();
                if 1 <= evse_id && evse_id <= nc as u64 {
                    self.connectors.set((evse_id - 1) as usize, ConnStatus::Available);
                }
                proof {
                    let post = stop_post(old(self)@, txn_id@, ev1_id@, ev2_id@, sn_id@);
                    assert(self@.queue =~= post.queue);
                    assert(self@.pending =~= post.pending);
                    assert(self@.transactions =~= post.transactions);
                    assert(self@ =~= post);
                }
                reply
            },
        }
    }

    /// Handles an accepted boot acknowledgement whose interval is already
    /// decoded, with the token of the StatusNotification it produces;
    /// returns the heartbeat interval to arm, in milliseconds.
    pub fn handle_boot_accepted(&mut self, interval_s: u64, sn_id: String) -> (interval_ms: u64)
        requires
            wf_id(sn_id@),
            interval_s <= u64::MAX / 1000,
        ensures
            interval_ms == interval_s * 1000,
            final(self)@ == boot_post(old(self)@, interval_s, sn_id@),
    {
        if self.connectors.len() >= 1 {
            self.connectors.set(0, ConnStatus::Available);
        }
        let sn_payload = build_status_notification_payload(1, 1, ConnStatus::Available);
        self.enqueue_call(sn_id, "StatusNotification", sn_payload.as_str());
        self.heartbeat_interval_ms = Some(interval_s * 1000);
        proof {
            assert(self@ =~= boot_post(old(self)@, interval_s, sn_id@));
        }
        interval_s * 1000
    }
}

} // verus!
