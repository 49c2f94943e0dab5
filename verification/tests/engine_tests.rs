use ocpp_station::codec::{decode, Frame};
use ocpp_station::config::{model_or_default, subprotocol, vendor_or_default};
use ocpp_station::engine::Engine;
use ocpp_station::payloads::ConnStatus;
use ocpp_station::router::{FreshIds, OutcomeKind};

fn token(n: u32) -> String {
    format!("00000000-0000-4000-8000-0000000{:05}", n)
}

fn ids(base: u32) -> FreshIds {
    FreshIds { a: token(base), b: token(base + 1), c: token(base + 2), d: token(base + 3) }
}

fn start_payload() -> String {
    "{\"remoteStartId\":7,\"evseId\":1}".to_string()
}

fn started_engine() -> Engine {
    let mut eng = Engine::new(1);
    let reply = eng.handle_request_start(
        "m1",
        7,
        1,
        &start_payload(),
        token(1),
        token(2),
        token(3),
        token(4),
    );
    assert_eq!(reply, "[3,\"m1\",{\"remoteStartId\":7,\"status\":\"Accepted\"}]");
    eng
}

#[test]
fn queue_first_tick_transmits_head() {
    let mut eng = Engine::new(1);
    eng.open_session("ModelX", "VendorY", &None);
    assert_eq!(eng.queue.len(), 1);
    let boot_id = eng.queue[0].id.clone();
    let sent = eng.queue_tick(100).expect("gate open with no last-sent record");
    assert_eq!(sent.action, "BootNotification");
    assert_eq!(sent.id, boot_id);
    assert_eq!(
        sent.body,
        format!(
            "[2,\"{}\",\"BootNotification\",{{\"reason\":\"PowerUp\",\"chargingStation\":{{\"model\":\"ModelX\",\"vendorName\":\"VendorY\"}}}}]",
            boot_id
        )
    );
    assert_eq!(eng.queue.len(), 0);
    let last = eng.last_sent.as_ref().expect("last sent recorded");
    assert_eq!(last.id, boot_id);
    assert_eq!(last.timestamp, 100);
}

#[test]
fn queue_gate_blocks_until_expiry() {
    let mut eng = Engine::new(1);
    eng.open_session("A", "B", &None);
    eng.open_session("A", "B", &None);
    assert!(eng.queue_tick(100).is_some());
    assert_eq!(eng.queue.len(), 1);
    assert!(eng.queue_tick(105).is_none());
    assert!(eng.queue_tick(109).is_none());
    assert_eq!(eng.queue.len(), 1);
    let sent = eng.queue_tick(110).expect("expiry window elapsed");
    assert_eq!(sent.action, "BootNotification");
    assert_eq!(eng.queue.len(), 0);
    assert_eq!(eng.last_sent.as_ref().unwrap().timestamp, 110);
}

#[test]
fn empty_queue_tick_does_nothing() {
    let mut eng = Engine::new(1);
    assert!(eng.queue_tick(100).is_none());
    assert!(eng.last_sent.is_none());
}

#[test]
fn start_on_available_connector() {
    let eng = started_engine();
    assert_eq!(eng.connectors[0], ConnStatus::Occupied);
    assert_eq!(eng.queue.len(), 3);
    assert_eq!(eng.queue[0].action, "StatusNotification");
    assert_eq!(eng.queue[1].action, "TransactionEvent");
    assert_eq!(eng.queue[2].action, "TransactionEvent");
    assert_eq!(
        eng.queue[0].body,
        format!(
            "[2,\"{}\",\"StatusNotification\",{{\"evseId\":1,\"connectorId\":1,\"connectorStatus\":\"Occupied\"}}]",
            token(2)
        )
    );
    assert_eq!(
        eng.queue[1].body,
        format!(
            "[2,\"{}\",\"TransactionEvent\",{{\"eventType\":\"Started\",\"triggerReason\":\"RemoteStart\",\"transactionId\":\"{}\",\"remoteStartId\":7}}]",
            token(3),
            token(1)
        )
    );
    assert_eq!(
        eng.queue[2].body,
        format!(
            "[2,\"{}\",\"TransactionEvent\",{{\"eventType\":\"Updated\",\"triggerReason\":\"CablePluggedIn\",\"transactionId\":\"{}\",\"chargingState\":\"Charging\"}}]",
            token(4),
            token(1)
        )
    );
    assert_eq!(eng.transactions.len(), 1);
    assert_eq!(eng.transactions[0].id, token(1));
    assert_eq!(eng.transactions[0].evse_id, 1);
    assert_eq!(eng.transactions[0].payload, start_payload());
    assert_eq!(eng.pending.len(), 3);
}

#[test]
fn start_on_occupied_connector() {
    let mut eng = started_engine();
    let reply = eng.handle_request_start(
        "m2",
        8,
        1,
        &"{\"remoteStartId\":8,\"evseId\":1}".to_string(),
        token(11),
        token(12),
        token(13),
        token(14),
    );
    assert_eq!(reply, "[3,\"m2\",{\"remoteStartId\":8,\"status\":\"Rejected\"}]");
    assert_eq!(eng.connectors[0], ConnStatus::Occupied);
    assert_eq!(eng.queue.len(), 3);
    assert_eq!(eng.transactions.len(), 1);
}

#[test]
fn start_on_missing_connector() {
    let mut eng = Engine::new(1);
    let reply = eng.handle_request_start(
        "m3",
        9,
        2,
        &"{\"remoteStartId\":9,\"evseId\":2}".to_string(),
        token(21),
        token(22),
        token(23),
        token(24),
    );
    assert_eq!(reply, "[3,\"m3\",{\"remoteStartId\":9,\"status\":\"Rejected\"}]");
    assert_eq!(eng.queue.len(), 0);
    assert_eq!(eng.transactions.len(), 0);
}

#[test]
fn stop_with_unknown_transaction() {
    let mut eng = started_engine();
    let reply = eng.handle_request_stop(
        "m4",
        &"not-a-known-token".to_string(),
        token(31),
        token(32),
        token(33),
    );
    assert_eq!(reply, "[3,\"m4\",{\"status\":\"Rejected\"}]");
    assert_eq!(eng.queue.len(), 3);
    assert_eq!(eng.transactions.len(), 1);
    assert_eq!(eng.connectors[0], ConnStatus::Occupied);
}

#[test]
fn stop_with_known_transaction() {
    let mut eng = started_engine();
    let reply = eng.handle_request_stop("m5", &token(1), token(31), token(32), token(33));
    assert_eq!(reply, "[3,\"m5\",{\"status\":\"Accepted\"}]");
    assert_eq!(eng.transactions.len(), 0);
    assert_eq!(eng.connectors[0], ConnStatus::Available);
    assert_eq!(eng.queue.len(), 6);
    assert_eq!(
        eng.queue[3].body,
        format!(
            "[2,\"{}\",\"TransactionEvent\",{{\"eventType\":\"Updated\",\"triggerReason\":\"RemoteStop\",\"transactionId\":\"{}\"}}]",
            token(31),
            token(1)
        )
    );
    assert_eq!(
        eng.queue[4].body,
        format!(
            "[2,\"{}\",\"TransactionEvent\",{{\"eventType\":\"Ended\",\"triggerReason\":\"RemoteStop\",\"transactionId\":\"{}\",\"stoppedReason\":\"Remote\"}}]",
            token(32),
            token(1)
        )
    );
    assert_eq!(
        eng.queue[5].body,
        format!(
            "[2,\"{}\",\"StatusNotification\",{{\"evseId\":1,\"connectorId\":1,\"connectorStatus\":\"Available\"}}]",
            token(33)
        )
    );
}

#[test]
fn boot_acceptance_and_heartbeat() {
    let mut eng = Engine::new(1);
    eng.open_session("M", "V", &Some("SN-1".to_string()));
    let boot_id = eng.pending[0].id.clone();
    assert_eq!(boot_id.len(), 36);
    assert!(eng.queue[0].body.contains("\"serialNumber\":\"SN-1\""));
    let raw = format!("[3,\"{}\",{{\"status\":\"Accepted\",\"interval\":30}}]", boot_id);
    let out = eng.on_frame(&raw);
    assert_eq!(out.kind, OutcomeKind::ResultHandled);
    assert!(out.reply.is_none());
    assert_eq!(out.arm_heartbeat_ms, Some(30000));
    assert_eq!(eng.heartbeat_interval_ms, Some(30000));
    assert_eq!(eng.connectors[0], ConnStatus::Available);
    assert_eq!(eng.queue.len(), 2);
    assert_eq!(eng.queue[1].action, "StatusNotification");

    let interval = eng.heartbeat_tick();
    assert_eq!(interval, 30000);
    assert_eq!(eng.queue.len(), 3);
    assert_eq!(eng.queue[2].action, "Heartbeat");
    let hb_id = eng.queue[2].id.clone();
    assert_eq!(eng.queue[2].body, format!("[2,\"{}\",\"Heartbeat\",{{}}]", hb_id));
}

#[test]
fn boot_rejection_changes_nothing() {
    let mut eng = Engine::new(1);
    eng.open_session("M", "V", &None);
    let boot_id = eng.pending[0].id.clone();
    let raw = format!("[3,\"{}\",{{\"status\":\"Pending\",\"interval\":600}}]", boot_id);
    let out = eng.on_frame(&raw);
    assert_eq!(out.kind, OutcomeKind::ResultIgnored);
    assert_eq!(eng.heartbeat_interval_ms, None);
    assert_eq!(eng.queue.len(), 1);
}

#[test]
fn set_variables_classification() {
    let mut eng = Engine::new(1);
    let raw = "[2,\"m9\",\"SetVariables\",{\"setVariableData\":[{\"component\":\"AuthCtrlr\",\"variable\":{\"name\":\"AuthorizeRemoteStart\"}},{\"component\":\"AuthCtrlr\",\"variable\":{\"name\":\"Unknown\"}},{\"component\":\"Other\",\"variable\":{\"name\":\"X\"}}]}]";
    let out = eng.on_frame_with_ids(raw, ids(40));
    assert_eq!(out.kind, OutcomeKind::CallHandled);
    let reply = out.reply.expect("a SetVariables reply");
    assert_eq!(
        reply,
        "[3,\"m9\",{\"setVariableResult\":[{\"component\":\"AuthCtrlr\",\"variable\":{\"name\":\"AuthorizeRemoteStart\"},\"attributeStatus\":\"Rejected\"},{\"component\":\"AuthCtrlr\",\"variable\":{\"name\":\"Unknown\"},\"attributeStatus\":\"UnknownVariable\"},{\"component\":\"Other\",\"variable\":{\"name\":\"X\"},\"attributeStatus\":\"UnknownComponent\"}]}]"
    );
    assert_eq!(eng.queue.len(), 0);
}

#[test]
fn get_variables_lookup() {
    let mut eng = Engine::new(1);
    let raw = "[2,\"m10\",\"GetVariables\",{\"getVariableData\":[{\"component\":\"AuthCtrlr\",\"variable\":{\"name\":\"AuthorizeRemoteStart\"}},{\"component\":\"Other\",\"variable\":{\"name\":\"X\"}}]}]";
    let out = eng.on_frame_with_ids(raw, ids(50));
    assert_eq!(out.kind, OutcomeKind::CallHandled);
    assert_eq!(
        out.reply.expect("a GetVariables reply"),
        "[3,\"m10\",{\"getVariableResult\":[{\"attributeStatus\":\"Accepted\",\"component\":\"AuthCtrlr\",\"variable\":{\"name\":\"AuthorizeRemoteStart\"},\"attributeValue\":\"false\"},{\"attributeStatus\":\"UnknownComponent\",\"component\":\"Other\",\"variable\":{\"name\":\"X\"}}]}]"
    );
}

#[test]
fn start_through_router() {
    let mut eng = Engine::new(1);
    let raw = "[2,\"m11\",\"RequestStartTransaction\",{\"remoteStartId\":7,\"evseId\":1}]";
    let out = eng.on_frame_with_ids(raw, ids(60));
    assert_eq!(out.kind, OutcomeKind::CallHandled);
    assert_eq!(
        out.reply.expect("a start reply"),
        "[3,\"m11\",{\"remoteStartId\":7,\"status\":\"Accepted\"}]"
    );
    assert_eq!(eng.connectors[0], ConnStatus::Occupied);
    assert_eq!(eng.queue.len(), 3);
}

#[test]
fn missing_mandatory_field_fails_the_frame_only() {
    let mut eng = Engine::new(1);
    let raw = "[2,\"m12\",\"RequestStartTransaction\",{\"remoteStartId\":7}]";
    let out = eng.on_frame_with_ids(raw, ids(70));
    assert_eq!(out.kind, OutcomeKind::DecodeFailed);
    assert!(out.reply.is_none());
    assert_eq!(eng.queue.len(), 0);
    assert_eq!(eng.connectors[0], ConnStatus::Available);
}

#[test]
fn router_outcome_kinds() {
    let mut eng = Engine::new(1);
    assert_eq!(eng.on_frame("not a frame").kind, OutcomeKind::DecodeFailed);
    assert_eq!(eng.on_frame("[3,\"zz\",{}]").kind, OutcomeKind::StaleResult);
    assert_eq!(eng.on_frame("[2,\"m\",\"Reset\",{}]").kind, OutcomeKind::UnknownAction);
    assert_eq!(
        eng.on_frame("[4,\"m\",\"InternalError\",\"boom\",{}]").kind,
        OutcomeKind::ErrorNoted,
    );
    eng.handle_request_start("m", 7, 1, &start_payload(), token(1), token(2), token(3), token(4));
    let raw = format!("[3,\"{}\",{{}}]", token(2));
    assert_eq!(eng.on_frame(&raw).kind, OutcomeKind::UnknownResponse);
}

#[test]
fn start_through_router_with_whitespace() {
    let mut eng = Engine::new(1);
    let raw = "[2, \"m13\", \"RequestStartTransaction\", { \"evseId\" : 1 , \"remoteStartId\" : 7 }]";
    let out = eng.on_frame_with_ids(raw, ids(80));
    assert_eq!(out.kind, OutcomeKind::CallHandled);
    assert_eq!(
        out.reply.expect("a start reply"),
        "[3,\"m13\",{\"remoteStartId\":7,\"status\":\"Accepted\"}]"
    );
    assert_eq!(eng.connectors[0], ConnStatus::Occupied);
    assert_eq!(eng.queue.len(), 3);
}

#[test]
fn stop_with_numeric_transaction_id() {
    let mut eng = Engine::new(1);
    let raw = "[2,\"m14\",\"RequestStopTransaction\",{\"transactionId\":9}]";
    let out = eng.on_frame_with_ids(raw, ids(90));
    assert_eq!(out.kind, OutcomeKind::CallHandled);
    assert_eq!(out.reply.expect("a stop reply"), "[3,\"m14\",{\"status\":\"Rejected\"}]");
    assert_eq!(eng.queue.len(), 0);
}

#[test]
fn boot_rejection_without_interval() {
    let mut eng = Engine::new(1);
    eng.open_session("M", "V", &None);
    let boot_id = eng.pending[0].id.clone();
    let raw = format!("[3,\"{}\",{{\"status\":\"Rejected\"}}]", boot_id);
    let out = eng.on_frame(&raw);
    assert_eq!(out.kind, OutcomeKind::ResultIgnored);
    assert_eq!(eng.heartbeat_interval_ms, None);
}

#[test]
fn boot_acceptance_without_interval_fails_the_frame() {
    let mut eng = Engine::new(1);
    eng.open_session("M", "V", &None);
    let boot_id = eng.pending[0].id.clone();
    let raw = format!("[3,\"{}\",{{\"status\":\"Accepted\"}}]", boot_id);
    let out = eng.on_frame(&raw);
    assert_eq!(out.kind, OutcomeKind::DecodeFailed);
    assert_eq!(eng.heartbeat_interval_ms, None);
    assert_eq!(eng.queue.len(), 1);
}

#[test]
fn call_error_fields_are_reported() {
    let mut eng = Engine::new(1);
    let out = eng.on_frame("[4,\"m15\",\"InternalError\",\"boom\",{\"detail\":1}]");
    assert_eq!(out.kind, OutcomeKind::ErrorNoted);
    let err = out.error.expect("the error fields");
    assert_eq!(err.code, "InternalError");
    assert_eq!(err.description, "boom");
    assert_eq!(err.details, "{\"detail\":1}");
}

#[test]
fn config_defaults() {
    assert_eq!(subprotocol(), "ocpp2.0");
    assert_eq!(model_or_default(None), "Model");
    assert_eq!(model_or_default(Some("".to_string())), "Model");
    assert_eq!(model_or_default(Some("M3".to_string())), "M3");
    assert_eq!(vendor_or_default(None), "Vendor name");
    assert_eq!(vendor_or_default(Some("".to_string())), "Vendor name");
    assert_eq!(vendor_or_default(Some("ACME".to_string())), "ACME");
}

#[test]
fn queued_frames_decode_back() {
    let mut eng = Engine::new(1);
    eng.open_session("M", "V", &None);
    match decode(&eng.queue[0].body) {
        Some(Frame::Call { id, action, payload }) => {
            assert_eq!(id, eng.queue[0].id);
            assert_eq!(action, "BootNotification");
            assert!(payload.starts_with('{'));
        },
        _ => panic!("a queued frame must decode back to its Call"),
    }
}

#[test]
fn tick_now_uses_the_clock() {
    let mut eng = Engine::new(1);
    eng.open_session("M", "V", &None);
    let sent = eng.tick_now().expect("first tick transmits the head");
    assert_eq!(sent.action, "BootNotification");
    assert!(eng.last_sent.is_some());
    assert!(eng.tick_now().is_none());
}

#[test]
fn generated_tokens_are_well_formed() {
    let mut eng = Engine::new(1);
    eng.open_session("M", "V", &None);
    let id = &eng.pending[0].id;
    assert_eq!(id.len(), 36);
    assert!(id.chars().all(|c| c == '-' || c.is_ascii_hexdigit()));
    assert!(id.chars().all(|c| !c.is_ascii_uppercase()));
}
