use ocpp_station::codec::{decode, encode_call, encode_call_result, Frame};
use ocpp_station::parse::{
    parse_boot_interval, parse_boot_status, parse_get_variables_payload,
    parse_set_variables_payload, parse_start_payload, parse_stop_payload,
};

#[test]
fn encode_call_exact() {
    let s = encode_call("a", "Heartbeat", "{}");
    assert_eq!(s, "[2,\"a\",\"Heartbeat\",{}]");
}

#[test]
fn encode_call_result_exact() {
    let s = encode_call_result("m1", "{\"status\":\"Accepted\"}");
    assert_eq!(s, "[3,\"m1\",{\"status\":\"Accepted\"}]");
}

#[test]
fn call_round_trip() {
    let raw = encode_call("token-17", "RequestStartTransaction", "{\"remoteStartId\":5,\"evseId\":1}");
    match decode(&raw) {
        Some(Frame::Call { id, action, payload }) => {
            assert_eq!(id, "token-17");
            assert_eq!(action, "RequestStartTransaction");
            assert_eq!(payload, "{\"remoteStartId\":5,\"evseId\":1}");
        },
        _ => panic!("expected a Call frame"),
    }
}

#[test]
fn decode_call_result() {
    match decode("[3,\"abc\",{\"status\":\"Accepted\",\"interval\":30}]") {
        Some(Frame::CallResult { id, payload }) => {
            assert_eq!(id, "abc");
            assert_eq!(payload, "{\"status\":\"Accepted\",\"interval\":30}");
        },
        _ => panic!("expected a CallResult frame"),
    }
}

#[test]
fn decode_call_error() {
    match decode("[4,\"abc\",\"NotImplemented\",\"no such action\",{}]") {
        Some(Frame::CallError { id, code, description, details }) => {
            assert_eq!(id, "abc");
            assert_eq!(code, "NotImplemented");
            assert_eq!(description, "no such action");
            assert_eq!(details, "{}");
        },
        _ => panic!("expected a CallError frame"),
    }
}

#[test]
fn decode_accepts_whitespace() {
    match decode("  [ 2 , \"id-1\" , \"Heartbeat\" , {} ]  ") {
        Some(Frame::Call { id, action, payload }) => {
            assert_eq!(id, "id-1");
            assert_eq!(action, "Heartbeat");
            assert_eq!(payload, " {} ");
        },
        _ => panic!("expected a Call frame"),
    }
    match decode("[3, \"abc\", {\"status\":\"Accepted\"}]") {
        Some(Frame::CallResult { id, payload }) => {
            assert_eq!(id, "abc");
            assert_eq!(payload, " {\"status\":\"Accepted\"}");
        },
        _ => panic!("expected a CallResult frame"),
    }
}

#[test]
fn decode_rejects_malformed() {
    assert!(decode("").is_none());
    assert!(decode("hello").is_none());
    assert!(decode("[9,\"x\",{}]").is_none());
    assert!(decode("[2,\"x\"]").is_none());
    assert!(decode("[2,\"x\",\"A\",{}").is_none());
}

#[test]
fn parse_start_fields() {
    assert_eq!(parse_start_payload("{\"remoteStartId\":5,\"evseId\":1}"), Some((5, 1)));
    assert_eq!(parse_start_payload("{\"remoteStartId\":123456789,\"evseId\":42}"), Some((123456789, 42)));
    assert_eq!(parse_start_payload("{\"evseId\":1,\"remoteStartId\":5}"), Some((5, 1)));
    assert_eq!(parse_start_payload("{ \"remoteStartId\" : 5 , \"evseId\" : 1 }"), Some((5, 1)));
    assert_eq!(
        parse_start_payload("{\"groupIdToken\":\"g\",\"remoteStartId\":5,\"evseId\":1}"),
        Some((5, 1)),
    );
    assert_eq!(parse_start_payload("{\"remoteStartId\":5}"), None);
    assert_eq!(parse_start_payload("{\"evseId\":1}"), None);
    assert_eq!(parse_start_payload("{}"), None);
}

#[test]
fn parse_stop_field() {
    assert_eq!(parse_stop_payload("{\"transactionId\":\"t-9\"}"), Some("t-9".to_string()));
    assert_eq!(parse_stop_payload("{\"transactionId\":9}"), Some("9".to_string()));
    assert_eq!(parse_stop_payload("{ \"transactionId\" : \"t-9\" }"), Some("t-9".to_string()));
    assert_eq!(parse_stop_payload("{}"), None);
}

#[test]
fn parse_boot_result_fields() {
    let p = "{\"status\":\"Accepted\",\"interval\":30}";
    assert_eq!(parse_boot_status(p), Some("Accepted".to_string()));
    assert_eq!(parse_boot_interval(p), Some(30));
    let q = "{\"interval\": 600, \"status\": \"Pending\"}";
    assert_eq!(parse_boot_status(q), Some("Pending".to_string()));
    assert_eq!(parse_boot_interval(q), Some(600));
    assert_eq!(parse_boot_status("{\"interval\":30}"), None);
    assert_eq!(parse_boot_interval("{\"status\":\"Accepted\"}"), None);
}

#[test]
fn parse_set_variables_items() {
    let p = "{\"setVariableData\":[{\"component\":\"AuthCtrlr\",\"variable\":{\"name\":\"AuthorizeRemoteStart\"}},{\"component\":\"Other\",\"variable\":{\"name\":\"X\"}}]}";
    let items = parse_set_variables_payload(p).expect("two items");
    assert_eq!(items.len(), 2);
    assert_eq!(items[0].component, "AuthCtrlr");
    assert_eq!(items[0].variable, "AuthorizeRemoteStart");
    assert_eq!(items[1].component, "Other");
    assert_eq!(items[1].variable, "X");
    assert_eq!(parse_set_variables_payload("{\"setVariableData\":[]}").map(|v| v.len()), Some(0));
    assert_eq!(parse_set_variables_payload("{ \"setVariableData\" : [ ] }").map(|v| v.len()), Some(0));
    assert!(parse_set_variables_payload("{\"setVariableData\":").is_none());
    let ws = "{ \"setVariableData\" : [ {\"variable\":{\"name\":\"N\"},\"component\":\"C\"} ] }";
    let items = parse_set_variables_payload(ws).expect("one item with spaces and swapped keys");
    assert_eq!(items.len(), 1);
    assert_eq!(items[0].component, "C");
    assert_eq!(items[0].variable, "N");
}

#[test]
fn parse_get_variables_items() {
    let p = "{\"getVariableData\":[{\"component\":\"AuthCtrlr\",\"variable\":{\"name\":\"AuthorizeRemoteStart\"}}]}";
    let items = parse_get_variables_payload(p).expect("one item");
    assert_eq!(items.len(), 1);
    assert_eq!(items[0].component, "AuthCtrlr");
}
