//! Payload shapes of the supported actions: builders for every outbound
//! payload and parsers for the fields the handlers read from inbound ones.

use vstd::prelude::*;
use crate::numbers::{dec, u64_to_dec};

verus! {

/// Availability of a connector.
#[derive(Clone, Copy, PartialEq, Eq, Structural, Debug)]
pub enum ConnStatus {
    Available,
    Occupied,
}

pub open spec fn conn_status_name(s: ConnStatus) -> Seq<char> {
    match s {
        ConnStatus::Available => "Available"@,
        ConnStatus::Occupied => "Occupied"@,
    }
}

pub fn conn_status_str(s: ConnStatus) -> (r: &'static str)
    ensures
        r@ == conn_status_name(s),
{
    match s {
        ConnStatus::Available => "Available",
        ConnStatus::Occupied => "Occupied",
    }
}

/// Per-item outcome of a SetVariables request.
#[derive(Clone, Copy, PartialEq, Eq, Structural, Debug)]
pub enum SetVarStatus {
    Rejected,
    UnknownVariable,
    UnknownComponent,
}

pub open spec fn set_var_status_name(s: SetVarStatus) -> Seq<char> {
    match s {
        SetVarStatus::Rejected => "Rejected"@,
        SetVarStatus::UnknownVariable => "UnknownVariable"@,
        SetVarStatus::UnknownComponent => "UnknownComponent"@,
    }
}

pub fn set_var_status_str(s: SetVarStatus) -> (r: &'static str)
    ensures
        r@ == set_var_status_name(s),
{
    match s {
        SetVarStatus::Rejected => "Rejected",
        SetVarStatus::UnknownVariable => "UnknownVariable",
        SetVarStatus::UnknownComponent => "UnknownComponent",
    }
}

/// Per-item outcome of a GetVariables request.
#[derive(Clone, Copy, PartialEq, Eq, Structural, Debug)]
pub enum GetVarStatus {
    Accepted,
    UnknownVariable,
    UnknownComponent,
}

pub open spec fn get_var_status_name(s: GetVarStatus) -> Seq<char> {
    match s {
        GetVarStatus::Accepted => "Accepted"@,
        GetVarStatus::UnknownVariable => "UnknownVariable"@,
        GetVarStatus::UnknownComponent => "UnknownComponent"@,
    }
}

pub fn get_var_status_str(s: GetVarStatus) -> (r: &'static str)
    ensures
        r@ == get_var_status_name(s),
{
    match s {
        GetVarStatus::Accepted => "Accepted",
        GetVarStatus::UnknownVariable => "UnknownVariable",
        GetVarStatus::UnknownComponent => "UnknownComponent",
    }
}

/// A component/variable pair named by a SetVariables or GetVariables item.
pub struct VarRef {
    pub component: String,
    pub variable: String,
}

pub struct VarRefS {
    pub component: Seq<char>,
    pub variable: Seq<char>,
}

impl View for VarRef {
    type V = VarRefS;

    open spec fn view(&self) -> VarRefS {
        VarRefS { component: self.component@, variable: self.variable@ }
    }
}

pub open spec fn var_refs_view(v: Seq<VarRef>) -> Seq<VarRefS> {
    v.map_values(|x: VarRef| x@)
}

/// Classification of a SetVariables item by the capability table: the one
/// known capability is writable in principle but not permitted, every other
/// name is unknown at the variable or the component level.
pub open spec fn classify_set(component: Seq<char>, variable: Seq<char>) -> SetVarStatus {
    if component == "AuthCtrlr"@ {
        if variable == "AuthorizeRemoteStart"@ {
            SetVarStatus::Rejected
        } else {
            SetVarStatus::UnknownVariable
        }
    } else {
        SetVarStatus::UnknownComponent
    }
}

pub fn classify_set_exec(component: &String, variable: &String) -> (r: SetVarStatus)
    ensures
        r == classify_set(component@, variable@),
{
    let known_component = String::from_str("AuthCtrlr");
    let known_variable = String::from_str("AuthorizeRemoteStart");
    if *component == known_component {
        if *variable == known_variable {
            SetVarStatus::Rejected
        } else {
            SetVarStatus::UnknownVariable
        }
    } else {
        SetVarStatus::UnknownComponent
    }
}

/// Capability table lookup for GetVariables: status of the pair and, where
/// the variable is known, its reported value.
pub open spec fn lookup_variable(component: Seq<char>, variable: Seq<char>) -> (
    GetVarStatus,
    Option<Seq<char>>,
) {
    if component == "AuthCtrlr"@ {
        if variable == "AuthorizeRemoteStart"@ {
            (GetVarStatus::Accepted, Some("false"@))
        } else {
            (GetVarStatus::UnknownVariable, None)
        }
    } else {
        (GetVarStatus::UnknownComponent, None)
    }
}

pub fn lookup_variable_exec(component: &String, variable: &String) -> (r: (
    GetVarStatus,
    Option<String>,
))
    ensures
        r.0 == lookup_variable(component@, variable@).0,
        match r.1 {
            Some(v) => lookup_variable(component@, variable@).1 == Some(v@),
            None => lookup_variable(component@, variable@).1 is None,
        },
{
    let known_component = String::from_str("AuthCtrlr");
    let known_variable = String::from_str("AuthorizeRemoteStart");
    if *component == known_component {
        if *variable == known_variable {
            (GetVarStatus::Accepted, Some(String::from_str("false")))
        } else {
            (GetVarStatus::UnknownVariable, None)
        }
    } else {
        (GetVarStatus::UnknownComponent, None)
    }
}

// ---------------------------------------------------------------------------
// Outbound payload builders.
// ---------------------------------------------------------------------------

/// BootNotification request payload.
pub open spec fn boot_payload(
    model: Seq<char>,
    vendor: Seq<char>,
    serial: Option<Seq<char>>,
) -> Seq<char> {
    "{\"reason\":\"PowerUp\",\"chargingStation\":{\"model\":\""@ + model + "\",\"vendorName\":\""@
        + vendor + (match serial {
        Some(s) => "\",\"serialNumber\":\""@ + s,
        None => Seq::<char>::empty(),
    }) + "\"}}"@
}

pub fn build_boot_payload(model: &str, vendor: &str, serial: &Option<String>) -> (r: String)
    ensures
        r@ == boot_payload(model@, vendor@, match serial {
            Some(s) => Some(s@),
            None => None,
        }),
{
    let mut s = String::from_str("{\"reason\":\"PowerUp\",\"chargingStation\":{\"model\":\"");
    s.append(model);
    s.append("\",\"vendorName\":\"");
    s.append(vendor);
    match serial {
        Some(sn) => {
            s.append("\",\"serialNumber\":\"");
            s.append(sn.as_str());
        },
        None => {},
    }
    s.append("\"}}");
    proof {
        assert(s@ =~= boot_payload(model@, vendor@, match serial {
            Some(sn) => Some(sn@),
            None => None,
        }));
    }
    s
}

/// Heartbeat request payload.
pub open spec fn heartbeat_payload() -> Seq<char> {
    "{}"@
}

pub fn build_heartbeat_payload() -> (r: String)
    ensures
        r@ == heartbeat_payload(),
{
    String::from_str("{}")
}

/// StatusNotification request payload.
pub open spec fn status_notification_payload(
    evse_id: nat,
    connector_id: nat,
    status: ConnStatus,
) -> Seq<char> {
    "{\"evseId\":"@ + dec(evse_id) + ",\"connectorId\":"@ + dec(connector_id)
        + ",\"connectorStatus\":\""@ + conn_status_name(status) + "\"}"@
}

pub fn build_status_notification_payload(evse_id: u64, connector_id: u64, status: ConnStatus) -> (r:
    String)
    ensures
        r@ == status_notification_payload(evse_id as nat, connector_id as nat, status),
{
    let mut s = String::from_str("{\"evseId\":");
    s.append(u64_to_dec(evse_id).as_str());
    s.append(",\"connectorId\":");
    s.append(u64_to_dec(connector_id).as_str());
    s.append(",\"connectorStatus\":\"");
    s.append(conn_status_str(status));
    s.append("\"}");
    proof {
        assert(s@ =~= status_notification_payload(evse_id as nat, connector_id as nat, status));
    }
    s
}

/// TransactionEvent request payload.  The optional parts stand, where
/// present, in the fixed order charging state, remote start id, stopped
/// reason.
pub open spec fn transaction_event_payload(
    event: Seq<char>,
    trigger: Seq<char>,
    transaction_id: Seq<char>,
    charging_state: Option<Seq<char>>,
    remote_start_id: Option<nat>,
    stopped_reason: Option<Seq<char>>,
) -> Seq<char> {
    "{\"eventType\":\""@ + event + "\",\"triggerReason\":\""@ + trigger
        + "\",\"transactionId\":\""@ + transaction_id + "\""@ + (match charging_state {
        Some(c) => ",\"chargingState\":\""@ + c + "\""@,
        None => Seq::<char>::empty(),
    }) + (match remote_start_id {
        Some(n) => ",\"remoteStartId\":"@ + dec(n),
        None => Seq::<char>::empty(),
    }) + (match stopped_reason {
        Some(rr) => ",\"stoppedReason\":\""@ + rr + "\""@,
        None => Seq::<char>::empty(),
    }) + "}"@
}

pub fn build_transaction_event_payload(
    event: &str,
    trigger: &str,
    transaction_id: &str,
    charging_state: Option<&str>,
    remote_start_id: Option<u64>,
    stopped_reason: Option<&str>,
) -> (r: String)
    ensures
        r@ == transaction_event_payload(
            event@,
            trigger@,
            transaction_id@,
            match charging_state {
                Some(c) => Some(c@),
                None => None,
            },
            match remote_start_id {
                Some(n) => Some(n as nat),
                None => None,
            },
            match stopped_reason {
                Some(rr) => Some(rr@),
                None => None,
            },
        ),
{
    let mut s = String::from_str("{\"eventType\":\"");
    s.append(event);
    s.append("\",\"triggerReason\":\"");
    s.append(trigger);
    s.append("\",\"transactionId\":\"");
    s.append(transaction_id);
    s.append("\"");
    match charging_state {
        Some(c) => {
            s.append(",\"chargingState\":\"");
            s.append(c);
            s.append("\"");
        },
        None => {},
    }
    match remote_start_id {
        Some(n) => {
            s.append(",\"remoteStartId\":");
            s.append(u64_to_dec(n).as_str());
        },
        None => {},
    }
    match stopped_reason {
        Some(rr) => {
            s.append(",\"stoppedReason\":\"");
            s.append(rr);
            s.append("\"");
        },
        None => {},
    }
    s.append("}");
    proof {
        assert(s@ =~= transaction_event_payload(
            event@,
            trigger@,
            transaction_id@,
            match charging_state {
                Some(c) => Some(c@),
                None => None,
            },
            match remote_start_id {
                Some(n) => Some(n as nat),
                None => None,
            },
            match stopped_reason {
                Some(rr) => Some(rr@),
                None => None,
            },
        ));
    }
    s
}

/// RequestStartTransaction response payload.
pub open spec fn start_response_payload(remote_start_id: nat, accepted: bool) -> Seq<char> {
    "{\"remoteStartId\":"@ + dec(remote_start_id) + ",\"status\":\""@ + (if accepted {
        "Accepted"@
    } else {
        "Rejected"@
    }) + "\"}"@
}

pub fn build_start_response_payload(remote_start_id: u64, accepted: bool) -> (r: String)
    ensures
        r@ == start_response_payload(remote_start_id as nat, accepted),
{
    let mut s = String::from_str("{\"remoteStartId\":");
    s.append(u64_to_dec(remote_start_id).as_str());
    s.append(",\"status\":\"");
    s.append(if accepted { "Accepted" } else { "Rejected" });
    s.append("\"}");
    proof {
        assert(s@ =~= start_response_payload(remote_start_id as nat, accepted));
    }
    s
}

/// RequestStopTransaction response payload.
pub open spec fn stop_response_payload(accepted: bool) -> Seq<char> {
    "{\"status\":\""@ + (if accepted {
        "Accepted"@
    } else {
        "Rejected"@
    }) + "\"}"@
}

pub fn build_stop_response_payload(accepted: bool) -> (r: String)
    ensures
        r@ == stop_response_payload(accepted),
{
    let mut s = String::from_str("{\"status\":\"");
    s.append(if accepted { "Accepted" } else { "Rejected" });
    s.append("\"}");
    proof {
        assert(s@ =~= stop_response_payload(accepted));
    }
    s
}

/// One item of a SetVariables response: the input pair, echoed with its
/// classification.
pub open spec fn set_var_item(e: VarRefS) -> Seq<char> {
    "{\"component\":\""@ + e.component + "\",\"variable\":{\"name\":\""@ + e.variable
        + "\"},\"attributeStatus\":\""@ + set_var_status_name(classify_set(e.component, e.variable))
        + "\"}"@
}

pub open spec fn set_var_items(entries: Seq<VarRefS>) -> Seq<char>
    decreases entries.len(),
{
    if entries.len() == 0 {
        Seq::<char>::empty()
    } else if entries.len() == 1 {
        set_var_item(entries[0])
    } else {
        set_var_items(entries.drop_last()) + ","@ + set_var_item(entries.last())
    }
}

/// SetVariables response payload: one result item per input item, in input
/// order.
pub open spec fn set_variables_response_payload(entries: Seq<VarRefS>) -> Seq<char> {
    "{\"setVariableResult\":["@ + set_var_items(entries) + "]}"@
}

#[verifier::rlimit(40)]
pub fn build_set_variables_response_payload(entries: &Vec<VarRef>) -> (r: String)
    ensures
        r@ == set_variables_response_payload(var_refs_view(entries@)),
{
    let mut s = String::from_str("{\"setVariableResult\":[");
    let mut i: usize = 0;
    while i < entries.len()
        invariant
            i <= entries.len(),
            s@ == "{\"setVariableResult\":["@ + set_var_items(var_refs_view(entries@).take(i as int)),
        decreases entries.len() - i,
    {
        if i > 0 {
            s.append(",");
        }
        s.append("{\"component\":\"");
        s.append(entries[i].component.as_str());
        s.append("\",\"variable\":{\"name\":\"");
        s.append(entries[i].variable.as_str());
        s.append("\"},\"attributeStatus\":\"");
        let st = classify_set_exec(&entries[i].component, &entries[i].variable);
        s.append(set_var_status_str(st));
        s.append("\"}");
        proof {
            let vs = var_refs_view(entries@);
            assert(vs.take(i + 1 as int).drop_last() =~= vs.take(i as int));
            assert(vs.take(i + 1 as int).last() == vs[i as int]);
            assert(s@ =~= "{\"setVariableResult\":["@ + set_var_items(vs.take(i + 1 as int)));
        }
        i += 1;
    }
    s.append("]}");
    proof {
        assert(var_refs_view(entries@).take(entries@.len() as int) =~= var_refs_view(entries@));
        assert(s@ =~= set_variables_response_payload(var_refs_view(entries@)));
    }
    s
}

/// One item of a GetVariables response: the status first, then the pair,
/// then the value where the table reports one.
pub open spec fn get_var_item(e: VarRefS) -> Seq<char> {
    let st = lookup_variable(e.component, e.variable).0;
    let val = lookup_variable(e.component, e.variable).1;
    "{\"attributeStatus\":\""@ + get_var_status_name(st) + "\",\"component\":\""@ + e.component
        + "\",\"variable\":{\"name\":\""@ + e.variable + "\"}"@ + (match val {
        Some(v) => ",\"attributeValue\":\""@ + v + "\""@,
        None => Seq::<char>::empty(),
    }) + "}"@
}

pub open spec fn get_var_items(entries: Seq<VarRefS>) -> Seq<char>
    decreases entries.len(),
{
    if entries.len() == 0 {
        Seq::<char>::empty()
    } else if entries.len() == 1 {
        get_var_item(entries[0])
    } else {
        get_var_items(entries.drop_last()) + ","@ + get_var_item(entries.last())
    }
}

/// GetVariables response payload: one result item per input item, in input
/// order.
pub open spec fn get_variables_response_payload(entries: Seq<VarRefS>) -> Seq<char> {
    "{\"getVariableResult\":["@ + get_var_items(entries) + "]}"@
}

#[verifier::rlimit(40)]
pub fn build_get_variables_response_payload(entries: &Vec<VarRef>) -> (r: String)
    ensures
        r@ == get_variables_response_payload(var_refs_view(entries@)),
{
    let mut s = String::from_str("{\"getVariableResult\":[");
    let mut i: usize = 0;
    while i < entries.len()
        invariant
            i <= entries.len(),
            s@ == "{\"getVariableResult\":["@ + get_var_items(var_refs_view(entries@).take(i as int)),
        decreases entries.len() - i,
    {
        if i > 0 {
            s.append(",");
        }
        let (st, val) = lookup_variable_exec(&entries[i].component, &entries[i].variable);
        s.append("{\"attributeStatus\":\"");
        s.append(get_var_status_str(st));
        s.append("\",\"component\":\"");
        s.append(entries[i].component.as_str());
        s.append("\",\"variable\":{\"name\":\"");
        s.append(entries[i].variable.as_str());
        s.append("\"}");
        match val {
            Some(v) => {
                s.append(",\"attributeValue\":\"");
                s.append(v.as_str());
                s.append("\"");
            },
            None => {},
        }
        s.append("}");
        proof {
            let vs = var_refs_view(entries@);
            assert(vs.take(i + 1 as int).drop_last() =~= vs.take(i as int));
            assert(vs.take(i + 1 as int).last() == vs[i as int]);
            assert(s@ =~= "{\"getVariableResult\":["@ + get_var_items(vs.take(i + 1 as int)));
        }
        i += 1;
    }
    s.append("]}");
    proof {
        assert(var_refs_view(entries@).take(entries@.len() as int) =~= var_refs_view(entries@));
        assert(s@ =~= get_variables_response_payload(var_refs_view(entries@)));
    }
    s
}

} // verus!
