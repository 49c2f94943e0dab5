//! Station identity values: configured strings with their deterministic
//! fallbacks.

use vstd::prelude::*;

verus! {

/// The subprotocol identifier advertised during the connection handshake.
pub fn subprotocol() -> (r: &'static str)
    ensures
        r@ == "ocpp2.0"@,
{
    "ocpp2.0"
}

pub open spec fn spec_model_or_default(v: Option<Seq<char>>) -> Seq<char> {
    match v {
        Some(s) => if s.len() == 0 {
            "Model"@
        } else {
            s
        },
        None => "Model"@,
    }
}

/// The configured station model, or its fallback when unset or empty.
pub fn model_or_default(v: Option<String>) -> (r: String)
    ensures
        r@ == spec_model_or_default(
            match v {
                Some(s) => Some(s@),
                None => None,
            },
        ),
{
    match v {
        Some(s) => if s.as_str().unicode_len() == 0 {
            String::from_str("Model")
        } else {
            s
        },
        None => String::from_str("Model"),
    }
}

pub open spec fn spec_vendor_or_default(v: Option<Seq<char>>) -> Seq<char> {
    match v {
        Some(s) => if s.len() == 0 {
            "Vendor name"@
        } else {
            s
        },
        None => "Vendor name"@,
    }
}

/// The configured vendor name, or its fallback when unset or empty.
pub fn vendor_or_default(v: Option<String>) -> (r: String)
    ensures
        r@ == spec_vendor_or_default(
            match v {
                Some(s) => Some(s@),
                None => None,
            },
        ),
{
    match v {
        Some(s) => if s.as_str().unicode_len() == 0 {
            String::from_str("Vendor name")
        } else {
            s
        },
        None => String::from_str("Vendor name"),
    }
}

} // verus!
