//! Parameter rewriting for the JSON-RPC front end.
//!
//! A handful of RPC methods take the caller's IP as their last parameter;
//! the request middleware injects it so that a client cannot forge it. The
//! decision logic lives here: which methods take an IP, how many parameters
//! each accepts, and how a parameter array is trimmed and padded before the
//! IP is appended. The surrounding byte handling (HTTP body, JSON framing)
//! stays outside the core.

use vstd::prelude::*;

verus! {

#[verifier::external_type_specification]
#[verifier::external_body]
pub struct ExJsonValue(serde_json::Value);

/// The JSON value holding the given text; what serde_json's
/// `Value::String` constructor returns. The same text always gives the
/// same value.
pub uninterp spec fn json_string_value(s: Seq<char>) -> serde_json::Value;

/// The JSON null value; what serde_json's `Value::Null` constructor
/// returns, the same for every argument.
pub uninterp spec fn json_null_value(any: int) -> serde_json::Value;

/// Relies on serde_json's `Value::Null` constructor: builds the JSON null
/// value, the same one on every call.
#[verifier::external_body]
fn json_null() -> (r: serde_json::Value)
    ensures
        r == json_null_value(0),
{
    serde_json::Value::Null
}

/// Relies on serde_json's `Value::String` constructor: wraps the given text
/// as a JSON string value, determined by the text alone.
#[verifier::external_body]
fn json_string(s: String) -> (r: serde_json::Value)
    ensures
        r == json_string_value(s@),
{
    serde_json::Value::String(s)
}

/// How many parameters an IP-taking method accepts; the last one is always
/// the caller's IP.
#[derive(Clone, Copy, Debug, PartialEq, Eq, Structural)]
pub struct MethodWithIpDescription {
    pub minimum_params: usize,
    /// The last one is always the IP parameter.
    pub maximum_params: usize,
}

impl MethodWithIpDescription {
    pub fn new(minimum_params: usize, maximum_params: usize) -> (r: Self)
        ensures
            r.minimum_params == minimum_params,
            r.maximum_params == maximum_params,
    {
        MethodWithIpDescription { minimum_params, maximum_params }
    }
}

/// The closed table of methods that take the caller's IP as their last
/// parameter, with the parameter counts each accepts.
pub open spec fn spec_method_ip_description(method: Seq<char>) -> Option<MethodWithIpDescription> {
    if method == "tx_submit"@ {
        Some(MethodWithIpDescription { minimum_params: 1, maximum_params: 4 })
    } else if method == "submit_txs_batch"@ {
        Some(MethodWithIpDescription { minimum_params: 1, maximum_params: 3 })
    } else if method == "get_tx_fee"@ {
        Some(MethodWithIpDescription { minimum_params: 3, maximum_params: 4 })
    } else if method == "get_txs_batch_fee_in_wei"@ {
        Some(MethodWithIpDescription { minimum_params: 3, maximum_params: 4 })
    } else {
        None
    }
}

/// Looks a method up in the IP-parameter table.
pub fn method_ip_description(method: &String) -> (r: Option<MethodWithIpDescription>)
    ensures
        r == spec_method_ip_description(method@),
{
    if *method == "tx_submit".to_owned() {
        Some(MethodWithIpDescription::new(1, 4))
    } else if *method == "submit_txs_batch".to_owned() {
        Some(MethodWithIpDescription::new(1, 3))
    } else if *method == "get_tx_fee".to_owned() {
        Some(MethodWithIpDescription::new(3, 4))
    } else if *method == "get_txs_batch_fee_in_wei".to_owned() {
        Some(MethodWithIpDescription::new(3, 4))
    } else {
        None
    }
}

/// The parameter array after the caller's IP is injected: the kept prefix,
/// nulls for the optional parameters that were not supplied, then the IP.
pub open spec fn padded_params(
    params: Seq<serde_json::Value>,
    d: MethodWithIpDescription,
    ip: Seq<char>,
) -> Seq<serde_json::Value>
    recommends
        d.maximum_params >= 1,
        params.len() <= d.maximum_params,
{
    let keep = if params.len() >= d.maximum_params {
        d.maximum_params - 1
    } else {
        params.len() as int
    };
    params.take(keep) + Seq::new((d.maximum_params - 1 - keep) as nat, |i: int| json_null_value(0))
        + seq![json_string_value(ip)]
}

/// Rewrites a method call's parameter array so that its last parameter is
/// the caller's IP. A method outside the table, and a parameter count the
/// method does not accept, leave the array unchanged. A caller that already
/// supplied a full parameter list has its last parameter — an attempted IP
/// override — dropped; optional parameters not supplied are filled with
/// nulls before the IP is appended.
pub fn get_call_with_ip_if_needed(
    method: &String,
    params: Vec<serde_json::Value>,
    ip: String,
) -> (r: Vec<serde_json::Value>)
    ensures
        ({
            match spec_method_ip_description(method@) {
                None => r@ == params@,
                Some(d) => {
                    if params@.len() < d.minimum_params || params@.len() > d.maximum_params {
                        r@ == params@
                    } else {
                        r@ == padded_params(params@, d, ip@)
                    }
                },
            }
        }),
{
    let desc = match method_ip_description(method) {
        Some(d) => d,
        None => {
            return params;
        },
    };
    let mut new_params = params;
    if new_params.len() > desc.maximum_params || new_params.len() < desc.minimum_params {
        return new_params;
    }
    assert(desc.maximum_params >= 1);
    let ghost keep = if params@.len() >= desc.maximum_params {
        desc.maximum_params - 1
    } else {
        params@.len() as int
    };
    if new_params.len() == desc.maximum_params {
        new_params.pop();
    }
    proof {
        assert(new_params@ =~= params@.take(keep));
        assert(new_params@.take(keep) =~= new_params@);
    }
    while new_params.len() < desc.maximum_params - 1
        invariant
            0 <= keep <= new_params@.len() <= desc.maximum_params - 1,
            new_params@.take(keep) == params@.take(keep),
            forall|j: int|
                keep <= j < new_params@.len() ==> new_params@[j] == json_null_value(0),
        decreases desc.maximum_params - 1 - new_params@.len(),
    {
        let ghost s_pre = new_params@;
        let n = json_null();
        new_params.push(n);
        proof {
            assert(new_params@ == s_pre.push(n));
            assert forall|j: int| keep <= j < new_params@.len() implies new_params@[j]
                == json_null_value(0) by {
                if j < s_pre.len() {
                    assert(s_pre.push(n)[j] == s_pre[j]);
                } else {
                    assert(s_pre.push(n)[j] == n);
                }
            }
            assert forall|j: int| 0 <= j < keep implies new_params@.take(keep)[j]
                == params@.take(keep)[j] by {
                assert(new_params@.take(keep)[j] == new_params@[j]);
                assert(s_pre.push(n)[j] == s_pre[j]);
                assert(s_pre.take(keep)[j] == s_pre[j]);
                assert(s_pre.take(keep) == params@.take(keep));
            }
            assert(new_params@.take(keep) =~= params@.take(keep));
        }
    }
    let ip_value = json_string(ip);
    new_params.push(ip_value);
    proof {
        assert(new_params@ =~= padded_params(params@, desc, ip@));
    }
    new_params
}

} // verus!
