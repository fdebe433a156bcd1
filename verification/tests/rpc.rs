use plasma::rpc_params::{get_call_with_ip_if_needed, method_ip_description, MethodWithIpDescription};
use serde_json::Value;

fn s(text: &str) -> Value {
    Value::String(text.to_owned())
}

#[test]
fn method_with_ip_description_holds_its_bounds() {
    let d = MethodWithIpDescription::new(1, 4);
    assert_eq!(d.minimum_params, 1);
    assert_eq!(d.maximum_params, 4);
}

#[test]
fn ip_method_table_is_closed() {
    assert_eq!(
        method_ip_description(&"tx_submit".to_owned()),
        Some(MethodWithIpDescription::new(1, 4))
    );
    assert_eq!(
        method_ip_description(&"submit_txs_batch".to_owned()),
        Some(MethodWithIpDescription::new(1, 3))
    );
    assert_eq!(
        method_ip_description(&"get_tx_fee".to_owned()),
        Some(MethodWithIpDescription::new(3, 4))
    );
    assert_eq!(
        method_ip_description(&"get_txs_batch_fee_in_wei".to_owned()),
        Some(MethodWithIpDescription::new(3, 4))
    );
    assert_eq!(method_ip_description(&"get_block_info".to_owned()), None);
}

#[test]
fn missing_optional_params_are_padded_with_nulls() {
    let out = get_call_with_ip_if_needed(
        &"tx_submit".to_owned(),
        vec![s("signed-tx")],
        "1.2.3.4".to_owned(),
    );
    assert_eq!(out, vec![s("signed-tx"), Value::Null, Value::Null, s("1.2.3.4")]);
}

#[test]
fn attempted_ip_override_is_dropped() {
    let out = get_call_with_ip_if_needed(
        &"tx_submit".to_owned(),
        vec![s("signed-tx"), s("a"), s("b"), s("forged-ip")],
        "1.2.3.4".to_owned(),
    );
    assert_eq!(out, vec![s("signed-tx"), s("a"), s("b"), s("1.2.3.4")]);
}

#[test]
fn full_minimum_parameter_list_gets_only_the_ip() {
    let out = get_call_with_ip_if_needed(
        &"get_tx_fee".to_owned(),
        vec![s("Withdraw"), s("address"), s("token")],
        "8.8.8.8".to_owned(),
    );
    assert_eq!(out, vec![s("Withdraw"), s("address"), s("token"), s("8.8.8.8")]);
}

#[test]
fn unknown_method_is_left_unchanged() {
    let out = get_call_with_ip_if_needed(
        &"get_block_info".to_owned(),
        vec![s("a"), s("b")],
        "1.2.3.4".to_owned(),
    );
    assert_eq!(out, vec![s("a"), s("b")]);
}

#[test]
fn out_of_bounds_parameter_counts_are_left_unchanged() {
    let too_few = get_call_with_ip_if_needed(
        &"get_tx_fee".to_owned(),
        vec![s("a")],
        "1.2.3.4".to_owned(),
    );
    assert_eq!(too_few, vec![s("a")]);

    let too_many = get_call_with_ip_if_needed(
        &"tx_submit".to_owned(),
        vec![s("a"), s("b"), s("c"), s("d"), s("e")],
        "1.2.3.4".to_owned(),
    );
    assert_eq!(too_many, vec![s("a"), s("b"), s("c"), s("d"), s("e")]);
}

#[test]
fn tx_hash_rendering_is_prefixed_lowercase_hex() {
    assert_eq!(
        plasma::encode::tx_hash_hex_string(&vec![0xde, 0xad, 0xbe, 0xef]),
        "0xdeadbeef"
    );
    assert_eq!(plasma::encode::tx_hash_hex_string(&vec![]), "0x");
    assert_eq!(plasma::encode::tx_hash_hex_string(&vec![0x00, 0x1a]), "0x001a");
}
