use fuel_gql_client::client::FuelClient;
use fuel_tx::{Address, Color, Input, Output, UtxoId};
use fuels_signers::provider::{Provider, TxParameters, DEFAULT_GAS_LIMIT, REG_ONE};

fn provider() -> Provider {
    Provider::new(FuelClient::new("127.0.0.1:4000").unwrap())
}

fn input(n: u8) -> Input {
    Input::coin(
        UtxoId::new([n; 32].into(), 0),
        Address::new([1u8; 32]),
        100,
        Color::default(),
        0,
        0,
        vec![],
        vec![],
    )
}

#[test]
fn transfer_tx_carries_inputs_outputs_and_params() {
    let inputs = vec![input(1), input(2)];
    let outputs = vec![Output::coin(Address::new([2u8; 32]), 200, Color::default())];
    let params = TxParameters::new(Some(3), Some(1000), Some(2));
    let tx = provider().build_transfer_tx(&inputs, &outputs, params);
    assert_eq!(tx.gas_price, 3);
    assert_eq!(tx.gas_limit, 1000);
    assert_eq!(tx.byte_price, 2);
    assert_eq!(tx.maturity, 0);
    assert_eq!(tx.receipts_root, [0u8; 32]);
    assert_eq!(tx.inputs, inputs);
    assert_eq!(tx.outputs, outputs);
    assert!(tx.script_data.is_empty());
    assert!(tx.witnesses.is_empty());
}

#[test]
fn transfer_tx_script_is_a_single_return() {
    let tx = provider().build_transfer_tx(&[], &[], TxParameters::default());
    assert_eq!(tx.script, vec![0x24, 0x04, 0x00, 0x00]);
    assert_eq!(
        tx.script,
        fuel_vm::prelude::Opcode::RET(fuel_vm::consts::REG_ONE).to_bytes().to_vec()
    );
    assert_eq!(REG_ONE, fuel_vm::consts::REG_ONE);
}

#[test]
fn transfer_tx_is_deterministic() {
    let inputs = vec![input(4)];
    let outputs = vec![Output::coin(Address::new([3u8; 32]), 5, Color::default())];
    let params = TxParameters::new(None, None, None);
    let p = provider();
    let a = p.build_transfer_tx(&inputs, &outputs, params);
    let b = p.build_transfer_tx(&inputs, &outputs, params);
    assert_eq!(a.gas_price, b.gas_price);
    assert_eq!(a.gas_limit, b.gas_limit);
    assert_eq!(a.script, b.script);
    assert_eq!(a.inputs, b.inputs);
    assert_eq!(a.outputs, b.outputs);
    assert_eq!(a.witnesses, b.witnesses);
}

#[test]
fn tx_parameters_defaults() {
    let d = TxParameters::default();
    assert_eq!(d.gas_price, 0);
    assert_eq!(d.gas_limit, DEFAULT_GAS_LIMIT);
    assert_eq!(d.gas_limit, 1_000_000);
    assert_eq!(d.byte_price, 0);
    assert_eq!(d.maturity, 0);
}
