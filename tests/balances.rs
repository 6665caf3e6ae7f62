use fuels_signers::balance::{asset_balance, balances_by_asset};
use fuels_signers::types::{base_asset, same_bytes, Address, AssetId, Coin};

fn coin(asset: u8, amount: u64) -> Coin {
    Coin {
        tx_id: [amount as u8; 32],
        output_index: 1,
        owner: Address { bytes: [3u8; 32] },
        asset_id: AssetId { bytes: [asset; 32] },
        amount,
    }
}

#[test]
fn balance_sums_only_the_asset() {
    let coins = vec![coin(1, 10), coin(2, 20), coin(1, 30), coin(3, 5), coin(1, 2)];
    assert_eq!(asset_balance(&coins, &AssetId { bytes: [1u8; 32] }), Some(42));
    assert_eq!(asset_balance(&coins, &AssetId { bytes: [2u8; 32] }), Some(20));
    assert_eq!(asset_balance(&coins, &AssetId { bytes: [9u8; 32] }), Some(0));
}

#[test]
fn balance_of_no_coins_is_zero() {
    assert_eq!(asset_balance(&Vec::new(), &base_asset()), Some(0));
}

#[test]
fn balance_reaching_u64_max_fits() {
    let coins = vec![coin(1, u64::MAX - 1), coin(1, 1), coin(2, 7)];
    assert_eq!(asset_balance(&coins, &AssetId { bytes: [1u8; 32] }), Some(u64::MAX));
}

#[test]
fn balance_past_u64_max_is_none() {
    let coins = vec![coin(1, u64::MAX), coin(1, 1)];
    assert_eq!(asset_balance(&coins, &AssetId { bytes: [1u8; 32] }), None);
}

#[test]
fn balance_of_split_pages_matches_whole() {
    let all = vec![coin(1, 10), coin(2, 20), coin(1, 30), coin(1, 4)];
    let asset = AssetId { bytes: [1u8; 32] };
    let first = asset_balance(&all[..2].to_vec(), &asset).unwrap();
    let second = asset_balance(&all[2..].to_vec(), &asset).unwrap();
    assert_eq!(asset_balance(&all, &asset), Some(first + second));
    assert_eq!(first + second, 44);
}

#[test]
fn base_asset_is_all_zero() {
    assert_eq!(base_asset().bytes, [0u8; 32]);
}

#[test]
fn same_bytes_compares_every_byte() {
    let a = [5u8; 32];
    let mut b = [5u8; 32];
    assert!(same_bytes(&a, &b));
    b[31] = 6;
    assert!(!same_bytes(&a, &b));
    b[31] = 5;
    b[0] = 0;
    assert!(!same_bytes(&a, &b));
}

#[test]
fn balances_list_each_asset_once() {
    let coins = vec![coin(1, 10), coin(2, 20), coin(1, 30), coin(3, 5), coin(2, 1)];
    let mut list = balances_by_asset(&coins).unwrap();
    list.sort_by_key(|e| e.0.bytes[0]);
    assert_eq!(
        list,
        vec![
            (AssetId { bytes: [1u8; 32] }, 40),
            (AssetId { bytes: [2u8; 32] }, 21),
            (AssetId { bytes: [3u8; 32] }, 5),
        ]
    );
}

#[test]
fn balances_of_no_coins_are_empty() {
    assert_eq!(balances_by_asset(&Vec::new()), Some(Vec::new()));
}

#[test]
fn balances_past_u64_max_are_none() {
    let coins = vec![coin(2, 3), coin(1, u64::MAX), coin(1, 1)];
    assert_eq!(balances_by_asset(&coins), None);
}
