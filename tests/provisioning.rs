use fuels_signers::balance::asset_balance;
use fuels_signers::provision::{
    provision_coins, setup_coins, WalletsConfig, DEFAULT_COIN_AMOUNT, DEFAULT_NUM_COINS,
    DEFAULT_NUM_WALLETS,
};
use fuels_signers::types::{base_asset, Address, Coin};

fn ids(seed: u8, n: usize) -> Vec<[u8; 32]> {
    (0..n)
        .map(|i| {
            let mut id = [seed; 32];
            id[0] = i as u8;
            id
        })
        .collect()
}

fn owned(coins: &[Coin], owner: &Address) -> Vec<Coin> {
    coins.iter().filter(|c| c.owner == *owner).copied().collect()
}

#[test]
fn test_wallet_config() {
    let num_wallets = 2;
    let num_coins = 3;
    let amount = 100;
    let config = WalletsConfig::new(Some(num_wallets), Some(num_coins), Some(amount));
    let owners = vec![Address { bytes: [1u8; 32] }, Address { bytes: [2u8; 32] }];
    let tx_ids = vec![ids(10, 3), ids(20, 3)];
    let coins = provision_coins(&config, &owners, base_asset(), &tx_ids).unwrap();
    assert_eq!(coins.len(), 6);
    for owner in &owners {
        let mine = owned(&coins, owner);
        assert_eq!(mine.len(), num_coins as usize);
        for coin in &mine {
            assert_eq!(coin.amount, amount);
            assert_eq!(coin.asset_id, base_asset());
        }
        assert_eq!(asset_balance(&mine, &base_asset()), Some(300));
    }
}

#[test]
fn wallets_config_defaults() {
    let config = WalletsConfig::new(None, None, None);
    assert_eq!(config.num_wallets, DEFAULT_NUM_WALLETS);
    assert_eq!(config.coins_per_wallet, DEFAULT_NUM_COINS);
    assert_eq!(config.coin_amount, DEFAULT_COIN_AMOUNT);
    let single = WalletsConfig::new_single(Some(4), None);
    assert_eq!(single.num_wallets, 1);
    assert_eq!(single.coins_per_wallet, 4);
    assert_eq!(single.coin_amount, DEFAULT_COIN_AMOUNT);
}

#[test]
fn setup_coins_mints_one_coin_per_id() {
    let owner = Address { bytes: [9u8; 32] };
    let coins = setup_coins(owner, base_asset(), 55, &ids(4, 3));
    assert_eq!(coins.len(), 3);
    for (i, c) in coins.iter().enumerate() {
        assert_eq!(c.tx_id, ids(4, 3)[i]);
        assert_eq!(c.output_index, 0);
        assert_eq!(c.owner, owner);
        assert_eq!(c.amount, 55);
    }
}

#[test]
fn provision_keeps_wallet_order() {
    let config = WalletsConfig::new(Some(2), Some(1), Some(7));
    let owners = vec![Address { bytes: [1u8; 32] }, Address { bytes: [2u8; 32] }];
    let coins = provision_coins(&config, &owners, base_asset(), &vec![ids(1, 1), ids(2, 1)]).unwrap();
    assert_eq!(coins[0].owner, owners[0]);
    assert_eq!(coins[1].owner, owners[1]);
    assert_eq!(coins[1].tx_id, ids(2, 1)[0]);
}

#[test]
fn provision_refuses_wrong_wallet_count() {
    let config = WalletsConfig::new(Some(3), Some(1), Some(7));
    let owners = vec![Address { bytes: [1u8; 32] }, Address { bytes: [2u8; 32] }];
    assert!(provision_coins(&config, &owners, base_asset(), &vec![ids(1, 1), ids(2, 1)]).is_none());
}

#[test]
fn provision_refuses_wrong_coin_count() {
    let config = WalletsConfig::new(Some(2), Some(2), Some(7));
    let owners = vec![Address { bytes: [1u8; 32] }, Address { bytes: [2u8; 32] }];
    assert!(provision_coins(&config, &owners, base_asset(), &vec![ids(1, 2), ids(2, 1)]).is_none());
}

#[test]
fn provision_of_no_coins_is_empty() {
    let config = WalletsConfig::new(Some(2), Some(0), Some(7));
    let owners = vec![Address { bytes: [1u8; 32] }, Address { bytes: [2u8; 32] }];
    let coins = provision_coins(&config, &owners, base_asset(), &vec![Vec::new(), Vec::new()]).unwrap();
    assert!(coins.is_empty());
}
