use vstd::prelude::*;

use crate::balance::asset_sum;
use crate::pagination::concat_pages;
use crate::types::{Address, AssetId, Coin};

verus! {

/// Wallets made when the count is not given.
pub const DEFAULT_NUM_WALLETS: u64 = 10;

/// Coins given to each wallet when the count is not given.
pub const DEFAULT_NUM_COINS: u64 = 1;

/// Amount of each coin when it is not given.
pub const DEFAULT_COIN_AMOUNT: u64 = 1_000_000_000;

/// How many wallets to provision, how many coins each, of which amount.
#[derive(Clone, Copy, Debug, PartialEq, Eq, Structural)]
pub struct WalletsConfig {
    pub num_wallets: u64,
    pub coins_per_wallet: u64,
    pub coin_amount: u64,
}

impl WalletsConfig {
    pub fn new(num_wallets: Option<u64>, coins_per_wallet: Option<u64>, coin_amount: Option<u64>) -> (r: WalletsConfig)
        ensures
            r.num_wallets == match num_wallets {
                Some(n) => n,
                None => DEFAULT_NUM_WALLETS,
            },
            r.coins_per_wallet == match coins_per_wallet {
                Some(n) => n,
                None => DEFAULT_NUM_COINS,
            },
            r.coin_amount == match coin_amount {
                Some(n) => n,
                None => DEFAULT_COIN_AMOUNT,
            },
    {
        WalletsConfig {
            num_wallets: match num_wallets {
                Some(n) => n,
                None => DEFAULT_NUM_WALLETS,
            },
            coins_per_wallet: match coins_per_wallet {
                Some(n) => n,
                None => DEFAULT_NUM_COINS,
            },
            coin_amount: match coin_amount {
                Some(n) => n,
                None => DEFAULT_COIN_AMOUNT,
            },
        }
    }

    /// A configuration of one wallet.
    pub fn new_single(coins: Option<u64>, amount: Option<u64>) -> (r: WalletsConfig)
        ensures
            r == WalletsConfig::spec_new(Some(1u64), coins, amount),
    {
        WalletsConfig::new(Some(1), coins, amount)
    }

    pub open spec fn spec_new(
        num_wallets: Option<u64>,
        coins_per_wallet: Option<u64>,
        coin_amount: Option<u64>,
    ) -> WalletsConfig {
        WalletsConfig {
            num_wallets: match num_wallets {
                Some(n) => n,
                None => DEFAULT_NUM_WALLETS,
            },
            coins_per_wallet: match coins_per_wallet {
                Some(n) => n,
                None => DEFAULT_NUM_COINS,
            },
            coin_amount: match coin_amount {
                Some(n) => n,
                None => DEFAULT_COIN_AMOUNT,
            },
        }
    }
}

/// The coins minted for one wallet: one per transaction id, at output 0,
/// each of `amount` of `asset`.
pub open spec fn wallet_coins(owner: Address, asset: AssetId, amount: u64, tx_ids: Seq<[u8; 32]>) -> Seq<Coin> {
    Seq::new(
        tx_ids.len(),
        |i: int| Coin { tx_id: tx_ids[i], output_index: 0, owner, asset_id: asset, amount },
    )
}

/// The coins of all wallets, wallet after wallet.
pub open spec fn provisioned_coins(
    owners: Seq<Address>,
    asset: AssetId,
    amount: u64,
    tx_ids: Seq<Vec<[u8; 32]>>,
) -> Seq<Coin> {
    concat_pages(Seq::new(owners.len(), |w: int| wallet_coins(owners[w], asset, amount, tx_ids[w]@)))
}

/// Whether the wallets and ids fit the configuration: one entry per wallet,
/// `coins_per_wallet` ids in each, and the whole set addressable in memory.
pub open spec fn fits_config(
    config: WalletsConfig,
    owners: Seq<Address>,
    tx_ids: Seq<Vec<[u8; 32]>>,
) -> bool {
    &&& owners.len() == config.num_wallets
    &&& tx_ids.len() == config.num_wallets
    &&& forall|w: int| 0 <= w < tx_ids.len() ==> #[trigger] tx_ids[w]@.len() == config.coins_per_wallet
    &&& config.num_wallets * config.coins_per_wallet <= usize::MAX
}

/// Mints the coins of one wallet.
pub fn setup_coins(owner: Address, asset: AssetId, amount: u64, tx_ids: &Vec<[u8; 32]>) -> (r: Vec<Coin>)
    ensures
        r@ == wallet_coins(owner, asset, amount, tx_ids@),
{
    let mut coins: Vec<Coin> = Vec::new();
    let mut i: usize = 0;
    while i < tx_ids.len()
        invariant
            0 <= i <= tx_ids@.len(),
            coins@ == wallet_coins(owner, asset, amount, tx_ids@.subrange(0, i as int)),
        decreases tx_ids@.len() - i,
    {
        coins.push(Coin { tx_id: tx_ids[i], output_index: 0, owner, asset_id: asset, amount });
        i = i + 1;
        assert(coins@ =~= wallet_coins(owner, asset, amount, tx_ids@.subrange(0, i as int)));
    }
    assert(tx_ids@.subrange(0, i as int) == tx_ids@);
    coins
}

/// The coins with which a node is seeded for the configured wallets:
/// `coins_per_wallet` coins of `coin_amount` of `asset` for each owner, the
/// ids of wallet `w`'s coins taken from `tx_ids[w]`. `None` when the owners
/// and ids do not fit the configuration.
pub fn provision_coins(
    config: &WalletsConfig,
    owners: &Vec<Address>,
    asset: AssetId,
    tx_ids: &Vec<Vec<[u8; 32]>>,
) -> (r: Option<Vec<Coin>>)
    ensures
        match r {
            Some(coins) => fits_config(*config, owners@, tx_ids@) && coins@ == provisioned_coins(
                owners@,
                asset,
                config.coin_amount,
                tx_ids@,
            ),
            None => !fits_config(*config, owners@, tx_ids@),
        },
{
    if owners.len() as u64 != config.num_wallets || tx_ids.len() as u64 != config.num_wallets {
        return None;
    }
    if config.coins_per_wallet != 0 && config.num_wallets > (usize::MAX as u64) / config.coins_per_wallet {
        proof {
            assert(config.num_wallets * config.coins_per_wallet > usize::MAX) by (nonlinear_arith)
                requires
                    config.coins_per_wallet != 0,
                    config.num_wallets > (usize::MAX as u64) / config.coins_per_wallet,
            ;
        }
        return None;
    }
    proof {
        if config.coins_per_wallet != 0 {
            assert(config.num_wallets * config.coins_per_wallet <= usize::MAX) by (nonlinear_arith)
                requires
                    config.coins_per_wallet != 0,
                    config.num_wallets <= (usize::MAX as u64) / config.coins_per_wallet,
            ;
        }
    }
    let ghost pages = Seq::new(
        owners@.len(),
        |w: int| wallet_coins(owners@[w], asset, config.coin_amount, tx_ids@[w]@),
    );
    let mut coins: Vec<Coin> = Vec::new();
    let mut w: usize = 0;
    while w < owners.len()
        invariant
            0 <= w <= owners@.len(),
            owners@.len() == tx_ids@.len(),
            owners@.len() == config.num_wallets,
            config.num_wallets * config.coins_per_wallet <= usize::MAX,
            pages == Seq::new(
                owners@.len(),
                |v: int| wallet_coins(owners@[v], asset, config.coin_amount, tx_ids@[v]@),
            ),
            forall|v: int| 0 <= v < w ==> #[trigger] tx_ids@[v]@.len() == config.coins_per_wallet,
            coins@ == concat_pages(pages.subrange(0, w as int)),
            coins@.len() == w * config.coins_per_wallet,
        decreases owners@.len() - w,
    {
        let ids = &tx_ids[w];
        if ids.len() as u64 != config.coins_per_wallet {
            return None;
        }
        let mine = setup_coins(owners[w], asset, config.coin_amount, ids);
        proof {
            assert(w * config.coins_per_wallet + config.coins_per_wallet == (w + 1) * config.coins_per_wallet) by (nonlinear_arith);
            assert((w + 1) * config.coins_per_wallet <= config.num_wallets * config.coins_per_wallet) by (nonlinear_arith)
                requires
                    w + 1 <= config.num_wallets,
            ;
        }
        let mut i: usize = 0;
        while i < mine.len()
            invariant
                0 <= i <= mine@.len(),
                mine@.len() == config.coins_per_wallet,
                coins@ == concat_pages(pages.subrange(0, w as int)) + mine@.subrange(0, i as int),
                coins@.len() == w * config.coins_per_wallet + i,
                (w + 1) * config.coins_per_wallet <= usize::MAX,
                w * config.coins_per_wallet + config.coins_per_wallet == (w + 1) * config.coins_per_wallet,
            decreases mine@.len() - i,
        {
            coins.push(mine[i]);
            i = i + 1;
            assert(coins@ =~= concat_pages(pages.subrange(0, w as int)) + mine@.subrange(0, i as int));
        }
        assert(mine@.subrange(0, i as int) == mine@);
        assert(pages.subrange(0, w + 1 as int).drop_last() == pages.subrange(0, w as int));
        w = w + 1;
    }
    assert(pages.subrange(0, w as int) == pages);
    Some(coins)
}

/// The coins of `coins` that `owner` holds, in order.
pub open spec fn owned_by(coins: Seq<Coin>, owner: Address) -> Seq<Coin> {
    coins.filter(|c: Coin| c.owner == owner)
}

proof fn lemma_wallet_coins_drop_last(owner: Address, asset: AssetId, amount: u64, ids: Seq<[u8; 32]>)
    requires
        ids.len() > 0,
    ensures
        wallet_coins(owner, asset, amount, ids).drop_last() == wallet_coins(owner, asset, amount, ids.drop_last()),
        wallet_coins(owner, asset, amount, ids).last() == (Coin {
            tx_id: ids.last(),
            output_index: 0,
            owner,
            asset_id: asset,
            amount,
        }),
{
    assert(wallet_coins(owner, asset, amount, ids).drop_last() =~= wallet_coins(owner, asset, amount, ids.drop_last()));
}

proof fn lemma_owned_in_wallet(owner: Address, holder: Address, asset: AssetId, amount: u64, ids: Seq<[u8; 32]>)
    ensures
        owned_by(wallet_coins(holder, asset, amount, ids), owner) == if owner == holder {
            wallet_coins(holder, asset, amount, ids)
        } else {
            Seq::<Coin>::empty()
        },
    decreases ids.len(),
{
    reveal(Seq::filter);
    if ids.len() > 0 {
        lemma_wallet_coins_drop_last(holder, asset, amount, ids);
        lemma_owned_in_wallet(owner, holder, asset, amount, ids.drop_last());
        if owner == holder {
            assert(wallet_coins(holder, asset, amount, ids.drop_last()).push(wallet_coins(holder, asset, amount, ids).last())
                =~= wallet_coins(holder, asset, amount, ids));
        }
    } else {
        assert(wallet_coins(holder, asset, amount, ids) =~= Seq::<Coin>::empty());
    }
}

proof fn lemma_owned_in_prefix(
    owners: Seq<Address>,
    asset: AssetId,
    amount: u64,
    tx_ids: Seq<Vec<[u8; 32]>>,
    w: int,
    n: int,
)
    requires
        owners.len() == tx_ids.len(),
        forall|i: int, j: int| 0 <= i < j < owners.len() ==> owners[i] != owners[j],
        0 <= w < owners.len(),
        0 <= n <= owners.len(),
    ensures
        owned_by(
            concat_pages(
                Seq::new(owners.len(), |v: int| wallet_coins(owners[v], asset, amount, tx_ids[v]@)).subrange(0, n),
            ),
            owners[w],
        ) == if w < n {
            wallet_coins(owners[w], asset, amount, tx_ids[w]@)
        } else {
            Seq::<Coin>::empty()
        },
    decreases n,
{
    let pages = Seq::new(owners.len(), |v: int| wallet_coins(owners[v], asset, amount, tx_ids[v]@));
    let pred = |c: Coin| c.owner == owners[w];
    reveal(Seq::filter);
    if n > 0 {
        lemma_owned_in_prefix(owners, asset, amount, tx_ids, w, n - 1);
        assert(pages.subrange(0, n).drop_last() == pages.subrange(0, n - 1));
        let before = concat_pages(pages.subrange(0, n - 1));
        let last = pages[n - 1];
        Seq::filter_distributes_over_add(before, last, pred);
        lemma_owned_in_wallet(owners[w], owners[n - 1], asset, amount, tx_ids[n - 1]@);
        if w < n - 1 {
            assert(owners[w] != owners[n - 1]);
            assert(before.filter(pred) + last.filter(pred) =~= before.filter(pred));
        } else if w == n - 1 {
            assert(before.filter(pred) + last.filter(pred) =~= last.filter(pred));
        } else {
            assert(owners[n - 1] != owners[w]);
            assert(before.filter(pred) + last.filter(pred) =~= Seq::<Coin>::empty());
        }
    } else {
        assert(pages.subrange(0, 0) =~= Seq::<Seq<Coin>>::empty());
        assert(concat_pages(pages.subrange(0, 0)) =~= Seq::<Coin>::empty());
    }
}

proof fn lemma_wallet_balance(owner: Address, asset: AssetId, amount: u64, ids: Seq<[u8; 32]>)
    ensures
        asset_sum(wallet_coins(owner, asset, amount, ids), asset) == ids.len() * amount,
    decreases ids.len(),
{
    if ids.len() > 0 {
        lemma_wallet_coins_drop_last(owner, asset, amount, ids);
        lemma_wallet_balance(owner, asset, amount, ids.drop_last());
        assert((ids.len() - 1) * amount + amount == ids.len() * amount) by (nonlinear_arith);
    } else {
        assert(wallet_coins(owner, asset, amount, ids).len() == 0);
        assert(ids.len() * amount == 0) by (nonlinear_arith)
            requires
                ids.len() == 0,
        ;
    }
}

/// After provisioning, each wallet holds exactly the configured number of
/// coins, each of the configured amount of the provisioned asset, and its
/// balance of that asset is their count times that amount. Owners are
/// distinct.
pub proof fn lemma_provisioned_wallet_holdings(
    config: WalletsConfig,
    owners: Seq<Address>,
    asset: AssetId,
    tx_ids: Seq<Vec<[u8; 32]>>,
    w: int,
)
    requires
        fits_config(config, owners, tx_ids),
        forall|i: int, j: int| 0 <= i < j < owners.len() ==> owners[i] != owners[j],
        0 <= w < owners.len(),
    ensures
        owned_by(provisioned_coins(owners, asset, config.coin_amount, tx_ids), owners[w]).len()
            == config.coins_per_wallet,
        forall|i: int|
            0 <= i < config.coins_per_wallet ==> {
                let c = #[trigger] owned_by(provisioned_coins(owners, asset, config.coin_amount, tx_ids), owners[w])[i];
                c.amount == config.coin_amount && c.asset_id == asset
            },
        asset_sum(owned_by(provisioned_coins(owners, asset, config.coin_amount, tx_ids), owners[w]), asset)
            == config.coins_per_wallet * config.coin_amount,
{
    let pages = Seq::new(owners.len(), |v: int| wallet_coins(owners[v], asset, config.coin_amount, tx_ids[v]@));
    lemma_owned_in_prefix(owners, asset, config.coin_amount, tx_ids, w, owners.len() as int);
    assert(pages.subrange(0, owners.len() as int) == pages);
    assert(tx_ids[w]@.len() == config.coins_per_wallet);
    lemma_wallet_balance(owners[w], asset, config.coin_amount, tx_ids[w]@);
}

} // verus!
