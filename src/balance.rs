use vstd::prelude::*;

use crate::pagination::concat_pages;
use crate::types::{same_bytes, AssetId, Coin};

verus! {

/// The sum of the amounts of the coins of `asset` in `coins`.
pub open spec fn asset_sum(coins: Seq<Coin>, asset: AssetId) -> int
    decreases coins.len(),
{
    if coins.len() == 0 {
        0
    } else {
        asset_sum(coins.drop_last(), asset) + if coins.last().asset_id == asset {
            coins.last().amount as int
        } else {
            0
        }
    }
}

/// The sum of the amounts of the coins of `asset` among `coins`; `None` when
/// that sum does not fit in a `u64`.
pub fn asset_balance(coins: &Vec<Coin>, asset: &AssetId) -> (r: Option<u64>)
    ensures
        match r {
            Some(v) => v as int == asset_sum(coins@, *asset),
            None => asset_sum(coins@, *asset) > u64::MAX,
        },
{
    let mut total: u64 = 0;
    let mut i: usize = 0;
    while i < coins.len()
        invariant
            0 <= i <= coins@.len(),
            total as int == asset_sum(coins@.subrange(0, i as int), *asset),
        decreases coins@.len() - i,
    {
        let c = coins[i];
        assert(coins@.subrange(0, i + 1 as int).drop_last() == coins@.subrange(0, i as int));
        if same_bytes(&c.asset_id.bytes, &asset.bytes) {
            assert(c.asset_id == *asset);
            if total > u64::MAX - c.amount {
                proof {
                    lemma_asset_sum_prefix(coins@, *asset, i + 1);
                }
                return None;
            }
            total = total + c.amount;
        } else {
            assert(c.asset_id != *asset);
        }
        i = i + 1;
    }
    assert(coins@.subrange(0, coins@.len() as int) == coins@);
    Some(total)
}

/// The asset sum of a prefix never exceeds that of the whole.
proof fn lemma_asset_sum_prefix(coins: Seq<Coin>, asset: AssetId, n: int)
    requires
        0 <= n <= coins.len(),
    ensures
        asset_sum(coins.subrange(0, n), asset) <= asset_sum(coins, asset),
    decreases coins.len() - n,
{
    if n < coins.len() {
        lemma_asset_sum_prefix(coins, asset, n + 1);
        assert(coins.subrange(0, n + 1).drop_last() == coins.subrange(0, n));
    } else {
        assert(coins.subrange(0, n) == coins);
    }
}

/// Whether `balances` lists each asset of `coins` exactly once, with its
/// sum, and no other asset.
pub open spec fn is_balance_list(balances: Seq<(AssetId, u64)>, coins: Seq<Coin>) -> bool {
    &&& forall|i: int, j: int| 0 <= i < j < balances.len() ==> balances[i].0 != balances[j].0
    &&& forall|i: int| 0 <= i < balances.len() ==> #[trigger] balances[i].1 == asset_sum(coins, balances[i].0)
    &&& forall|i: int| 0 <= i < balances.len() ==> asset_ids(coins).contains(#[trigger] balances[i].0)
    &&& forall|k: int| 0 <= k < coins.len() ==> listed_assets(balances).contains(#[trigger] coins[k].asset_id)
}

/// The asset of each coin, in order.
pub open spec fn asset_ids(coins: Seq<Coin>) -> Seq<AssetId> {
    coins.map_values(|c: Coin| c.asset_id)
}

/// The asset of each entry, in order.
pub open spec fn listed_assets(balances: Seq<(AssetId, u64)>) -> Seq<AssetId> {
    balances.map_values(|b: (AssetId, u64)| b.0)
}

/// The balance of each asset among `coins`, one entry per asset. `None`
/// when the balance of some asset does not fit in a `u64`.
pub fn balances_by_asset(coins: &Vec<Coin>) -> (r: Option<Vec<(AssetId, u64)>>)
    ensures
        match r {
            Some(v) => is_balance_list(v@, coins@),
            None => exists|a: AssetId| asset_sum(coins@, a) > u64::MAX,
        },
{
    let mut out: Vec<(AssetId, u64)> = Vec::new();
    let mut n: usize = 0;
    while n < coins.len()
        invariant
            0 <= n <= coins@.len(),
            is_balance_list(out@, coins@.subrange(0, n as int)),
        decreases coins@.len() - n,
    {
        let c = coins[n];
        let ghost prefix = coins@.subrange(0, n as int);
        let ghost next = coins@.subrange(0, n + 1 as int);
        assert(next =~= prefix.push(c));
        let mut k: usize = 0;
        let mut found = false;
        while k < out.len()
            invariant_except_break
                !found,
            invariant
                0 <= k <= out@.len(),
                forall|i: int| 0 <= i < k ==> out@[i].0 != c.asset_id,
            ensures
                found ==> k < out@.len() && out@[k as int].0 == c.asset_id,
                !found ==> forall|i: int| 0 <= i < out@.len() ==> out@[i].0 != c.asset_id,
            decreases out@.len() - k,
        {
            if same_bytes(&out[k].0.bytes, &c.asset_id.bytes) {
                found = true;
                break;
            }
            k = k + 1;
        }
        if found {
            let (asset, total) = out[k];
            if total > u64::MAX - c.amount {
                proof {
                    lemma_asset_sum_step(prefix, c, c.asset_id);
                    lemma_asset_sum_prefix(coins@, c.asset_id, n + 1);
                }
                return None;
            }
            let ghost before = out@;
            out.set(k, (asset, total + c.amount));
            proof {
                lemma_balance_list_add_existing(before, prefix, c, k as int);
                assert(out@ == before.update(k as int, (before[k as int].0, (before[k as int].1 + c.amount) as u64)));
            }
        } else {
            let ghost before = out@;
            out.push((c.asset_id, c.amount));
            proof {
                lemma_balance_list_add_new(before, prefix, c);
            }
        }
        assert(next == prefix.push(c));
        n = n + 1;
    }
    assert(coins@.subrange(0, n as int) == coins@);
    Some(out)
}

proof fn lemma_asset_sum_step(coins: Seq<Coin>, c: Coin, asset: AssetId)
    ensures
        asset_sum(coins.push(c), asset) == asset_sum(coins, asset) + if c.asset_id == asset {
            c.amount as int
        } else {
            0
        },
{
    assert(coins.push(c).drop_last() == coins);
}

proof fn lemma_balance_list_add_existing(before: Seq<(AssetId, u64)>, coins: Seq<Coin>, c: Coin, k: int)
    requires
        is_balance_list(before, coins),
        0 <= k < before.len(),
        before[k].0 == c.asset_id,
        before[k].1 + c.amount <= u64::MAX,
    ensures
        is_balance_list(before.update(k, (before[k].0, (before[k].1 + c.amount) as u64)), coins.push(c)),
{
    let after = before.update(k, (before[k].0, (before[k].1 + c.amount) as u64));
    let next = coins.push(c);
    assert forall|i: int, j: int| 0 <= i < j < after.len() implies after[i].0 != after[j].0 by {
        assert(after[i].0 == before[i].0);
        assert(after[j].0 == before[j].0);
    }
    assert forall|i: int| 0 <= i < after.len() implies #[trigger] after[i].1 == asset_sum(next, after[i].0) by {
        lemma_asset_sum_step(coins, c, after[i].0);
        if i != k {
            assert(after[i] == before[i]);
        }
    }
    assert(asset_ids(next) == asset_ids(coins).push(c.asset_id));
    assert(listed_assets(after) =~= listed_assets(before));
    assert forall|i: int| 0 <= i < after.len() implies asset_ids(next).contains(#[trigger] after[i].0) by {
        assert(after[i].0 == before[i].0);
        assert(asset_ids(coins).contains(before[i].0));
        let j = choose|j: int| 0 <= j < asset_ids(coins).len() && asset_ids(coins)[j] == before[i].0;
        assert(asset_ids(next)[j] == after[i].0);
    }
    assert forall|m: int| 0 <= m < next.len() implies listed_assets(after).contains(#[trigger] next[m].asset_id) by {
        if m < coins.len() {
            assert(next[m] == coins[m]);
        } else {
            assert(listed_assets(after)[k] == next[m].asset_id);
        }
    }}

proof fn lemma_balance_list_add_new(before: Seq<(AssetId, u64)>, coins: Seq<Coin>, c: Coin)
    requires
        is_balance_list(before, coins),
        forall|i: int| 0 <= i < before.len() ==> before[i].0 != c.asset_id,
    ensures
        is_balance_list(before.push((c.asset_id, c.amount)), coins.push(c)),
{
    let after = before.push((c.asset_id, c.amount));
    let next = coins.push(c);
    assert forall|i: int, j: int| 0 <= i < j < after.len() implies after[i].0 != after[j].0 by {
        assert(after[i] == before[i]);
        if j < before.len() {
            assert(after[j] == before[j]);
        }
    }
    assert forall|m: int| 0 <= m < coins.len() implies coins[m].asset_id != c.asset_id by {
        assert(listed_assets(before).contains(coins[m].asset_id));
    }
    lemma_asset_sum_absent(coins, c.asset_id);
    assert forall|i: int| 0 <= i < after.len() implies #[trigger] after[i].1 == asset_sum(next, after[i].0) by {
        lemma_asset_sum_step(coins, c, after[i].0);
        if i < before.len() {
            assert(after[i] == before[i]);
        }
    }
    assert(asset_ids(next) =~= asset_ids(coins).push(c.asset_id));
    assert(listed_assets(after) =~= listed_assets(before).push(c.asset_id));
    assert forall|i: int| 0 <= i < after.len() implies asset_ids(next).contains(#[trigger] after[i].0) by {
        if i < before.len() {
            assert(after[i] == before[i]);
            assert(asset_ids(coins).contains(before[i].0));
            let j = choose|j: int| 0 <= j < asset_ids(coins).len() && asset_ids(coins)[j] == before[i].0;
            assert(asset_ids(next)[j] == after[i].0);
        } else {
            assert(asset_ids(next)[coins.len() as int] == after[i].0);
        }
    }
    assert forall|m: int| 0 <= m < next.len() implies listed_assets(after).contains(#[trigger] next[m].asset_id) by {
        if m < coins.len() {
            assert(next[m] == coins[m]);
            assert(listed_assets(before).contains(coins[m].asset_id));
            let j = choose|j: int| 0 <= j < listed_assets(before).len() && listed_assets(before)[j] == coins[m].asset_id;
            assert(listed_assets(after)[j] == next[m].asset_id);
        } else {
            assert(listed_assets(after)[before.len() as int] == next[m].asset_id);
        }
    }
}

/// The per-asset list and the single-asset sum agree: an asset listed has
/// the sum given with it, and an asset not listed has a sum of zero.
pub proof fn lemma_balance_list_matches_asset_sum(balances: Seq<(AssetId, u64)>, coins: Seq<Coin>, asset: AssetId)
    requires
        is_balance_list(balances, coins),
    ensures
        forall|i: int| 0 <= i < balances.len() && balances[i].0 == asset ==> balances[i].1 == asset_sum(coins, asset),
        !listed_assets(balances).contains(asset) ==> asset_sum(coins, asset) == 0,
{
    if !listed_assets(balances).contains(asset) {
        assert forall|k: int| 0 <= k < coins.len() implies coins[k].asset_id != asset by {
            assert(listed_assets(balances).contains(coins[k].asset_id));
        }
        lemma_asset_sum_absent(coins, asset);
    }
}

/// An asset that no coin carries sums to zero.
proof fn lemma_asset_sum_absent(coins: Seq<Coin>, asset: AssetId)
    requires
        forall|k: int| 0 <= k < coins.len() ==> coins[k].asset_id != asset,
    ensures
        asset_sum(coins, asset) == 0,
    decreases coins.len(),
{
    if coins.len() > 0 {
        assert(coins.last() == coins[coins.len() - 1]);
        lemma_asset_sum_absent(coins.drop_last(), asset);
    }
}

/// The asset sum of two runs of coins, one after the other, is the sum of
/// theirs.
pub proof fn lemma_asset_sum_concat(a: Seq<Coin>, b: Seq<Coin>, asset: AssetId)
    ensures
        asset_sum(a + b, asset) == asset_sum(a, asset) + asset_sum(b, asset),
    decreases b.len(),
{
    if b.len() > 0 {
        lemma_asset_sum_concat(a, b.drop_last(), asset);
        assert((a + b).drop_last() == a + b.drop_last());
    } else {
        assert(a + b == a);
    }
}

/// The sum of the asset sums of each page.
pub open spec fn pages_asset_sum(pages: Seq<Seq<Coin>>, asset: AssetId) -> int
    decreases pages.len(),
{
    if pages.len() == 0 {
        0
    } else {
        pages_asset_sum(pages.drop_last(), asset) + asset_sum(pages.last(), asset)
    }
}

/// The balance of the coins that a listing gathers is the sum of the
/// balances of its pages: splitting coins into pages changes no balance.
pub proof fn lemma_balance_over_pages(pages: Seq<Seq<Coin>>, asset: AssetId)
    ensures
        asset_sum(concat_pages(pages), asset) == pages_asset_sum(pages, asset),
    decreases pages.len(),
{
    if pages.len() > 0 {
        lemma_balance_over_pages(pages.drop_last(), asset);
        lemma_asset_sum_concat(concat_pages(pages.drop_last()), pages.last(), asset);
    }
}

} // verus!
