//! The registry of the pools whose shares can be locked.

use vstd::prelude::*;
use vstd::string::StringExecFns;
use crate::types::{AmmPoolId, AssetId};

verus! {

/// The pool that stands in for the pool of a pair of assets that has none.
pub const DEFAULT_AMM: AmmPoolId = 11_007;

/// The asset that stands in for the share token of a pair of assets that
/// has no pool.
pub const BSX: AssetId = 1000;

/// The two assets of a pool, in the order the pool was registered with.
#[derive(Clone, Copy, Debug, PartialEq, Eq, Structural)]
pub struct AssetPair {
    pub asset_in: AssetId,
    pub asset_out: AssetId,
}

/// A pool: its assets, its account and the token that stands for a share
/// of its liquidity.
#[derive(Clone, Copy, Debug, PartialEq, Eq)]
pub struct Pool {
    pub assets: AssetPair,
    pub pool_id: AmmPoolId,
    pub share_token: AssetId,
}

/// The first pool from `start` on that trades `assets`.
pub open spec fn pool_of_assets(pools: Seq<Pool>, assets: AssetPair, start: int) -> Option<Pool>
    decreases pools.len() - start,
{
    if start < 0 || start >= pools.len() {
        None
    } else if pools[start].assets == assets {
        Some(pools[start])
    } else {
        pool_of_assets(pools, assets, start + 1)
    }
}

/// The first pool from `start` on whose account is `pool_id`.
pub open spec fn pool_of_id(pools: Seq<Pool>, pool_id: AmmPoolId, start: int) -> Option<Pool>
    decreases pools.len() - start,
{
    if start < 0 || start >= pools.len() {
        None
    } else if pools[start].pool_id == pool_id {
        Some(pools[start])
    } else {
        pool_of_id(pools, pool_id, start + 1)
    }
}

/// The account of the first pool that trades `assets`, in this order, or
/// `DEFAULT_AMM` if there is none.
pub open spec fn pair_id_of(pools: Seq<Pool>, assets: AssetPair) -> AmmPoolId {
    match pool_of_assets(pools, assets, 0) {
        Some(p) => p.pool_id,
        None => DEFAULT_AMM,
    }
}

/// The share token of the first pool that trades `assets`, in this order,
/// or `BSX` if there is none.
pub open spec fn share_token_of_pair(pools: Seq<Pool>, assets: AssetPair) -> AssetId {
    match pool_of_assets(pools, assets, 0) {
        Some(p) => p.share_token,
        None => BSX,
    }
}

/// The share token of the pool `pool_id`.
pub open spec fn share_token_of(pools: Seq<Pool>, pool_id: AmmPoolId) -> Option<AssetId> {
    match pool_of_id(pools, pool_id, 0) {
        Some(p) => Some(p.share_token),
        None => None,
    }
}

/// The character for a digit.
pub open spec fn digit_char(d: nat) -> char {
    if d == 0 {
        '0'
    } else if d == 1 {
        '1'
    } else if d == 2 {
        '2'
    } else if d == 3 {
        '3'
    } else if d == 4 {
        '4'
    } else if d == 5 {
        '5'
    } else if d == 6 {
        '6'
    } else if d == 7 {
        '7'
    } else if d == 8 {
        '8'
    } else {
        '9'
    }
}

/// A number in decimal notation.
pub open spec fn decimal(n: nat) -> Seq<char>
    decreases n,
{
    if n < 10 {
        seq![digit_char(n)]
    } else {
        decimal(n / 10).push(digit_char(n % 10))
    }
}

/// The key of a pair of assets: `in:`, the first asset, `_out:`, and the
/// second asset.
pub open spec fn map_key(assets: AssetPair) -> Seq<char> {
    seq!['i', 'n', ':'] + decimal(assets.asset_in as nat) + seq!['_', 'o', 'u', 't', ':']
        + decimal(assets.asset_out as nat)
}

/// The text for a digit.
fn digit_str(d: u32) -> (r: &'static str)
    requires
        d < 10,
    ensures
        r@ == seq![digit_char(d as nat)],
{
    proof {
        reveal_strlit("0");
        reveal_strlit("1");
        reveal_strlit("2");
        reveal_strlit("3");
        reveal_strlit("4");
        reveal_strlit("5");
        reveal_strlit("6");
        reveal_strlit("7");
        reveal_strlit("8");
        reveal_strlit("9");
    }
    let r: &'static str = match d {
        0 => "0",
        1 => "1",
        2 => "2",
        3 => "3",
        4 => "4",
        5 => "5",
        6 => "6",
        7 => "7",
        8 => "8",
        _ => "9",
    };
    proof {
        assert(r@ =~= seq![digit_char(d as nat)]);
    }
    r
}

/// Appends a number in decimal notation to a text.
fn append_decimal(text: &mut String, n: u32)
    ensures
        final(text)@ == old(text)@ + decimal(n as nat),
    decreases n,
{
    if n >= 10 {
        append_decimal(text, n / 10);
    }
    text.append(digit_str(n % 10));
    proof {
        assert(text@ =~= old(text)@ + decimal(n as nat));
    }
}

/// The key of a pair of assets, as a text.
pub fn asset_pair_to_map_key(assets: AssetPair) -> (r: String)
    ensures
        r@ == map_key(assets),
{
    let mut key: String = String::new();
    proof {
        reveal_strlit("in:");
        reveal_strlit("_out:");
    }
    key.append("in:");
    append_decimal(&mut key, assets.asset_in);
    key.append("_out:");
    append_decimal(&mut key, assets.asset_out);
    proof {
        assert(key@ =~= map_key(assets));
    }
    key
}

/// The registered pools. Where a pair of assets or an account was
/// registered twice, the first registration counts.
#[derive(Clone, Debug, PartialEq, Eq)]
pub struct Amm {
    pub pools: Vec<Pool>,
}

impl View for Amm {
    type V = Seq<Pool>;

    open spec fn view(&self) -> Seq<Pool> {
        self.pools@
    }
}

impl Amm {
    /// A registry without pools.
    pub fn new() -> (r: Amm)
        ensures
            r@ == Seq::<Pool>::empty(),
    {
        Amm { pools: Vec::new() }
    }

    /// Registers a pool.
    pub fn add_pool(&mut self, assets: AssetPair, pool_id: AmmPoolId, share_token: AssetId)
        ensures
            final(self)@ == old(self)@.push(Pool { assets, pool_id, share_token }),
    {
        self.pools.push(Pool { assets, pool_id, share_token });
    }

    fn find_by_assets(&self, assets: AssetPair) -> (r: Option<Pool>)
        ensures
            r == pool_of_assets(self@, assets, 0),
    {
        let mut i: usize = 0;
        while i < self.pools.len()
            invariant
                i <= self.pools.len(),
                pool_of_assets(self@, assets, 0) == pool_of_assets(self@, assets, i as int),
            decreases self.pools.len() - i,
        {
            let p: Pool = self.pools[i];
            if p.assets.asset_in == assets.asset_in && p.assets.asset_out == assets.asset_out {
                return Some(p);
            }
            i += 1;
        }
        None
    }

    fn find_by_id(&self, pool_id: AmmPoolId) -> (r: Option<Pool>)
        ensures
            r == pool_of_id(self@, pool_id, 0),
    {
        let mut i: usize = 0;
        while i < self.pools.len()
            invariant
                i <= self.pools.len(),
                pool_of_id(self@, pool_id, 0) == pool_of_id(self@, pool_id, i as int),
            decreases self.pools.len() - i,
        {
            let p: Pool = self.pools[i];
            if p.pool_id == pool_id {
                return Some(p);
            }
            i += 1;
        }
        None
    }

    /// Whether a pool trades `assets`.
    pub fn is_registered(&self, assets: AssetPair) -> (r: bool)
        ensures
            r == pool_of_assets(self@, assets, 0).is_some(),
    {
        self.find_by_assets(assets).is_some()
    }

    /// The account of the pool that trades `assets`, in this order; that
    /// of the default pool where no pool does.
    pub fn get_pair_id(&self, assets: AssetPair) -> (r: AmmPoolId)
        ensures
            r == pair_id_of(self@, assets),
    {
        match self.find_by_assets(assets) {
            Some(p) => p.pool_id,
            None => DEFAULT_AMM,
        }
    }

    /// The share token of the pool that trades `assets`, in this order;
    /// the default asset where no pool does.
    pub fn get_share_token(&self, assets: AssetPair) -> (r: AssetId)
        ensures
            r == share_token_of_pair(self@, assets),
    {
        match self.find_by_assets(assets) {
            Some(p) => p.share_token,
            None => BSX,
        }
    }

    /// The share token of the pool with the account `pool_id`.
    pub fn share_token(&self, pool_id: AmmPoolId) -> (r: Option<AssetId>)
        ensures
            r == share_token_of(self@, pool_id),
    {
        match self.find_by_id(pool_id) {
            Some(p) => Some(p.share_token),
            None => None,
        }
    }
}

} // verus!
