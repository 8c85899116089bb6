//! A liquidity mining rewards engine.
//!
//! A *global farm* holds a reward budget in escrow and accrues rewards
//! period by period for the stake of its *yield farms*. A yield farm is the
//! incentive layer of one pool under one global farm: it collects its share
//! of the accrued rewards and spreads it over the pool shares that are
//! locked into it, valued in the incentivized asset. A *deposit* is a lot of
//! locked pool shares with one entry for each yield farm it earns from.
//!
//! The engine is a state, [`state::LiquidityMining`], and the operations on
//! it. Each operation either succeeds or changes nothing. What an
//! operation does is given by a function on [`state::State`], the state as
//! a mathematical value; the rules that every reachable state obeys are
//! [`state::State::wf`]; what follows from them, and what holds of
//! operations one after another, is proved in [`laws`], [`accrual`] and
//! [`loyalty`].
//!
//! - [`fixed`]: fixed-point numbers
//! - [`types`]: the records and the errors
//! - [`loyalty`]: the loyalty curve
//! - [`accrual`]: the settlement of a global farm and a yield farm
//! - [`ledger`]: balances
//! - [`amm`]: the registry of pools
//! - [`handler`]: the handler that is told of the updates of accumulators
//! - [`state`]: the state and its rules
//! - [`engine`]: setting up, the clock, reading
//! - [`global_farm`], [`yield_farm`], [`deposit`], [`claim`]: the operations
//! - [`laws`]: what holds of every state and of operations in sequence
//! - [`audit`]: checking at run time that a state obeys the rules

pub mod fixed;
pub mod types;
pub mod loyalty;
pub mod accrual;
pub mod ledger;
pub mod amm;
pub mod state;
pub mod handler;
pub mod engine;
pub mod global_farm;
pub mod yield_farm;
pub mod deposit;
pub mod claim;
pub mod laws;
pub mod audit;
