//! A brokerage order-lifecycle engine: pre-trade validation, a user ledger
//! with average-cost holdings, and a work queue that drives every order
//! through its state machine to a terminal status.
//!
//! Cash amounts and prices are fixed-point decimals with four fractional
//! digits, so that every monetary rule is exact integer arithmetic.
//!
//! The engine keeps its state in memory and decides; what is outside it
//! (the clock, fresh identifiers, random draws, the password hash) comes in
//! through the few functions of [`sys`]. Each operation that reads one of
//! them has a twin that takes the value as an argument and says exactly
//! what it does with it.
//!
//! - [`money`], [`text`]: amounts, and numbers as text.
//! - [`order`], [`user`], [`portfolio`], [`account`]: the records and their
//!   stores, on top of [`in_memory`] and [`db`].
//! - [`pre_trade`]: the rules an order must pass.
//! - [`order_processing`], [`broker`]: the queue, the state machine and the
//!   entry points; [`laws`] states what holds of every step, [`runs`] what
//!   holds over any sequence of them.
//! - [`mfa`], [`web`], [`api`], [`display`], [`session`]: the second factor
//!   of signing in, and what the pages and the programming interface decide.
//! - [`slo`]: the service levels and the figures of a load run.

pub mod account;
pub mod api;
pub mod broker;
pub mod db;
pub mod display;
pub mod in_memory;
pub mod laws;
pub mod mfa;
pub mod money;
pub mod order;
pub mod order_processing;
pub mod portfolio;
pub mod pre_trade;
pub mod runs;
pub mod session;
pub mod slo;
pub mod sys;
pub mod text;
pub mod user;
pub mod web;
