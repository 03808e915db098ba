//! Tracking of lottery bets against official draw results.
//!
//! The library holds the verified logic: how many numbers of a bet a draw
//! hits, how a payload from a result source becomes a validated draw result,
//! the decisions of the two-tier fetch and of the search for the latest draw,
//! and a store of bets, results and the links between them.
pub mod acertos;
pub mod modelos;
pub mod database;
pub mod api;
pub mod comandos;
