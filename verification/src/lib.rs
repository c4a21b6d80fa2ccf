//! Core of a self-play data generator for two-player board games.
//!
//! A self-play server plays games against itself with a search that a
//! network guides, and writes what it played to shards from which the
//! network is trained. This crate holds the rules by which such a server
//! checks its settings, binds a game, lays out its threads and channels,
//! obeys its controller, batches evaluations, plays and records its games
//! and fills its shards, together with the proofs that these rules do what
//! they say.
//!
//! Everything here is logic over plain values. Sockets, files, threads,
//! devices, network runtimes and terminals belong to the program that embeds
//! this crate: it reads and writes, waits and sends, and asks the crate at
//! every step what is to be done.

pub mod board;
pub mod board_cache;
pub mod channel;
pub mod collector;
pub mod commander;
pub mod dispatch;
pub mod executor;
pub mod frame;
pub mod game;
pub mod generator;
pub mod inference;
pub mod mapping;
pub mod plan;
pub mod protocol;
pub mod random;
pub mod server;
pub mod settings;
pub mod simulation;
pub mod table;
pub mod text;
pub mod tree_laws;
pub mod tree_view;
