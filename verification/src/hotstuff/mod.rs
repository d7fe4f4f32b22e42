//! The HotStuff rules that a validator applies when a locally proposed block is ready to vote on.
pub mod block_processing;
pub mod models;
pub mod vote_decision;
pub mod voting;
