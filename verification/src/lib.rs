use vstd::prelude::*;

pub mod text;
pub mod numbers;
pub mod titles;
pub mod self_api;
pub mod runnable;
pub mod conversations;
pub mod clips;
pub mod harness;
pub mod data_admin;
pub mod language_packs;
pub mod git;
pub mod canvas;
pub mod gifs;
pub mod hardware;
pub mod ids;
pub mod host_chat;
pub mod dashboards;
pub mod identity;
pub mod activity;
pub mod healing;
pub mod finetune;
pub mod append;
pub mod workspace;
pub mod sorting;
pub mod store;

verus! {
}
