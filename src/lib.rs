//! Backend core of a local multiplayer console hub: which controller holds which
//! player slot, the active game that scopes save and leaderboard data, and the
//! protocol that streams slot states to websocket clients.
//!
//! - `slot_table`: the slot table, its id map and their invariant.
//! - `gamepad_manager`: connect, disconnect, stale eviction and swap.
//! - `slot_laws`: what holds of those operations over every table.
//! - `game_state`: the active-game cell and its reconciler step.
//! - `player_slots_socket`: the per-client protocol and its wire format.
//! - `records`: plain records and query checks used around the store.

pub mod game_state;
pub mod gamepad_manager;
pub mod player_slots_socket;
pub mod records;
pub mod slot_laws;
pub mod slot_table;
