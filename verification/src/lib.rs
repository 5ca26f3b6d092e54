//! Verified core of the FabAccess access-control server: permissions,
//! roles, users, machine states, the lightweight process state word, the
//! card and API authentication exchanges, listen addresses, password hashes
//! and what the actor modules are told.

pub mod text;
pub mod permission;
pub mod role;
pub mod user;
pub mod machine;
pub mod proc_state;
pub mod atomic_state;
pub mod registry;
pub mod fabfire;
pub mod auth;
pub mod config;
pub mod password;
pub mod process;
pub mod shelly;
pub mod modules;
