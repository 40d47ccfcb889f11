use vstd::prelude::*;

pub mod auth;
pub mod broker;
pub mod caps;
pub mod chrome;
pub mod commands;
pub mod config;
pub mod extensions;
pub mod fs;
pub mod host;
pub mod icon;
pub mod json;
pub mod laws;
pub mod menus;
pub mod num;
pub mod platform;
pub mod resource;
pub mod route_laws;
pub mod services;
pub mod system;
pub mod text;
pub mod tint;
pub mod windows;

verus! {

} // verus!
