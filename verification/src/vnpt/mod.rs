//! The VNPT CA plugin service.

pub mod plugin;
pub mod schema;
pub mod service;

use vstd::prelude::*;
use crate::vnpt::plugin::PluginCommands;

verus! {

/// What the service's request handlers share.
pub struct AppState {
    pub plugin: PluginCommands,
}

} // verus!
