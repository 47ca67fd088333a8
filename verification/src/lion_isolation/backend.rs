//! The decisions of the isolation backend: which plugins may be loaded, and when a plugin
//! may run a function.

use crate::lion_core::error::{IsolationError, SystemError};
use crate::lion_core::id::{uuid_text, PluginId};
use crate::lion_isolation::lifecycle::{PluginLifecycle, PluginState};
use vstd::prelude::*;

verus! {

/// The error for loading a plugin that is already loaded.
pub fn already_loaded(plugin_id: &PluginId) -> (r: SystemError)
    ensures
        r matches SystemError::Isolation(IsolationError::LoadFailed(s)) && s@ == "Plugin "@
            + uuid_text(plugin_id@) + " already exists"@,
{
    let mut s = String::from_str("Plugin ");
    let id_text = plugin_id.to_string();
    s.append(id_text.as_str());
    s.append(" already exists");
    SystemError::Isolation(IsolationError::LoadFailed(s))
}

/// Ready a plugin for a function call. A plugin that is neither loaded nor running refuses
/// the call and stays as it is; a loaded plugin starts running; a running one goes on.
pub fn begin_call(lifecycle: &mut PluginLifecycle) -> (r: Result<(), SystemError>)
    ensures
        r is Ok <==> PluginLifecycle::callable(old(lifecycle).spec_state()),
        r is Err ==> (r matches Err(SystemError::Isolation(IsolationError::ExecutionTrap(s)))
            && s@ == "Plugin "@ + uuid_text(old(lifecycle).spec_plugin_id()@)
            + " is not in a runnable state"@),
        r is Err ==> *final(lifecycle) == *old(lifecycle),
        r is Ok ==> final(lifecycle).spec_state() == PluginState::Running,
        final(lifecycle).spec_plugin_id() == old(lifecycle).spec_plugin_id(),
        final(lifecycle).spec_created_at() == old(lifecycle).spec_created_at(),
        final(lifecycle).spec_function_calls() == old(lifecycle).spec_function_calls(),
{
    if !lifecycle.can_call_function() {
        let mut s = String::from_str("Plugin ");
        let id_text = lifecycle.plugin_id().to_string();
        s.append(id_text.as_str());
        s.append(" is not in a runnable state");
        return Err(SystemError::Isolation(IsolationError::ExecutionTrap(s)));
    }
    if lifecycle.state() == PluginState::Loaded {
        lifecycle.transition_to(PluginState::Running);
    }
    Ok(())
}

} // verus!
