//! The lifecycle of a plugin in the isolation manager: its state, when it changed, and how
//! many functions it has run.

use std::time::Instant;
use vstd::prelude::*;

use crate::lion_core::id::PluginId;
use crate::lion_isolation::resource::instant_now;

verus! {

/// State of a plugin in the isolation manager.
#[derive(Debug, Clone, Copy, PartialEq, Eq, Structural)]
pub enum PluginState {
    /// The plugin is loading.
    Loading,
    /// The plugin is loaded.
    Loaded,
    /// The plugin is running.
    Running,
    /// The plugin is paused.
    Paused,
    /// The plugin has failed.
    Failed,
    /// The plugin is unloaded.
    Unloaded,
}

/// The lifecycle of a plugin.
#[derive(Debug, Clone)]
pub struct PluginLifecycle {
    plugin_id: PluginId,
    state: PluginState,
    created_at: Instant,
    last_state_change: Instant,
    function_calls: u64,
}

impl PluginLifecycle {
    /// The plugin's identifier.
    pub closed spec fn spec_plugin_id(self) -> PluginId {
        self.plugin_id
    }

    /// The plugin's state.
    pub closed spec fn spec_state(self) -> PluginState {
        self.state
    }

    /// When the lifecycle began.
    pub closed spec fn spec_created_at(self) -> Instant {
        self.created_at
    }

    /// When the state last changed.
    pub closed spec fn spec_last_state_change(self) -> Instant {
        self.last_state_change
    }

    /// How many functions the plugin has run.
    pub closed spec fn spec_function_calls(self) -> u64 {
        self.function_calls
    }

    /// Functions may be called in the loaded and running states only.
    pub open spec fn callable(state: PluginState) -> bool {
        state is Loaded || state is Running
    }

    /// A lifecycle in the given state, begun now, with no function calls.
    pub fn new(plugin_id: PluginId, state: PluginState) -> (r: Self)
        ensures
            r.spec_plugin_id() == plugin_id,
            r.spec_state() == state,
            r.spec_function_calls() == 0,
            r.spec_last_state_change() == r.spec_created_at(),
    {
        let now = instant_now();
        Self { plugin_id, state, created_at: now, last_state_change: now, function_calls: 0 }
    }

    /// The plugin's identifier.
    pub fn plugin_id(&self) -> (r: &PluginId)
        ensures
            *r == self.spec_plugin_id(),
    {
        &self.plugin_id
    }

    /// The plugin's state.
    pub fn state(&self) -> (r: PluginState)
        ensures
            r == self.spec_state(),
    {
        self.state
    }

    /// When the lifecycle began.
    pub fn created_at(&self) -> (r: Instant)
        ensures
            r == self.spec_created_at(),
    {
        self.created_at
    }

    /// When the state last changed.
    pub fn last_state_change(&self) -> (r: Instant)
        ensures
            r == self.spec_last_state_change(),
    {
        self.last_state_change
    }

    /// How many functions the plugin has run.
    pub fn function_calls(&self) -> (r: u64)
        ensures
            r == self.spec_function_calls(),
    {
        self.function_calls
    }

    /// Move to the given state, whatever the current one, and note the time of the change.
    pub fn transition_to(&mut self, state: PluginState)
        ensures
            final(self).spec_state() == state,
            final(self).spec_plugin_id() == old(self).spec_plugin_id(),
            final(self).spec_created_at() == old(self).spec_created_at(),
            final(self).spec_function_calls() == old(self).spec_function_calls(),
    {
        self.state = state;
        self.last_state_change = instant_now();
    }

    /// Whether the plugin may run a function now.
    pub fn can_call_function(&self) -> (r: bool)
        ensures
            r == Self::callable(self.spec_state()),
    {
        match self.state {
            PluginState::Loaded | PluginState::Running => true,
            _ => false,
        }
    }

    /// Count one more function call.
    pub fn increment_function_calls(&mut self)
        requires
            old(self).spec_function_calls() < u64::MAX,
        ensures
            final(self).spec_function_calls() == old(self).spec_function_calls() + 1,
            final(self).spec_state() == old(self).spec_state(),
            final(self).spec_plugin_id() == old(self).spec_plugin_id(),
            final(self).spec_created_at() == old(self).spec_created_at(),
            final(self).spec_last_state_change() == old(self).spec_last_state_change(),
    {
        self.function_calls = self.function_calls + 1;
    }
}

} // verus!
