//! A pool of reusable plugin instances, kept per plugin up to a bound, and the outcome of a
//! call into a pooled instance.

use crate::lion_core::error::{IsolationError, SystemError};
use crate::lion_core::id::{uuid_text, PluginId};
use crate::lion_isolation::hostcall::{signed_decimal, signed_text};
use vstd::prelude::*;

verus! {

/// The instances kept for a plugin in a list of entries, if the plugin has an entry.
pub open spec fn entry_of<I>(entries: Seq<(PluginId, Vec<I>)>, id: u128) -> Option<Seq<I>> {
    if exists|k: int| 0 <= k < entries.len() && #[trigger] entries[k].0@ == id {
        let k = choose|k: int| 0 <= k < entries.len() && #[trigger] entries[k].0@ == id;
        Some(entries[k].1@)
    } else {
        None
    }
}

/// No plugin has two entries.
pub open spec fn unique_keys<I>(entries: Seq<(PluginId, Vec<I>)>) -> bool {
    forall|a: int, b: int| 0 <= a < b < entries.len() ==> entries[a].0@ != entries[b].0@
}

proof fn lemma_entry_at<I>(entries: Seq<(PluginId, Vec<I>)>, k: int)
    requires
        unique_keys(entries),
        0 <= k < entries.len(),
    ensures
        entry_of(entries, entries[k].0@) == Some(entries[k].1@),
{
    let id = entries[k].0@;
    assert(entries[k].0@ == id);
    let c = choose|c: int| 0 <= c < entries.len() && #[trigger] entries[c].0@ == id;
    if c < k {
        assert(entries[c].0@ != entries[k].0@);
    } else if k < c {
        assert(entries[k].0@ != entries[c].0@);
    }
}

proof fn lemma_entry_same<I>(
    before: Seq<(PluginId, Vec<I>)>,
    after: Seq<(PluginId, Vec<I>)>,
    id: u128,
)
    requires
        unique_keys(before),
        unique_keys(after),
        forall|k: int| 0 <= k < before.len() && before[k].0@ == id ==> exists|m: int|
            0 <= m < after.len() && after[m] == before[k],
        forall|m: int| 0 <= m < after.len() && after[m].0@ == id ==> exists|k: int|
            0 <= k < before.len() && before[k] == after[m],
    ensures
        entry_of(after, id) == entry_of(before, id),
{
    if exists|k: int| 0 <= k < before.len() && #[trigger] before[k].0@ == id {
        let k = choose|k: int| 0 <= k < before.len() && #[trigger] before[k].0@ == id;
        lemma_entry_at(before, k);
        let m = choose|m: int| 0 <= m < after.len() && after[m] == before[k];
        lemma_entry_at(after, m);
    } else if exists|m: int| 0 <= m < after.len() && #[trigger] after[m].0@ == id {
        let m = choose|m: int| 0 <= m < after.len() && #[trigger] after[m].0@ == id;
        let k = choose|k: int| 0 <= k < before.len() && before[k] == after[m];
        assert(before[k].0@ == id);
    }
}

/// What a plugin's idle instances become when an instance is given back: the pool keeps it
/// only while the plugin has fewer idle instances than the bound.
pub open spec fn kept_after_return<I>(idle: Seq<I>, max: nat, instance: I) -> Seq<I> {
    if idle.len() < max {
        idle.push(instance)
    } else {
        idle
    }
}

/// An instance given back to a plugin whose idle instances are below the bound is the one
/// handed out next, and taking it leaves the idle instances as they were; and giving an
/// instance back never takes a plugin's idle instances past the bound.
pub proof fn lemma_return_then_get<I>(idle: Seq<I>, max: nat, instance: I)
    ensures
        idle.len() < max ==> kept_after_return(idle, max, instance).last() == instance,
        idle.len() < max ==> kept_after_return(idle, max, instance).drop_last() == idle,
        idle.len() <= max ==> kept_after_return(idle, max, instance).len() <= max,
{
    assert(idle.push(instance).drop_last() =~= idle);
}

/// A pool of instances, kept per plugin, with at most a bound of instances per plugin.
pub struct InstancePool<I> {
    /// Each plugin with its idle instances; no plugin occurs twice.
    instances: Vec<(PluginId, Vec<I>)>,
    /// The most instances kept for one plugin.
    max_instances_per_plugin: usize,
}

impl<I> InstancePool<I> {
    #[verifier::type_invariant]
    spec fn well_formed(self) -> bool {
        unique_keys(self.instances@)
    }

    /// The idle instances kept for a plugin, or `None` where the pool has no entry for it.
    pub closed spec fn instances_of(self, id: PluginId) -> Option<Seq<I>> {
        entry_of(self.instances@, id@)
    }

    /// The most instances kept for one plugin.
    pub closed spec fn max_per_plugin(self) -> nat {
        self.max_instances_per_plugin as nat
    }

    /// An empty pool that keeps up to ten instances per plugin.
    pub fn new() -> (r: Self)
        ensures
            forall|id: PluginId| r.instances_of(id) is None,
            r.max_per_plugin() == 10,
    {
        Self { instances: Vec::new(), max_instances_per_plugin: 10 }
    }

    /// The position of the plugin's entry, if it has one.
    fn position(&self, plugin_id: &PluginId) -> (r: Option<usize>)
        ensures
            match r {
                Some(k) => k < self.instances@.len() && self.instances@[k as int].0@
                    == plugin_id@,
                None => forall|k: int|
                    0 <= k < self.instances@.len() ==> self.instances@[k].0@ != plugin_id@,
            },
    {
        let mut k: usize = 0;
        while k < self.instances.len()
            invariant
                k <= self.instances@.len(),
                forall|m: int| 0 <= m < k ==> self.instances@[m].0@ != plugin_id@,
            decreases self.instances@.len() - k,
        {
            if self.instances[k].0.bits() == plugin_id.bits() {
                return Some(k);
            }
            k = k + 1;
        }
        None
    }

    /// Set the most instances kept for one plugin.
    pub fn set_max_instances_per_plugin(&mut self, max: usize)
        ensures
            final(self).max_per_plugin() == max,
            forall|id: PluginId| final(self).instances_of(id) == old(self).instances_of(id),
    {
        proof {
            use_type_invariant(&*self);
        }
        self.max_instances_per_plugin = max;
    }

    /// Take an idle instance of a plugin out of the pool: the one returned last.
    pub fn get_instance(&mut self, plugin_id: &PluginId) -> (r: Option<I>)
        ensures
            final(self).max_per_plugin() == old(self).max_per_plugin(),
            forall|id: PluginId|
                id@ != plugin_id@ ==> final(self).instances_of(id) == old(self).instances_of(id),
            match old(self).instances_of(*plugin_id) {
                Some(s) => if s.len() == 0 {
                    r is None && final(self).instances_of(*plugin_id) == Some(s)
                } else {
                    r == Some(s.last()) && final(self).instances_of(*plugin_id) == Some(
                        s.drop_last(),
                    )
                },
                None => r is None && final(self).instances_of(*plugin_id) is None,
            },
    {
        proof {
            use_type_invariant(&*self);
        }
        let ghost before = self.instances@;
        let found = self.position(plugin_id);
        match found {
            None => {
                proof {
                    assert(!exists|k: int|
                        0 <= k < before.len() && #[trigger] before[k].0@ == plugin_id@);
                }
                None
            },
            Some(k) => {
                proof {
                    lemma_entry_at(before, k as int);
                }
                if self.instances[k].1.len() == 0 {
                    return None;
                }
                let mut entries: Vec<(PluginId, Vec<I>)> = Vec::new();
                std::mem::swap(&mut entries, &mut self.instances);
                let (id, mut list) = entries.remove(k);
                let item = list.pop();
                entries.insert(k, (id, list));
                proof {
                    let after = entries@;
                    assert(after =~= before.update(k as int, after[k as int]));
                    assert(unique_keys(after)) by {
                        assert forall|a: int, b: int| 0 <= a < b < after.len() implies after[a].0@
                            != after[b].0@ by {
                            assert(before[a].0@ != before[b].0@);
                        }
                    }
                    lemma_entry_at(after, k as int);
                    assert forall|other: u128| other != plugin_id@ implies entry_of(
                        after,
                        other,
                    ) == entry_of(before, other) by {
                        assert forall|m: int|
                            0 <= m < before.len() && before[m].0@ == other implies exists|n: int|
                            0 <= n < after.len() && after[n] == before[m] by {
                            assert(after[m] == before[m]);
                        }
                        assert forall|m: int|
                            0 <= m < after.len() && after[m].0@ == other implies exists|n: int|
                            0 <= n < before.len() && before[n] == after[m] by {
                            assert(after[m] == before[m]);
                        }
                        lemma_entry_same(before, after, other);
                    }
                }
                self.instances = entries;
                item
            },
        }
    }

    /// Give an instance of a plugin back to the pool, which keeps it only while the plugin
    /// has fewer idle instances than the bound. The plugin gets an entry either way.
    pub fn return_instance(&mut self, plugin_id: PluginId, instance: I)
        ensures
            final(self).max_per_plugin() == old(self).max_per_plugin(),
            forall|id: PluginId|
                id@ != plugin_id@ ==> final(self).instances_of(id) == old(self).instances_of(id),
            ({
                let s = match old(self).instances_of(plugin_id) {
                    Some(s) => s,
                    None => Seq::empty(),
                };
                final(self).instances_of(plugin_id) == Some(
                    kept_after_return(s, old(self).max_per_plugin(), instance),
                )
            }),
    {
        self.ensure_plugin(plugin_id);
        proof {
            use_type_invariant(&*self);
        }
        let ghost before = self.instances@;
        let found = self.position(&plugin_id);
        let k = match found {
            Some(k) => k,
            None => return ,
        };
        proof {
            lemma_entry_at(before, k as int);
        }
        if self.instances[k].1.len() < self.max_instances_per_plugin {
            let mut entries: Vec<(PluginId, Vec<I>)> = Vec::new();
            std::mem::swap(&mut entries, &mut self.instances);
            let (id, mut list) = entries.remove(k);
            list.push(instance);
            entries.insert(k, (id, list));
            proof {
                let after = entries@;
                assert(after =~= before.update(k as int, after[k as int]));
                assert(unique_keys(after)) by {
                    assert forall|a: int, b: int| 0 <= a < b < after.len() implies after[a].0@
                        != after[b].0@ by {
                        assert(before[a].0@ != before[b].0@);
                    }
                }
                lemma_entry_at(after, k as int);
                assert forall|other: u128| other != plugin_id@ implies entry_of(after, other)
                    == entry_of(before, other) by {
                    assert forall|m: int|
                        0 <= m < before.len() && before[m].0@ == other implies exists|n: int|
                        0 <= n < after.len() && after[n] == before[m] by {
                        assert(after[m] == before[m]);
                    }
                    assert forall|m: int|
                        0 <= m < after.len() && after[m].0@ == other implies exists|n: int|
                        0 <= n < before.len() && before[n] == after[m] by {
                        assert(after[m] == before[m]);
                    }
                    lemma_entry_same(before, after, other);
                }
            }
            self.instances = entries;
        }
    }

    /// Give a plugin an entry, with no instances, unless it has one.
    pub fn ensure_plugin(&mut self, plugin_id: PluginId)
        ensures
            final(self).max_per_plugin() == old(self).max_per_plugin(),
            forall|id: PluginId|
                id@ != plugin_id@ ==> final(self).instances_of(id) == old(self).instances_of(id),
            final(self).instances_of(plugin_id) == match old(self).instances_of(plugin_id) {
                Some(s) => Some(s),
                None => Some(Seq::<I>::empty()),
            },
    {
        proof {
            use_type_invariant(&*self);
        }
        let ghost before = self.instances@;
        match self.position(&plugin_id) {
            Some(k) => {
                proof {
                    lemma_entry_at(before, k as int);
                }
            },
            None => {
                let mut entries: Vec<(PluginId, Vec<I>)> = Vec::new();
                std::mem::swap(&mut entries, &mut self.instances);
                entries.push((plugin_id, Vec::new()));
                proof {
                    let after = entries@;
                    let n = before.len() as int;
                    assert(unique_keys(after)) by {
                        assert forall|a: int, b: int| 0 <= a < b < after.len() implies after[a].0@
                            != after[b].0@ by {
                            assert(after[a] == before[a]);
                            if b < n {
                                assert(after[b] == before[b]);
                            }
                        }
                    }
                    lemma_entry_at(after, n);
                    assert(after[n].1@ =~= Seq::<I>::empty());
                    assert(!exists|k: int|
                        0 <= k < before.len() && #[trigger] before[k].0@ == plugin_id@);
                    assert forall|other: u128| other != plugin_id@ implies entry_of(
                        after,
                        other,
                    ) == entry_of(before, other) by {
                        assert forall|m: int|
                            0 <= m < before.len() && before[m].0@ == other implies exists|n: int|
                            0 <= n < after.len() && after[n] == before[m] by {
                            assert(after[m] == before[m]);
                        }
                        assert forall|m: int|
                            0 <= m < after.len() && after[m].0@ == other implies exists|n: int|
                            0 <= n < before.len() && before[n] == after[m] by {
                            assert(after[m] == before[m]);
                        }
                        lemma_entry_same(before, after, other);
                    }
                }
                self.instances = entries;
            },
        }
    }

    /// Drop a plugin's entry, with all its instances.
    pub fn remove_plugin_instances(&mut self, plugin_id: &PluginId)
        ensures
            final(self).max_per_plugin() == old(self).max_per_plugin(),
            forall|id: PluginId|
                id@ != plugin_id@ ==> final(self).instances_of(id) == old(self).instances_of(id),
            final(self).instances_of(*plugin_id) is None,
    {
        proof {
            use_type_invariant(&*self);
        }
        let ghost before = self.instances@;
        match self.position(plugin_id) {
            None => {
                proof {
                    assert(!exists|k: int|
                        0 <= k < before.len() && #[trigger] before[k].0@ == plugin_id@);
                }
            },
            Some(k) => {
                let mut entries: Vec<(PluginId, Vec<I>)> = Vec::new();
                std::mem::swap(&mut entries, &mut self.instances);
                let _removed = entries.remove(k);
                proof {
                    let after = entries@;
                    assert(after =~= before.remove(k as int));
                    let shift = |m: int| if m < k { m } else { m + 1 };
                    assert forall|m: int| 0 <= m < after.len() implies after[m] == before[shift(
                        m,
                    )] by {}
                    assert(unique_keys(after)) by {
                        assert forall|a: int, b: int| 0 <= a < b < after.len() implies after[a].0@
                            != after[b].0@ by {
                            assert(after[a] == before[shift(a)]);
                            assert(after[b] == before[shift(b)]);
                        }
                    }
                    assert(!exists|m: int|
                        0 <= m < after.len() && #[trigger] after[m].0@ == plugin_id@) by {
                        assert forall|m: int| 0 <= m < after.len() implies after[m].0@
                            != plugin_id@ by {
                            assert(after[m] == before[shift(m)]);
                            assert(before[k as int].0@ == plugin_id@);
                        }
                    }
                    assert forall|other: u128| other != plugin_id@ implies entry_of(
                        after,
                        other,
                    ) == entry_of(before, other) by {
                        assert forall|m: int|
                            0 <= m < before.len() && before[m].0@ == other implies exists|n: int|
                            0 <= n < after.len() && after[n] == before[m] by {
                            let n = if m < k {
                                m
                            } else {
                                m - 1
                            };
                            assert(m != k);
                            assert(after[n] == before[m]);
                        }
                        assert forall|m: int|
                            0 <= m < after.len() && after[m].0@ == other implies exists|n: int|
                            0 <= n < before.len() && before[n] == after[m] by {
                            assert(after[m] == before[shift(m)]);
                        }
                        lemma_entry_same(before, after, other);
                    }
                }
                self.instances = entries;
            },
        }
    }

    /// The idle instances kept for a plugin, or `None` where the pool has no entry for it.
    pub fn plugin_instances(&self, plugin_id: &PluginId) -> (r: Option<&Vec<I>>)
        ensures
            match r {
                Some(v) => self.instances_of(*plugin_id) == Some(v@),
                None => self.instances_of(*plugin_id) is None,
            },
    {
        proof {
            use_type_invariant(self);
        }
        match self.position(plugin_id) {
            Some(k) => {
                proof {
                    lemma_entry_at(self.instances@, k as int);
                }
                Some(&self.instances[k].1)
            },
            None => None,
        }
    }
}

impl<I> Default for InstancePool<I> {
    fn default() -> (r: Self)
        ensures
            forall|id: PluginId| r.instances_of(id) is None,
            r.max_per_plugin() == 10,
    {
        Self::new()
    }
}

/// What a call of a function in a pooled instance of a plugin comes to. `found` says whether
/// the instance exports the function; `called` is what the call gave (the value it returned,
/// or the error's text); `limits` is the resource check made after a call that returned a
/// value that is not negative.
pub fn call_outcome(
    function_name: &str,
    plugin_id: &PluginId,
    found: bool,
    called: &Result<i32, String>,
    limits: Result<(), IsolationError>,
) -> (r: Result<Vec<u8>, SystemError>)
    ensures
        !found ==> (r matches Err(SystemError::Isolation(IsolationError::LinkingFailed(s))) && s@
            == "Function '"@ + function_name@ + "' not found in plugin "@ + uuid_text(
            plugin_id@,
        )),
        found && called is Err ==> (r matches Err(
            SystemError::Isolation(IsolationError::ExecutionTrap(s)),
        ) && s@ == "Failed to call function '"@ + function_name@ + "' in plugin "@ + uuid_text(
            plugin_id@,
        ) + ": "@ + called->Err_0@),
        found && called is Ok && called->Ok_0 < 0 ==> (r matches Err(
            SystemError::Isolation(IsolationError::ExecutionTrap(s)),
        ) && s@ == "Function '"@ + function_name@ + "' returned error code "@ + signed_decimal(
            called->Ok_0 as int,
        )),
        found && called is Ok && called->Ok_0 >= 0 ==> match limits {
            Err(e) => r == Err::<Vec<u8>, SystemError>(SystemError::Isolation(e)),
            Ok(_) => r matches Ok(v) && v@.len() == 0,
        },
{
    if !found {
        let mut s = String::from_str("Function '");
        s.append(function_name);
        s.append("' not found in plugin ");
        let id_text = plugin_id.to_string();
        s.append(id_text.as_str());
        return Err(SystemError::Isolation(IsolationError::LinkingFailed(s)));
    }
    match called {
        Err(e) => {
            let mut s = String::from_str("Failed to call function '");
            s.append(function_name);
            s.append("' in plugin ");
            let id_text = plugin_id.to_string();
            s.append(id_text.as_str());
            s.append(": ");
            s.append(e.as_str());
            Err(SystemError::Isolation(IsolationError::ExecutionTrap(s)))
        },
        Ok(code) => {
            if *code < 0 {
                let mut s = String::from_str("Function '");
                s.append(function_name);
                s.append("' returned error code ");
                let code_text = signed_text(*code);
                s.append(code_text.as_str());
                Err(SystemError::Isolation(IsolationError::ExecutionTrap(s)))
            } else {
                match limits {
                    Err(e) => Err(SystemError::Isolation(e)),
                    Ok(_) => Ok(Vec::new()),
                }
            }
        },
    }
}

} // verus!
