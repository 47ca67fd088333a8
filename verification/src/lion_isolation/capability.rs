//! Capability checks for host calls: whether a plugin may perform an operation.

use vstd::prelude::*;

verus! {

/// Checks whether a plugin may perform an operation.
pub trait CapabilityChecker {
    /// `Ok` where the plugin may perform the operation with the given parameters, else an
    /// error message.
    fn check_capability(&self, plugin_id: &str, operation: &str, params: &[u8]) -> Result<
        (),
        String,
    >;
}

/// The operations of a list, as text.
pub open spec fn op_texts(ops: Seq<String>) -> Seq<Seq<char>> {
    ops.map_values(|s: String| s@)
}

/// The message for an operation that a plugin may not perform.
pub open spec fn denied_message(plugin_id: Seq<char>, operation: Seq<char>) -> Seq<char> {
    "Operation '"@ + operation + "' not allowed for plugin '"@ + plugin_id + "'"@
}

/// A capability checker that keeps, for each plugin, the list of operations it may perform.
pub struct DefaultCapabilityChecker {
    /// Each plugin with its allowed operations; no plugin occurs twice, and no operation
    /// twice in a list.
    entries: Vec<(String, Vec<String>)>,
}

impl DefaultCapabilityChecker {
    #[verifier::type_invariant]
    spec fn well_formed(self) -> bool {
        &&& forall|i: int, j: int|
            0 <= i < j < self.entries@.len() ==> self.entries@[i].0@ != self.entries@[j].0@
        &&& forall|i: int|
            0 <= i < self.entries@.len() ==> op_texts(#[trigger] self.entries@[i].1@).no_duplicates()
    }

    /// The plugin may perform the operation.
    pub closed spec fn allows(self, plugin_id: Seq<char>, operation: Seq<char>) -> bool {
        exists|i: int|
            0 <= i < self.entries@.len() && #[trigger] self.entries@[i].0@ == plugin_id && op_texts(
                self.entries@[i].1@,
            ).contains(operation)
    }

    /// A checker that allows nothing.
    pub fn new() -> (r: Self)
        ensures
            forall|p: Seq<char>, o: Seq<char>| !r.allows(p, o),
    {
        Self { entries: Vec::new() }
    }

    /// The position of the plugin's entry, if it has one.
    fn find(&self, plugin_id: &str) -> (r: Option<usize>)
        ensures
            match r {
                Some(i) => i < self.entries@.len() && self.entries@[i as int].0@ == plugin_id@,
                None => forall|i: int|
                    0 <= i < self.entries@.len() ==> self.entries@[i].0@ != plugin_id@,
            },
    {
        let target = String::from_str(plugin_id);
        let mut i: usize = 0;
        while i < self.entries.len()
            invariant
                i <= self.entries@.len(),
                target@ == plugin_id@,
                forall|k: int| 0 <= k < i ==> self.entries@[k].0@ != plugin_id@,
            decreases self.entries@.len() - i,
        {
            if self.entries[i].0 == target {
                return Some(i);
            }
            i = i + 1;
        }
        None
    }

    /// Allow the plugin to perform the operation.
    pub fn grant_capability(&mut self, plugin_id: &str, operation: &str)
        ensures
            final(self).allows(plugin_id@, operation@),
            forall|p: Seq<char>, o: Seq<char>|
                !(p == plugin_id@ && o == operation@) ==> (final(self).allows(p, o)
                    == old(self).allows(p, o)),
    {
        proof {
            use_type_invariant(&*self);
        }
        let ghost before = *self;
        let found = self.find(plugin_id);
        let mut entries: Vec<(String, Vec<String>)> = Vec::new();
        std::mem::swap(&mut entries, &mut self.entries);
        match found {
            None => {
                let mut ops: Vec<String> = Vec::new();
                ops.push(String::from_str(operation));
                proof {
                    assert(op_texts(ops@) =~= seq![operation@]);
                }
                entries.push((String::from_str(plugin_id), ops));
                proof {
                    assert forall|a: int, b: int| 0 <= a < b < entries@.len() implies entries@[a].0@
                        != entries@[b].0@ by {
                        if b == entries@.len() - 1 {
                            assert(entries@[a] == before.entries@[a]);
                        } else {
                            assert(entries@[a] == before.entries@[a]);
                            assert(entries@[b] == before.entries@[b]);
                        }
                    }
                    assert forall|a: int| 0 <= a < entries@.len() implies op_texts(
                        #[trigger] entries@[a].1@,
                    ).no_duplicates() by {
                        if a < entries@.len() - 1 {
                            assert(entries@[a] == before.entries@[a]);
                        }
                    }
                }
                self.entries = entries;
                proof {
                    let n = before.entries@.len() as int;
                    assert(self.entries@[n].0@ == plugin_id@);
                    assert(op_texts(self.entries@[n].1@)[0] == operation@);
                    assert(op_texts(self.entries@[n].1@).contains(operation@));
                    assert forall|p: Seq<char>, o: Seq<char>|
                        !(p == plugin_id@ && o == operation@) implies (self.allows(p, o)
                        == before.allows(p, o)) by {
                        if self.allows(p, o) {
                            let i = choose|i: int|
                                0 <= i < self.entries@.len() && #[trigger] self.entries@[i].0@
                                    == p && op_texts(self.entries@[i].1@).contains(o);
                            if i == n {
                                assert(op_texts(self.entries@[n].1@) =~= seq![operation@]);
                            } else {
                                assert(self.entries@[i] == before.entries@[i]);
                            }
                        }
                        if before.allows(p, o) {
                            let i = choose|i: int|
                                0 <= i < before.entries@.len() && #[trigger] before.entries@[i].0@
                                    == p && op_texts(before.entries@[i].1@).contains(o);
                            assert(self.entries@[i] == before.entries@[i]);
                        }
                    }
                }
            },
            Some(i) => {
                let (name, mut ops) = entries.remove(i);
                let mut k: usize = 0;
                let mut present = false;
                while k < ops.len()
                    invariant
                        k <= ops@.len(),
                        !present ==> forall|m: int| 0 <= m < k ==> ops@[m]@ != operation@,
                        present ==> op_texts(ops@).contains(operation@),
                    decreases ops@.len() - k,
                {
                    if ops[k] == String::from_str(operation) {
                        present = true;
                        assert(op_texts(ops@)[k as int] == operation@);
                    }
                    k = k + 1;
                }
                let ghost old_ops = ops@;
                if !present {
                    ops.push(String::from_str(operation));
                    proof {
                        assert(op_texts(ops@) =~= op_texts(old_ops).push(operation@));
                        assert(!op_texts(old_ops).contains(operation@)) by {
                            if op_texts(old_ops).contains(operation@) {
                                let m = choose|m: int|
                                    0 <= m < op_texts(old_ops).len() && op_texts(old_ops)[m]
                                        == operation@;
                                assert(old_ops[m]@ == operation@);
                            }
                        }
                    }
                }
                proof {
                    if !present {
                        let t = op_texts(ops@);
                        assert forall|a: int, b: int| 0 <= a < t.len() && 0 <= b < t.len() && a
                            != b implies t[a] != t[b] by {
                            assert(op_texts(before.entries@[i as int].1@) =~= op_texts(old_ops));
                        }
                    }
                }
                entries.insert(i, (name, ops));
                proof {
                    assert(entries@ =~= before.entries@.update(i as int, entries@[i as int]));
                    assert(op_texts(entries@[i as int].1@).no_duplicates()) by {
                        assert(op_texts(before.entries@[i as int].1@) =~= op_texts(old_ops));
                    }
                }
                self.entries = entries;
                proof {
                    assert(self.entries@ =~= before.entries@.update(i as int, self.entries@[i as int]));
                    assert(self.entries@[i as int].0@ == plugin_id@);
                    assert(op_texts(self.entries@[i as int].1@).contains(operation@)) by {
                        if !present {
                            assert(op_texts(self.entries@[i as int].1@)[old_ops.len() as int]
                                == operation@);
                        }
                    }
                    assert forall|p: Seq<char>, o: Seq<char>|
                        !(p == plugin_id@ && o == operation@) implies (self.allows(p, o)
                        == before.allows(p, o)) by {
                        if self.allows(p, o) {
                            let j = choose|j: int|
                                0 <= j < self.entries@.len() && #[trigger] self.entries@[j].0@
                                    == p && op_texts(self.entries@[j].1@).contains(o);
                            if j == i {
                                let m = choose|m: int|
                                    0 <= m < op_texts(self.entries@[j].1@).len() && op_texts(
                                        self.entries@[j].1@,
                                    )[m] == o;
                                if present {
                                    assert(op_texts(before.entries@[j].1@)[m] == o);
                                } else {
                                    assert(m < old_ops.len());
                                    assert(op_texts(before.entries@[j].1@)[m] == o);
                                }
                                assert(before.entries@[j].0@ == p);
                                assert(op_texts(before.entries@[j].1@).contains(o));
                            } else {
                                assert(self.entries@[j] == before.entries@[j]);
                                assert(self.entries@[j].0@ == before.entries@[j].0@);
                                assert(op_texts(self.entries@[j].1@) == op_texts(before.entries@[j].1@));
                            }
                        }
                        if before.allows(p, o) {
                            let j = choose|j: int|
                                0 <= j < before.entries@.len() && #[trigger] before.entries@[j].0@
                                    == p && op_texts(before.entries@[j].1@).contains(o);
                            let m = choose|m: int|
                                0 <= m < op_texts(before.entries@[j].1@).len() && op_texts(
                                    before.entries@[j].1@,
                                )[m] == o;
                            if j == i {
                                assert(op_texts(self.entries@[j].1@)[m] == o);
                                assert(self.entries@[j].0@ == p);
                                assert(op_texts(self.entries@[j].1@).contains(o));
                            } else {
                                assert(self.entries@[j] == before.entries@[j]);
                                assert(self.entries@[j].0@ == before.entries@[j].0@);
                                assert(op_texts(self.entries@[j].1@) == op_texts(before.entries@[j].1@));
                            }
                        }
                    }
                }
            },
        }
    }

    /// Withdraw the plugin's permission to perform the operation.
    pub fn revoke_capability(&mut self, plugin_id: &str, operation: &str)
        ensures
            !final(self).allows(plugin_id@, operation@),
            forall|p: Seq<char>, o: Seq<char>|
                !(p == plugin_id@ && o == operation@) ==> (final(self).allows(p, o)
                    == old(self).allows(p, o)),
    {
        proof {
            use_type_invariant(&*self);
        }
        let ghost before = *self;
        let position = self.find(plugin_id);
        let mut entries: Vec<(String, Vec<String>)> = Vec::new();
        std::mem::swap(&mut entries, &mut self.entries);
        match position {
            None => {
                self.entries = entries;
            },
            Some(i) => {
                let (name, mut ops) = entries.remove(i);
                let ghost old_ops = ops@;
                let target = String::from_str(operation);
                let mut k: usize = 0;
                let mut found: Option<usize> = None;
                while k < ops.len()
                    invariant
                        k <= ops@.len(),
                        target@ == operation@,
                        match found {
                            Some(m) => m < ops@.len() && ops@[m as int]@ == operation@,
                            None => forall|m: int| 0 <= m < k ==> ops@[m]@ != operation@,
                        },
                    decreases ops@.len() - k,
                {
                    if found.is_none() && ops[k] == target {
                        found = Some(k);
                    }
                    k = k + 1;
                }
                proof {
                    assert(op_texts(before.entries@[i as int].1@) =~= op_texts(old_ops));
                }
                match found {
                    Some(m) => {
                        ops.remove(m);
                        proof {
                            let t0 = op_texts(old_ops);
                            let t = op_texts(ops@);
                            assert(t =~= t0.remove(m as int));
                            assert forall|a: int, b: int| 0 <= a < t.len() && 0 <= b < t.len() && a
                                != b implies t[a] != t[b] by {
                                let a0 = if a < m { a } else { a + 1 };
                                let b0 = if b < m { b } else { b + 1 };
                                assert(t[a] == t0[a0]);
                                assert(t[b] == t0[b0]);
                            }
                        }
                    },
                    None => {},
                }
                entries.insert(i, (name, ops));
                proof {
                    assert(entries@ =~= before.entries@.update(i as int, entries@[i as int]));
                }
                self.entries = entries;
                proof {
                    assert(self.entries@ =~= before.entries@.update(i as int, self.entries@[i as int]));
                    let t0 = op_texts(old_ops);
                    let t1 = op_texts(self.entries@[i as int].1@);
                    assert(!t1.contains(operation@)) by {
                        if t1.contains(operation@) {
                            let q = choose|q: int| 0 <= q < t1.len() && t1[q] == operation@;
                            match found {
                                Some(m) => {
                                    if q < m {
                                        assert(t0[q] == operation@);
                                    } else {
                                        assert(t0[q + 1] == operation@);
                                    }
                                    assert(t0[m as int] == operation@);
                                },
                                None => {
                                    assert(old_ops[q]@ == operation@);
                                },
                            }
                        }
                    }
                    assert forall|p: Seq<char>, o: Seq<char>|
                        !(p == plugin_id@ && o == operation@) implies (self.allows(p, o)
                        == before.allows(p, o)) by {
                        if self.allows(p, o) {
                            let j = choose|j: int|
                                0 <= j < self.entries@.len() && #[trigger] self.entries@[j].0@
                                    == p && op_texts(self.entries@[j].1@).contains(o);
                            if j == i {
                                let q = choose|q: int| 0 <= q < t1.len() && t1[q] == o;
                                match found {
                                    Some(m) => {
                                        if q < m {
                                            assert(t0[q] == o);
                                        } else {
                                            assert(t0[q + 1] == o);
                                        }
                                    },
                                    None => {
                                        assert(t0[q] == o);
                                    },
                                }
                                assert(before.entries@[j].0@ == p);
                                assert(op_texts(before.entries@[j].1@).contains(o));
                            } else {
                                assert(self.entries@[j] == before.entries@[j]);
                                assert(self.entries@[j].0@ == before.entries@[j].0@);
                                assert(op_texts(self.entries@[j].1@) == op_texts(before.entries@[j].1@));
                            }
                        }
                        if before.allows(p, o) {
                            let j = choose|j: int|
                                0 <= j < before.entries@.len() && #[trigger] before.entries@[j].0@
                                    == p && op_texts(before.entries@[j].1@).contains(o);
                            if j == i {
                                let q = choose|q: int| 0 <= q < t0.len() && t0[q] == o;
                                match found {
                                    Some(m) => {
                                        assert(o != operation@);
                                        assert(q != m);
                                        if q < m {
                                            assert(t1[q] == o);
                                        } else {
                                            assert(t1[q - 1] == o);
                                        }
                                    },
                                    None => {
                                        assert(t1[q] == o);
                                    },
                                }
                                assert(self.entries@[j].0@ == p);
                                assert(t1.contains(o));
                            } else {
                                assert(self.entries@[j] == before.entries@[j]);
                                assert(self.entries@[j].0@ == before.entries@[j].0@);
                                assert(op_texts(self.entries@[j].1@) == op_texts(before.entries@[j].1@));
                            }
                        }
                    }
                }
            },
        }
    }
}

impl Default for DefaultCapabilityChecker {
    /// A checker that allows nothing.
    fn default() -> (r: Self)
        ensures
            forall|p: Seq<char>, o: Seq<char>| !r.allows(p, o),
    {
        Self::new()
    }
}

impl CapabilityChecker for DefaultCapabilityChecker {
    /// `Ok` exactly where the plugin was granted the operation; the parameters play no part.
    fn check_capability(&self, plugin_id: &str, operation: &str, params: &[u8]) -> (r: Result<
        (),
        String,
    >)
        ensures
            r is Ok <==> self.allows(plugin_id@, operation@),
            r matches Err(s) ==> s@ == denied_message(plugin_id@, operation@),
    {
        proof {
            use_type_invariant(self);
        }
        match self.find(plugin_id) {
            Some(i) => {
                let ops = &self.entries[i].1;
                let target = String::from_str(operation);
                let mut k: usize = 0;
                while k < ops.len()
                    invariant
                        k <= ops@.len(),
                        target@ == operation@,
                        i < self.entries@.len(),
                        self.entries@[i as int].0@ == plugin_id@,
                        ops@ == self.entries@[i as int].1@,
                        forall|m: int| 0 <= m < k ==> ops@[m]@ != operation@,
                    decreases ops@.len() - k,
                {
                    if ops[k] == target {
                        assert(op_texts(ops@)[k as int] == operation@);
                        assert(self.entries@[i as int].0@ == plugin_id@);
                        assert(op_texts(self.entries@[i as int].1@).contains(operation@));
                        return Ok(());
                    }
                    k = k + 1;
                }
                proof {
                    assert(!self.allows(plugin_id@, operation@)) by {
                        if self.allows(plugin_id@, operation@) {
                            let j = choose|j: int|
                                0 <= j < self.entries@.len() && #[trigger] self.entries@[j].0@
                                    == plugin_id@ && op_texts(self.entries@[j].1@).contains(
                                    operation@,
                                );
                            assert(j == i);
                            let q = choose|q: int|
                                0 <= q < op_texts(ops@).len() && op_texts(ops@)[q] == operation@;
                            assert(ops@[q]@ == operation@);
                        }
                    }
                }
            },
            None => {},
        }
        let mut s = String::from_str("Operation '");
        s.append(operation);
        s.append("' not allowed for plugin '");
        s.append(plugin_id);
        s.append("'");
        Err(s)
    }
}

} // verus!
