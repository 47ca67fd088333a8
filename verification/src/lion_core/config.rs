//! Configuration values: a tree of mappings, arrays and scalars, addressed by paths such as
//! `server.ports[2].number`.

use vstd::prelude::*;
use vstd::std_specs::cmp::PartialEqSpecImpl;

use crate::text::{
    append_decimal, chars_to_string, decimal_text, parse_unsigned, str_to_chars, sub_chars,
    unsigned_text_value,
};

verus! {

/// A configuration value.
#[derive(Debug)]
pub enum ConfigValue {
    /// No value.
    Null,
    /// A boolean.
    Bool(bool),
    /// An integer.
    Integer(i64),
    /// A floating-point number, by the bits of its IEEE 754 binary64 form.
    Float(u64),
    /// A string.
    String(String),
    /// An array of values.
    Array(Vec<ConfigValue>),
    /// A mapping from keys to values, in insertion order; a key is looked up and replaced at
    /// its first occurrence, and removed at every occurrence.
    Mapping(Vec<(String, ConfigValue)>),
}

/// The mathematical form of a configuration value.
pub enum ConfigTree {
    /// No value.
    Null,
    /// A boolean.
    Bool(bool),
    /// An integer.
    Integer(int),
    /// A floating-point number, by its bits.
    Float(u64),
    /// A string.
    Text(Seq<char>),
    /// An array.
    Array(Seq<ConfigTree>),
    /// A mapping, as key-value pairs.
    Mapping(Seq<(Seq<char>, ConfigTree)>),
}

/// One step of a path: a key of a mapping or a position in an array.
pub enum PathSeg {
    /// A key.
    Key(Seq<char>),
    /// A position.
    Index(nat),
}

impl ConfigValue {
    /// The mathematical form of this value.
    pub open spec fn tree(self) -> ConfigTree
        decreases self,
    {
        match self {
            ConfigValue::Null => ConfigTree::Null,
            ConfigValue::Bool(b) => ConfigTree::Bool(b),
            ConfigValue::Integer(i) => ConfigTree::Integer(i as int),
            ConfigValue::Float(f) => ConfigTree::Float(f),
            ConfigValue::String(s) => ConfigTree::Text(s@),
            ConfigValue::Array(a) => ConfigTree::Array(
                Seq::new(
                    a@.len(),
                    |i: int|
                        if 0 <= i < a@.len() {
                            a@[i].tree()
                        } else {
                            ConfigTree::Null
                        },
                ),
            ),
            ConfigValue::Mapping(m) => ConfigTree::Mapping(
                Seq::new(
                    m@.len(),
                    |i: int|
                        if 0 <= i < m@.len() {
                            (m@[i].0@, m@[i].1.tree())
                        } else {
                            (Seq::empty(), ConfigTree::Null)
                        },
                ),
            ),
        }
    }
}

/// A copy of a value, of the same form.
fn copy_value(v: &ConfigValue) -> (r: ConfigValue)
    ensures
        r.tree() == v.tree(),
    decreases v,
{
    match v {
        ConfigValue::Null => ConfigValue::Null,
        ConfigValue::Bool(b) => ConfigValue::Bool(*b),
        ConfigValue::Integer(i) => ConfigValue::Integer(*i),
        ConfigValue::Float(f) => ConfigValue::Float(*f),
        ConfigValue::String(s) => ConfigValue::String(s.clone()),
        ConfigValue::Array(a) => {
            let mut out: Vec<ConfigValue> = Vec::new();
            let mut i: usize = 0;
            while i < a.len()
                invariant
                    *v == ConfigValue::Array(*a),
                    i <= a@.len(),
                    out@.len() == i,
                    forall|j: int| 0 <= j < i ==> #[trigger] out@[j].tree() == a@[j].tree(),
                decreases a@.len() - i,
            {
                assert(decreases_to!(*v => v->Array_0));
                assert(decreases_to!(*a => a@));
                assert(decreases_to!(a@ => a@[i as int]));
                let c = copy_value(&a[i]);
                out.push(c);
                i = i + 1;
            }
            proof {
                lemma_array_tree(*a);
                lemma_array_tree(out);
                assert(items_tree(out@) =~= items_tree(a@));
            }
            ConfigValue::Array(out)
        },
        ConfigValue::Mapping(m) => {
            let mut out: Vec<(String, ConfigValue)> = Vec::new();
            let mut i: usize = 0;
            while i < m.len()
                invariant
                    *v == ConfigValue::Mapping(*m),
                    i <= m@.len(),
                    out@.len() == i,
                    forall|j: int|
                        0 <= j < i ==> #[trigger] out@[j].0@ == m@[j].0@ && out@[j].1.tree()
                            == m@[j].1.tree(),
                decreases m@.len() - i,
            {
                assert(decreases_to!(*v => v->Mapping_0));
                assert(decreases_to!(*m => m@));
                assert(decreases_to!(m@ => m@[i as int]));
                assert(decreases_to!(m@[i as int] => m@[i as int].1));
                let c = copy_value(&m[i].1);
                out.push((m[i].0.clone(), c));
                i = i + 1;
            }
            proof {
                lemma_mapping_tree(*m);
                lemma_mapping_tree(out);
                assert(entries_tree(out@) =~= entries_tree(m@));
            }
            ConfigValue::Mapping(out)
        },
    }
}

impl Clone for ConfigValue {
    /// A copy of the value, of the same form.
    fn clone(&self) -> (r: Self)
        ensures
            r.tree() == self.tree(),
    {
        copy_value(self)
    }
}

/// Whether the bits of an IEEE 754 binary64 number are those of a NaN: all exponent bits set
/// and a fraction that is not zero.
pub open spec fn nan_bits(b: u64) -> bool {
    (b >> 52u64) & 0x7ffu64 == 0x7ffu64 && b & 0xf_ffff_ffff_ffffu64 != 0
}

/// Whether two binary64 numbers, given by their bits, are equal as numbers: a NaN equals
/// nothing, and the two zeros are equal.
pub open spec fn float_bits_equal(a: u64, b: u64) -> bool {
    &&& !nan_bits(a)
    &&& !nan_bits(b)
    &&& (a == b || (a & 0x7fff_ffff_ffff_ffffu64 == 0 && b & 0x7fff_ffff_ffff_ffffu64 == 0))
}

/// Whether two forms are the same value: numbers compared as numbers, arrays item by item,
/// and mappings as maps (the same keys, each bound to the same value), whatever the order of
/// their entries.
#[verifier::opaque]
pub open spec fn same_value(a: ConfigTree, b: ConfigTree) -> bool
    decreases a,
{
    match (a, b) {
        (ConfigTree::Null, ConfigTree::Null) => true,
        (ConfigTree::Bool(x), ConfigTree::Bool(y)) => x == y,
        (ConfigTree::Integer(x), ConfigTree::Integer(y)) => x == y,
        (ConfigTree::Float(x), ConfigTree::Float(y)) => float_bits_equal(x, y),
        (ConfigTree::Text(x), ConfigTree::Text(y)) => x == y,
        (ConfigTree::Array(x), ConfigTree::Array(y)) => {
            &&& x.len() == y.len()
            &&& forall|i: int| 0 <= i < x.len() ==> same_value(x[i], y[i])
        },
        (ConfigTree::Mapping(x), ConfigTree::Mapping(y)) => {
            &&& forall|k: Seq<char>| #[trigger] find_key(x, k) is Some <==> find_key(y, k) is Some
            &&& forall|i: int|
                0 <= i < x.len() && find_key(x, #[trigger] x[i].0) == Some(i) ==> find_key(
                    y,
                    x[i].0,
                ) is Some && same_value(x[i].1, y[find_key(y, x[i].0)->0].1)
        },
        _ => false,
    }
}

/// The `t`-th entry of `x`, where it is the first with its key, has its key in `y`, bound to
/// the same value.
#[verifier::opaque]
pub open spec fn entry_matches(
    x: Seq<(Seq<char>, ConfigTree)>,
    y: Seq<(Seq<char>, ConfigTree)>,
    t: int,
) -> bool {
    find_key(x, x[t].0) == Some(t) ==> find_key(y, x[t].0) is Some && same_value(
        x[t].1,
        y[find_key(y, x[t].0)->0].1,
    )
}

/// An entry that is not the first with its key matches whatever `y` holds.
proof fn lemma_entry_not_first(x: Seq<(Seq<char>, ConfigTree)>, y: Seq<(Seq<char>, ConfigTree)>, i: int)
    requires
        find_key(x, x[i].0) != Some(i),
    ensures
        entry_matches(x, y, i),
{
    reveal(entry_matches);
}

/// A first entry whose key `y` lacks does not match.
proof fn lemma_entry_unmatched(x: Seq<(Seq<char>, ConfigTree)>, y: Seq<(Seq<char>, ConfigTree)>, i: int)
    requires
        find_key(x, x[i].0) == Some(i),
        find_key(y, x[i].0) is None,
    ensures
        !entry_matches(x, y, i),
{
    reveal(entry_matches);
}

/// A first entry whose key `y` has at `j` matches where the two values are the same.
proof fn lemma_entry_found(x: Seq<(Seq<char>, ConfigTree)>, y: Seq<(Seq<char>, ConfigTree)>, i: int, j: int)
    requires
        find_key(x, x[i].0) == Some(i),
        find_key(y, x[i].0) == Some(j),
    ensures
        entry_matches(x, y, i) == same_value(x[i].1, y[j].1),
{
    reveal(entry_matches);
}

/// A first entry that does not match makes two mappings differ.
proof fn lemma_entry_mismatch(x: Seq<(Seq<char>, ConfigTree)>, y: Seq<(Seq<char>, ConfigTree)>, i: int)
    requires
        0 <= i < x.len(),
        !entry_matches(x, y, i),
    ensures
        !same_value(ConfigTree::Mapping(x), ConfigTree::Mapping(y)),
{
    reveal(entry_matches);
    reveal(same_value);
    assert(find_key(x, x[i].0) == Some(i));
}

/// A key of `y` missing from `x` makes two mappings differ.
proof fn lemma_key_missing(x: Seq<(Seq<char>, ConfigTree)>, y: Seq<(Seq<char>, ConfigTree)>, i: int)
    requires
        0 <= i < y.len(),
        find_key(x, y[i].0) is None,
    ensures
        !same_value(ConfigTree::Mapping(x), ConfigTree::Mapping(y)),
{
    lemma_find_key(y, y[i].0);
    reveal(same_value);
    assert(find_key(y, y[i].0) is Some);
}

/// Two mappings are the same where every first entry of `x` matches in `y` and every key of
/// `y` is in `x`.
proof fn lemma_mapping_same(x: Seq<(Seq<char>, ConfigTree)>, y: Seq<(Seq<char>, ConfigTree)>)
    requires
        forall|t: int| 0 <= t < x.len() ==> #[trigger] entry_matches(x, y, t),
        forall|t: int| 0 <= t < y.len() ==> #[trigger] find_key(x, y[t].0) is Some,
    ensures
        same_value(ConfigTree::Mapping(x), ConfigTree::Mapping(y)),
{
    reveal(same_value);
    reveal(entry_matches);
    assert forall|k: Seq<char>| #[trigger] find_key(x, k) is Some <==> find_key(y, k) is Some by {
        lemma_find_key(x, k);
        lemma_find_key(y, k);
        if let Some(t) = find_key(x, k) {
            assert(entry_matches(x, y, t));
        }
        if let Some(t) = find_key(y, k) {
            assert(find_key(x, y[t].0) is Some);
        }
    }
    assert forall|i: int|
        0 <= i < x.len() && find_key(x, #[trigger] x[i].0) == Some(i) implies find_key(
            y,
            x[i].0,
        ) is Some && same_value(x[i].1, y[find_key(y, x[i].0)->0].1) by {
        assert(entry_matches(x, y, i));
    }
}

fn float_bits_eq(a: u64, b: u64) -> (r: bool)
    ensures
        r == float_bits_equal(a, b),
{
    let a_nan = (a >> 52u64) & 0x7ffu64 == 0x7ffu64 && a & 0xf_ffff_ffff_ffffu64 != 0;
    let b_nan = (b >> 52u64) & 0x7ffu64 == 0x7ffu64 && b & 0xf_ffff_ffff_ffffu64 != 0;
    !a_nan && !b_nan && (a == b || (a & 0x7fff_ffff_ffff_ffffu64 == 0 && b
        & 0x7fff_ffff_ffff_ffffu64 == 0))
}

/// Whether the `i`-th entry of the mapping `a`, with entries `x`, matches in the entries `y`
/// (see `entry_matches`).
#[verifier::rlimit(100)]
fn entry_eq(
    a: &ConfigValue,
    x: &Vec<(String, ConfigValue)>,
    y: &Vec<(String, ConfigValue)>,
    i: usize,
) -> (r: bool)
    requires
        *a == ConfigValue::Mapping(*x),
        i < x@.len(),
    ensures
        r == entry_matches(entries_tree(x@), entries_tree(y@), i as int),
    decreases a, 0int,
{
    let ghost xt = entries_tree(x@);
    let ghost yt = entries_tree(y@);
    let k = &x[i].0;
    assert(xt[i as int].0 == k@);
    match key_position(x, k) {
        Some(f) => {
            if f != i {
                proof {
                    lemma_entry_not_first(xt, yt, i as int);
                }
                return true;
            }
        },
        None => {
            proof {
                lemma_find_key(xt, k@);
                assert(false);
            }
            return true;
        },
    }
    proof {
        assert(find_key(xt, xt[i as int].0) == Some(i as int));
    }
    match key_position(y, k) {
        None => {
            proof {
                lemma_entry_unmatched(xt, yt, i as int);
            }
            false
        },
        Some(j) => {
            assert(decreases_to!(*a => a->Mapping_0));
            assert(decreases_to!(*x => x@));
            assert(decreases_to!(x@ => x@[i as int]));
            assert(decreases_to!(x@[i as int] => x@[i as int].1));
            let same = value_eq(&x[i].1, &y[j].1);
            proof {
                assert(xt[i as int].1 == x@[i as int].1.tree());
                assert(yt[j as int].1 == y@[j as int].1.tree());
                lemma_entry_found(xt, yt, i as int, j as int);
            }
            same
        },
    }
}

/// Whether two values are the same value (see `same_value`).
fn value_eq(a: &ConfigValue, b: &ConfigValue) -> (r: bool)
    ensures
        r == same_value(a.tree(), b.tree()),
    decreases a, 1int,
{
    match (a, b) {
        (ConfigValue::Null, ConfigValue::Null) => {
            proof {
                reveal(same_value);
            }
            true
        },
        (ConfigValue::Bool(x), ConfigValue::Bool(y)) => {
            proof {
                reveal(same_value);
            }
            *x == *y
        },
        (ConfigValue::Integer(x), ConfigValue::Integer(y)) => {
            proof {
                reveal(same_value);
            }
            *x == *y
        },
        (ConfigValue::Float(x), ConfigValue::Float(y)) => {
            proof {
                reveal(same_value);
            }
            float_bits_eq(*x, *y)
        },
        (ConfigValue::String(x), ConfigValue::String(y)) => {
            proof {
                reveal(same_value);
            }
            *x == *y
        },
        (ConfigValue::Array(x), ConfigValue::Array(y)) => {
            proof {
                lemma_array_tree(*x);
                lemma_array_tree(*y);
            }
            if x.len() != y.len() {
                proof {
                    reveal(same_value);
                }
                return false;
            }
            let mut i: usize = 0;
            while i < x.len()
                invariant
                    *a == ConfigValue::Array(*x),
                    *b == ConfigValue::Array(*y),
                    x@.len() == y@.len(),
                    i <= x@.len(),
                    forall|j: int| 0 <= j < i ==> same_value(#[trigger] x@[j].tree(), y@[j].tree()),
                decreases x@.len() - i,
            {
                assert(decreases_to!(*a => a->Array_0));
                assert(decreases_to!(*x => x@));
                assert(decreases_to!(x@ => x@[i as int]));
                if !value_eq(&x[i], &y[i]) {
                    proof {
                        lemma_array_tree(*x);
                        lemma_array_tree(*y);
                        assert(items_tree(x@)[i as int] == x@[i as int].tree());
                        assert(items_tree(y@)[i as int] == y@[i as int].tree());
                        assert(!same_value(items_tree(x@)[i as int], items_tree(y@)[i as int]));
                        reveal(same_value);
                    }
                    return false;
                }
                i = i + 1;
            }
            proof {
                reveal(same_value);
                assert forall|j: int| 0 <= j < items_tree(x@).len() implies same_value(
                    items_tree(x@)[j],
                    items_tree(y@)[j],
                ) by {
                    assert(same_value(x@[j].tree(), y@[j].tree()));
                }
            }
            true
        },
        (ConfigValue::Mapping(x), ConfigValue::Mapping(y)) => {
            let ghost xt = entries_tree(x@);
            let ghost yt = entries_tree(y@);
            let mut i: usize = 0;
            while i < x.len()
                invariant
                    *a == ConfigValue::Mapping(*x),
                    *b == ConfigValue::Mapping(*y),
                    xt == entries_tree(x@),
                    yt == entries_tree(y@),
                    i <= x@.len(),
                    forall|t: int| 0 <= t < i ==> #[trigger] entry_matches(xt, yt, t),
                decreases x@.len() - i,
            {
                if !entry_eq(a, x, y, i) {
                    proof {
                        lemma_entry_mismatch(xt, yt, i as int);
                        lemma_mapping_tree(*x);
                        lemma_mapping_tree(*y);
                    }
                    return false;
                }
                i = i + 1;
            }
            let mut i: usize = 0;
            while i < y.len()
                invariant
                    *a == ConfigValue::Mapping(*x),
                    *b == ConfigValue::Mapping(*y),
                    xt == entries_tree(x@),
                    yt == entries_tree(y@),
                    forall|t: int| 0 <= t < x@.len() ==> #[trigger] entry_matches(xt, yt, t),
                    i <= y@.len(),
                    forall|t: int| 0 <= t < i ==> #[trigger] find_key(xt, yt[t].0) is Some,
                decreases y@.len() - i,
            {
                if key_position(x, &y[i].0).is_none() {
                    proof {
                        assert(yt[i as int].0 == y@[i as int].0@);
                        lemma_key_missing(xt, yt, i as int);
                        lemma_mapping_tree(*x);
                        lemma_mapping_tree(*y);
                    }
                    return false;
                }
                i = i + 1;
            }
            proof {
                lemma_mapping_same(xt, yt);
                lemma_mapping_tree(*x);
                lemma_mapping_tree(*y);
            }
            true
        },
        _ => {
            proof {
                reveal(same_value);
            }
            false
        },
    }
}

impl PartialEq for ConfigValue {
    fn eq(&self, other: &Self) -> (r: bool) {
        value_eq(self, other)
    }
}

impl PartialEqSpecImpl for ConfigValue {
    open spec fn obeys_eq_spec() -> bool {
        true
    }

    open spec fn eq_spec(&self, other: &Self) -> bool {
        same_value(self.tree(), other.tree())
    }
}

/// The forms of a list of values.
pub open spec fn items_tree(a: Seq<ConfigValue>) -> Seq<ConfigTree> {
    Seq::new(a.len(), |i: int| a[i].tree())
}

/// The forms of a list of entries.
pub open spec fn entries_tree(m: Seq<(String, ConfigValue)>) -> Seq<(Seq<char>, ConfigTree)> {
    Seq::new(m.len(), |i: int| (m[i].0@, m[i].1.tree()))
}

/// The position of the first entry with key `k`.
pub open spec fn find_key(m: Seq<(Seq<char>, ConfigTree)>, k: Seq<char>) -> Option<int> {
    if exists|j: int| 0 <= j < m.len() && m[j].0 == k {
        Some(choose|j: int| 0 <= j < m.len() && m[j].0 == k && forall|i: int| 0 <= i < j ==> m[i].0 != k)
    } else {
        None
    }
}

/// The entries with `k` bound to `v`: in place of its first entry, or added at the end.
pub open spec fn put_key(m: Seq<(Seq<char>, ConfigTree)>, k: Seq<char>, v: ConfigTree) -> Seq<
    (Seq<char>, ConfigTree),
> {
    match find_key(m, k) {
        Some(j) => m.update(j, (k, v)),
        None => m.push((k, v)),
    }
}

/// Whether an entry has a key other than `k`.
pub open spec fn key_differs(k: Seq<char>) -> spec_fn((Seq<char>, ConfigTree)) -> bool {
    |e: (Seq<char>, ConfigTree)| e.0 != k
}

/// The entries without any entry with key `k`, the others kept in order.
pub open spec fn without_key(m: Seq<(Seq<char>, ConfigTree)>, k: Seq<char>) -> Seq<
    (Seq<char>, ConfigTree),
> {
    m.filter(key_differs(k))
}

/// The entries of a mapping; none for any other value.
pub open spec fn mapping_entries(t: ConfigTree) -> Seq<(Seq<char>, ConfigTree)> {
    match t {
        ConfigTree::Mapping(m) => m,
        _ => Seq::empty(),
    }
}

/// The items of an array; none for any other value.
pub open spec fn array_items(t: ConfigTree) -> Seq<ConfigTree> {
    match t {
        ConfigTree::Array(a) => a,
        _ => Seq::empty(),
    }
}

/// The items, extended with `fill` until position `n` exists.
pub open spec fn pad_to(a: Seq<ConfigTree>, n: nat, fill: ConfigTree) -> Seq<ConfigTree> {
    if n < a.len() {
        a
    } else {
        a + Seq::new((n + 1 - a.len()) as nat, |i: int| fill)
    }
}

/// The empty container that a path step needs: a mapping for a key, an array for a position.
pub open spec fn container_for(p: PathSeg) -> ConfigTree {
    match p {
        PathSeg::Key(_) => ConfigTree::Mapping(Seq::empty()),
        PathSeg::Index(_) => ConfigTree::Array(Seq::empty()),
    }
}

/// The value one step below `t`, if there is one.
pub open spec fn child_at(t: ConfigTree, p: PathSeg) -> Option<ConfigTree> {
    match p {
        PathSeg::Key(k) => match t {
            ConfigTree::Mapping(m) => match find_key(m, k) {
                Some(j) => Some(m[j].1),
                None => None,
            },
            _ => None,
        },
        PathSeg::Index(n) => match t {
            ConfigTree::Array(a) => if n < a.len() {
                Some(a[n as int])
            } else {
                None
            },
            _ => None,
        },
    }
}

/// The value at the end of a path, if every step exists.
pub open spec fn lookup(t: ConfigTree, parts: Seq<PathSeg>) -> Option<ConfigTree>
    decreases parts.len(),
{
    if parts.len() == 0 {
        Some(t)
    } else {
        match child_at(t, parts[0]) {
            Some(c) => lookup(c, parts.drop_first()),
            None => None,
        }
    }
}

/// Whether a path step can pass through `t`: a key through a mapping, a position through an
/// array, and either through null, which the step turns into its container.
pub open spec fn fits(t: ConfigTree, p: PathSeg) -> bool {
    match p {
        PathSeg::Key(_) => t is Null || t is Mapping,
        PathSeg::Index(_) => t is Null || t is Array,
    }
}

/// The child that storing along a path goes down into at its first step: the value under the
/// key or at the position, or where there is none, the container the next step needs.
pub open spec fn store_child(t: ConfigTree, parts: Seq<PathSeg>) -> ConfigTree {
    let rest = parts.drop_first();
    match parts[0] {
        PathSeg::Key(k) => {
            let m = mapping_entries(t);
            match find_key(m, k) {
                Some(j) => m[j].1,
                None => container_for(rest[0]),
            }
        },
        PathSeg::Index(n) => pad_to(array_items(t), n, container_for(rest[0]))[n as int],
    }
}

/// The first step of a path at which storing would meet a value that the step cannot pass
/// through (a key on a value that is not a mapping, a position on one that is not an array),
/// if there is one.
pub open spec fn store_fault(t: ConfigTree, parts: Seq<PathSeg>) -> Option<PathSeg>
    decreases parts.len(),
{
    if parts.len() == 0 {
        None
    } else if !fits(t, parts[0]) {
        Some(parts[0])
    } else if parts.len() == 1 {
        None
    } else {
        store_fault(store_child(t, parts), parts.drop_first())
    }
}

/// The message that refuses a path at the step `p`.
pub open spec fn fault_message(p: PathSeg) -> Seq<char> {
    match p {
        PathSeg::Key(k) => "Failed to access map at key '"@ + k + "'"@,
        PathSeg::Index(n) => "Failed to access array at index "@ + decimal_text(n),
    }
}

/// The tree with `v` stored at the end of a non-empty path on which no step meets a value it
/// cannot pass through (see `store_fault`). A null on the way becomes the container of its
/// step; a missing key is added, and a short array is extended with the container the next
/// step needs, or with nulls at the last step. A step that cannot pass leaves the value as it
/// is.
pub open spec fn store(t: ConfigTree, parts: Seq<PathSeg>, v: ConfigTree) -> ConfigTree
    decreases parts.len(),
{
    if parts.len() == 0 {
        v
    } else if !fits(t, parts[0]) {
        t
    } else {
        let rest = parts.drop_first();
        match parts[0] {
            PathSeg::Key(k) => {
                let m = mapping_entries(t);
                if rest.len() == 0 {
                    ConfigTree::Mapping(put_key(m, k, v))
                } else {
                    ConfigTree::Mapping(put_key(m, k, store(store_child(t, parts), rest, v)))
                }
            },
            PathSeg::Index(n) => {
                if rest.len() == 0 {
                    ConfigTree::Array(pad_to(array_items(t), n, ConfigTree::Null).update(n as int, v))
                } else {
                    let a = pad_to(array_items(t), n, container_for(rest[0]));
                    ConfigTree::Array(a.update(n as int, store(a[n as int], rest, v)))
                }
            },
        }
    }
}

/// The tree without the value at the end of a non-empty path, and that value; the tree is
/// unchanged, and there is no value, where a step is missing. A key at the last step takes
/// out every entry with that key, giving the value of the first.
pub open spec fn take_out(t: ConfigTree, parts: Seq<PathSeg>) -> (ConfigTree, Option<ConfigTree>)
    decreases parts.len(),
{
    if parts.len() == 0 {
        (t, None)
    } else if parts.len() == 1 {
        match parts[0] {
            PathSeg::Key(k) => match t {
                ConfigTree::Mapping(m) => match find_key(m, k) {
                    Some(j) => (ConfigTree::Mapping(without_key(m, k)), Some(m[j].1)),
                    None => (t, None),
                },
                _ => (t, None),
            },
            PathSeg::Index(n) => match t {
                ConfigTree::Array(a) => if n < a.len() {
                    (ConfigTree::Array(a.remove(n as int)), Some(a[n as int]))
                } else {
                    (t, None)
                },
                _ => (t, None),
            },
        }
    } else {
        let rest = parts.drop_first();
        match parts[0] {
            PathSeg::Key(k) => match t {
                ConfigTree::Mapping(m) => match find_key(m, k) {
                    Some(j) => {
                        let r = take_out(m[j].1, rest);
                        (ConfigTree::Mapping(m.update(j, (k, r.0))), r.1)
                    },
                    None => (t, None),
                },
                _ => (t, None),
            },
            PathSeg::Index(n) => match t {
                ConfigTree::Array(a) => if n < a.len() {
                    let r = take_out(a[n as int], rest);
                    (ConfigTree::Array(a.update(n as int, r.0)), r.1)
                } else {
                    (t, None)
                },
                _ => (t, None),
            },
        }
    }
}

/// The number that a bracketed position reads as, where it is one that fits a `usize`.
pub open spec fn index_value(s: Seq<char>) -> Option<nat> {
    match unsigned_text_value(s) {
        Some(n) => if n <= usize::MAX {
            Some(n)
        } else {
            None
        },
        None => None,
    }
}

/// The path scanner from position `i` on, with the current piece starting at `start`, inside
/// brackets or not, and the steps found so far. A `.` outside brackets and a `[` end a key; a
/// `]` inside brackets ends a position, which is kept where it reads as a number, and a `.`
/// right after it is skipped; empty keys are dropped, and an unclosed bracket drops what
/// follows it.
pub open spec fn scan_path(
    s: Seq<char>,
    i: nat,
    start: nat,
    in_bracket: bool,
    parts: Seq<PathSeg>,
) -> Seq<PathSeg>
    decreases s.len() - i,
{
    if i >= s.len() {
        if start < s.len() && !in_bracket {
            parts.push(PathSeg::Key(s.subrange(start as int, s.len() as int)))
        } else {
            parts
        }
    } else {
        let c = s[i as int];
        let with_key = if i > start {
            parts.push(PathSeg::Key(s.subrange(start as int, i as int)))
        } else {
            parts
        };
        if c == '.' && !in_bracket {
            scan_path(s, (i + 1) as nat, (i + 1) as nat, false, with_key)
        } else if c == '[' {
            scan_path(s, (i + 1) as nat, (i + 1) as nat, true, with_key)
        } else if c == ']' && in_bracket {
            let with_index = if i > start {
                match index_value(s.subrange(start as int, i as int)) {
                    Some(n) => parts.push(PathSeg::Index(n)),
                    None => parts,
                }
            } else {
                parts
            };
            let next: nat = if i + 1 < s.len() && s[i + 1 as int] == '.' {
                (i + 2) as nat
            } else {
                (i + 1) as nat
            };
            scan_path(s, (i + 1) as nat, next, false, with_index)
        } else {
            scan_path(s, (i + 1) as nat, start, in_bracket, parts)
        }
    }
}

/// The steps of a path.
pub open spec fn path_steps(s: Seq<char>) -> Seq<PathSeg> {
    scan_path(s, 0, 0, false, Seq::empty())
}


/// A configuration value, as an optional form.
pub open spec fn opt_tree(o: Option<ConfigValue>) -> Option<ConfigTree> {
    match o {
        Some(v) => Some(v.tree()),
        None => None,
    }
}

/// The form of a mapping value is the forms of its entries.
proof fn lemma_mapping_tree(m: Vec<(String, ConfigValue)>)
    ensures
        ConfigValue::Mapping(m).tree() == ConfigTree::Mapping(entries_tree(m@)),
{
    assert(mapping_entries(ConfigValue::Mapping(m).tree()) =~= entries_tree(m@));
}

/// The form of an array value is the forms of its items.
proof fn lemma_array_tree(a: Vec<ConfigValue>)
    ensures
        ConfigValue::Array(a).tree() == ConfigTree::Array(items_tree(a@)),
{
    assert(array_items(ConfigValue::Array(a).tree()) =~= items_tree(a@));
}

/// What `find_key` finds is the first entry with the key; it finds nothing only where no
/// entry has the key.
proof fn lemma_find_key(m: Seq<(Seq<char>, ConfigTree)>, k: Seq<char>)
    ensures
        match find_key(m, k) {
            Some(j) => 0 <= j < m.len() && m[j].0 == k && forall|i: int|
                0 <= i < j ==> m[i].0 != k,
            None => forall|i: int| 0 <= i < m.len() ==> m[i].0 != k,
        },
{
    if exists|j: int| 0 <= j < m.len() && m[j].0 == k {
        let j0 = choose|j: int| 0 <= j < m.len() && m[j].0 == k;
        let f = first_key_index(m, k, j0);
        assert(0 <= f < m.len() && m[f].0 == k && forall|i: int| 0 <= i < f ==> m[i].0 != k);
    }
}

/// Below an entry with the key lies a first one.
proof fn first_key_index(m: Seq<(Seq<char>, ConfigTree)>, k: Seq<char>, j: int) -> (f: int)
    requires
        0 <= j < m.len(),
        m[j].0 == k,
    ensures
        0 <= f <= j,
        m[f].0 == k,
        forall|i: int| 0 <= i < f ==> m[i].0 != k,
    decreases j,
{
    if exists|i: int| 0 <= i < j && m[i].0 == k {
        let i = choose|i: int| 0 <= i < j && m[i].0 == k;
        first_key_index(m, k, i)
    } else {
        j
    }
}

/// The first entry with a key is the one that `find_key` finds.
proof fn lemma_find_key_first(m: Seq<(Seq<char>, ConfigTree)>, k: Seq<char>, j: int)
    requires
        0 <= j < m.len(),
        m[j].0 == k,
        forall|i: int| 0 <= i < j ==> m[i].0 != k,
    ensures
        find_key(m, k) == Some(j),
{
    let c = choose|c: int| 0 <= c < m.len() && m[c].0 == k && forall|i: int| 0 <= i < c ==> m[i].0 != k;
    assert(0 <= c < m.len() && m[c].0 == k && forall|i: int| 0 <= i < c ==> m[i].0 != k);
    if c < j {
        assert(m[c].0 != k);
    } else if j < c {
        assert(m[j].0 != k);
    }
}

/// The first entry with the key, by comparing the keys in turn.
fn key_position(m: &Vec<(String, ConfigValue)>, key: &String) -> (r: Option<usize>)
    ensures
        match r {
            Some(j) => j < m@.len() && find_key(entries_tree(m@), key@) == Some(j as int),
            None => find_key(entries_tree(m@), key@) is None,
        },
{
    let ghost t = entries_tree(m@);
    let mut j: usize = 0;
    while j < m.len()
        invariant
            j <= m@.len(),
            t == entries_tree(m@),
            forall|i: int| 0 <= i < j ==> t[i].0 != key@,
        decreases m@.len() - j,
    {
        if m[j].0 == *key {
            proof {
                lemma_find_key_first(t, key@, j as int);
            }
            return Some(j);
        }
        j = j + 1;
    }
    None
}

/// Taking out one entry with the key, then every other, takes out every entry with the key.
proof fn lemma_without_key_remove(m: Seq<(Seq<char>, ConfigTree)>, k: Seq<char>, j: int)
    requires
        0 <= j < m.len(),
        m[j].0 == k,
    ensures
        without_key(m.remove(j), k) == without_key(m, k),
{
    let pred = key_differs(k);
    let front = m.take(j);
    let back = m.skip(j + 1);
    let one = seq![m[j]];
    assert(m.remove(j) =~= front + back);
    assert(m =~= (front + one) + back);
    Seq::filter_distributes_over_add(front, back, pred);
    Seq::filter_distributes_over_add(front + one, back, pred);
    Seq::filter_distributes_over_add(front, one, pred);
    assert(one.filter(pred) =~= Seq::<(Seq<char>, ConfigTree)>::empty()) by {
        reveal(Seq::filter);
        let none = Seq::<(Seq<char>, ConfigTree)>::empty();
        assert(one.drop_last() =~= none);
        assert(none.filter(pred) == none);
        assert(one.last() == m[j]);
        assert(!pred(m[j]));
        assert(one.filter(pred) == one.drop_last().filter(pred));
    }
    assert(front.filter(pred) + one.filter(pred) =~= front.filter(pred));
}

/// The entries without those with the key, the others kept in order.
fn drop_key(m: Vec<(String, ConfigValue)>, key: &String) -> (r: Vec<(String, ConfigValue)>)
    ensures
        entries_tree(r@) == without_key(entries_tree(m@), key@),
{
    let ghost m0 = entries_tree(m@);
    let ghost pred = key_differs(key@);
    let mut rest = m;
    let mut out: Vec<(String, ConfigValue)> = Vec::new();
    let ghost mut c: int = 0;
    assert(m0.take(0).filter(pred) =~= Seq::<(Seq<char>, ConfigTree)>::empty()) by {
        reveal(Seq::filter);
    }
    assert(entries_tree(out@) =~= Seq::<(Seq<char>, ConfigTree)>::empty());
    assert(entries_tree(rest@) =~= m0.skip(0));
    while rest.len() > 0
        invariant
            0 <= c <= m0.len(),
            pred == key_differs(key@),
            rest@.len() == m0.len() - c,
            entries_tree(rest@) == m0.skip(c),
            entries_tree(out@) == m0.take(c).filter(pred),
        decreases rest@.len(),
    {
        let ghost before = entries_tree(out@);
        let ghost r0 = rest@;
        assert(entries_tree(r0)[0] == m0[c]);
        let e = rest.remove(0);
        let ghost et = (e.0@, e.1.tree());
        assert(et == m0[c]);
        assert forall|i: int| 0 <= i < rest@.len() implies entries_tree(rest@)[i] == m0.skip(
            c + 1,
        )[i] by {
            assert(rest@[i] == r0[i + 1]);
            assert(entries_tree(r0)[i + 1] == m0.skip(c)[i + 1]);
        }
        assert(entries_tree(rest@) =~= m0.skip(c + 1));
        assert(m0.take(c + 1).drop_last() =~= m0.take(c));
        assert(m0.take(c + 1).last() == m0[c]);
        if e.0 == *key {
            assert(m0.take(c + 1).filter(pred) == m0.take(c).filter(pred)) by {
                reveal(Seq::filter);
            }
        } else {
            out.push(e);
            assert(entries_tree(out@) =~= before.push(et));
            assert(m0.take(c + 1).filter(pred) == m0.take(c).filter(pred).push(m0[c])) by {
                reveal(Seq::filter);
            }
        }
        proof {
            c = c + 1;
        }
    }
    assert(m0.take(c) =~= m0);
    out
}

/// One step of a path, as the scanner finds it.
enum PathPart {
    Key(Vec<char>),
    Index(usize),
}

impl PathPart {
    spec fn seg(self) -> PathSeg {
        match self {
            PathPart::Key(k) => PathSeg::Key(k@),
            PathPart::Index(n) => PathSeg::Index(n as nat),
        }
    }
}

/// The steps of a list of scanned parts.
spec fn segs(parts: Seq<PathPart>) -> Seq<PathSeg> {
    parts.map_values(|p: PathPart| p.seg())
}

/// Split a path into its steps.
fn parse_path(path: &str) -> (r: Vec<PathPart>)
    ensures
        segs(r@) == path_steps(path@),
{
    let s = str_to_chars(path);
    let mut parts: Vec<PathPart> = Vec::new();
    let mut start: usize = 0;
    let mut in_bracket = false;
    let mut i: usize = 0;
    assert(segs(parts@) =~= Seq::<PathSeg>::empty());
    while i < s.len()
        invariant
            i <= s@.len(),
            start <= i + 1,
            s@ == path@,
            scan_path(s@, i as nat, start as nat, in_bracket, segs(parts@)) == path_steps(path@),
        decreases s@.len() - i,
    {
        let c = s[i];
        let ghost before = segs(parts@);
        if c == '.' && !in_bracket {
            if i > start {
                parts.push(PathPart::Key(sub_chars(&s, start, i)));
                assert(segs(parts@) =~= before.push(
                    PathSeg::Key(s@.subrange(start as int, i as int)),
                ));
            }
            start = i + 1;
        } else if c == '[' {
            if i > start {
                parts.push(PathPart::Key(sub_chars(&s, start, i)));
                assert(segs(parts@) =~= before.push(
                    PathSeg::Key(s@.subrange(start as int, i as int)),
                ));
            }
            start = i + 1;
            in_bracket = true;
        } else if c == ']' && in_bracket {
            if i > start {
                let piece = sub_chars(&s, start, i);
                match parse_unsigned(&piece, usize::MAX as u64) {
                    Some(n) => {
                        parts.push(PathPart::Index(n as usize));
                        assert(segs(parts@) =~= before.push(PathSeg::Index(n as nat)));
                    },
                    None => {},
                }
            }
            if i + 1 < s.len() && s[i + 1] == '.' {
                start = i + 2;
            } else {
                start = i + 1;
            }
            in_bracket = false;
        }
        i = i + 1;
    }
    if start < s.len() && !in_bracket {
        let ghost before = segs(parts@);
        parts.push(PathPart::Key(sub_chars(&s, start, s.len())));
        assert(segs(parts@) =~= before.push(
            PathSeg::Key(s@.subrange(start as int, s@.len() as int)),
        ));
    }
    parts
}

/// The empty container that the step needs.
fn empty_container(p: &PathPart) -> (r: ConfigValue)
    ensures
        r.tree() == container_for(p.seg()),
{
    match p {
        PathPart::Key(_) => {
            let m: Vec<(String, ConfigValue)> = Vec::new();
            proof {
                lemma_mapping_tree(m);
                assert(entries_tree(m@) =~= Seq::<(Seq<char>, ConfigTree)>::empty());
            }
            ConfigValue::Mapping(m)
        },
        PathPart::Index(_) => {
            let a: Vec<ConfigValue> = Vec::new();
            proof {
                lemma_array_tree(a);
                assert(items_tree(a@) =~= Seq::<ConfigTree>::empty());
            }
            ConfigValue::Array(a)
        },
    }
}

/// The entries of a mapping value, or none.
fn into_entries(v: ConfigValue) -> (r: Vec<(String, ConfigValue)>)
    ensures
        entries_tree(r@) == mapping_entries(v.tree()),
{
    match v {
        ConfigValue::Mapping(m) => {
            proof {
                lemma_mapping_tree(m);
            }
            m
        },
        _ => {
            let m: Vec<(String, ConfigValue)> = Vec::new();
            assert(entries_tree(m@) =~= Seq::<(Seq<char>, ConfigTree)>::empty());
            m
        },
    }
}

/// The items of an array value, or none.
fn into_items(v: ConfigValue) -> (r: Vec<ConfigValue>)
    ensures
        items_tree(r@) == array_items(v.tree()),
{
    match v {
        ConfigValue::Array(a) => {
            proof {
                lemma_array_tree(a);
            }
            a
        },
        _ => {
            let a: Vec<ConfigValue> = Vec::new();
            assert(items_tree(a@) =~= Seq::<ConfigTree>::empty());
            a
        },
    }
}

/// The fill for padding an array at step `i`: the container for the next step, or null at the
/// last step.
spec fn fill_for(parts: Seq<PathPart>, i: int) -> ConfigTree {
    if i + 1 < parts.len() {
        container_for(parts[i + 1].seg())
    } else {
        ConfigTree::Null
    }
}

/// Extend the items until position `n` exists, with the fill for step `i`.
fn pad_items(a: &mut Vec<ConfigValue>, n: usize, parts: &Vec<PathPart>, i: usize)
    requires
        i < parts@.len(),
    ensures
        items_tree(final(a)@) == pad_to(items_tree(old(a)@), n as nat, fill_for(parts@, i as int)),
{
    let ghost a0 = items_tree(a@);
    let ghost fill = fill_for(parts@, i as int);
    let plen = parts.len();
    let last = i == plen - 1;
    while a.len() <= n
        invariant
            plen == parts@.len(),
            i < parts@.len(),
            last == (i + 1 == parts@.len()),
            fill == fill_for(parts@, i as int),
            a@.len() >= a0.len(),
            a@.len() <= n + 1 || a@.len() == a0.len(),
            items_tree(a@) == a0 + Seq::new((a@.len() - a0.len()) as nat, |k: int| fill),
        decreases n + 1 - a@.len(),
    {
        let ghost before = items_tree(a@);
        let item = if last {
            ConfigValue::Null
        } else {
            empty_container(&parts[i + 1])
        };
        assert(item.tree() == fill);
        a.push(item);
        assert(items_tree(a@) =~= before.push(fill));
        assert(items_tree(a@) =~= a0 + Seq::new((a@.len() - a0.len()) as nat, |k: int| fill));
    }
    assert(items_tree(a@) =~= pad_to(a0, n as nat, fill));
}

/// Store `value` at the end of the path from step `i` on.
fn store_value(cur: ConfigValue, parts: &Vec<PathPart>, i: usize, value: ConfigValue) -> (r:
    ConfigValue)
    requires
        i < parts@.len(),
        store_fault(cur.tree(), segs(parts@).skip(i as int)) is None,
    ensures
        r.tree() == store(cur.tree(), segs(parts@).skip(i as int), value.tree()),
    decreases parts@.len() - i, 1int,
{
    match &parts[i] {
        PathPart::Key(k) => store_under_key(cur, parts, i, k, value),
        PathPart::Index(n) => store_under_index(cur, parts, i, *n, value),
    }
}

/// Store `value` at the end of the path from step `i` on, where that step is the key `k`.
#[verifier::rlimit(50)]
fn store_under_key(
    cur: ConfigValue,
    parts: &Vec<PathPart>,
    i: usize,
    k: &Vec<char>,
    value: ConfigValue,
) -> (r: ConfigValue)
    requires
        i < parts@.len(),
        parts@[i as int].seg() == PathSeg::Key(k@),
        store_fault(cur.tree(), segs(parts@).skip(i as int)) is None,
    ensures
        r.tree() == store(cur.tree(), segs(parts@).skip(i as int), value.tree()),
    decreases parts@.len() - i, 0int,
{
    let ghost steps = segs(parts@).skip(i as int);
    let ghost rest = steps.drop_first();
    proof {
        assert(steps[0] == parts@[i as int].seg());
        assert(rest =~= segs(parts@).skip(i + 1));
    }
    let last = i == parts.len() - 1;
    let key = chars_to_string(k);
    let ghost kt = key@;
    let ghost ct = cur.tree();
    let mut m = into_entries(cur);
    let ghost m0 = entries_tree(m@);
    let pos = key_position(&m, &key);
    let ghost vt = value.tree();
    if last {
        match pos {
            Some(j) => {
                let _old = m.remove(j);
                m.insert(j, (key, value));
                assert(entries_tree(m@) =~= m0.update(j as int, (kt, vt)));
            },
            None => {
                m.push((key, value));
                assert(entries_tree(m@) =~= m0.push((kt, vt)));
            },
        }
        proof {
            lemma_mapping_tree(m);
            assert(rest.len() == 0);
        }
        ConfigValue::Mapping(m)
    } else {
        let ghost child_t;
        match pos {
            Some(j) => {
                let (old_key, child) = m.remove(j);
                proof {
                    child_t = child.tree();
                }
                assert(child_t == m0[j as int].1);
                let new_child = store_value(child, parts, i + 1, value);
                let ghost nt = new_child.tree();
                m.insert(j, (key, new_child));
                assert(entries_tree(m@) =~= m0.update(j as int, (kt, nt)));
            },
            None => {
                let child = empty_container(&parts[i + 1]);
                proof {
                    child_t = child.tree();
                }
                assert(rest[0] == parts@[i + 1].seg());
                let new_child = store_value(child, parts, i + 1, value);
                let ghost nt = new_child.tree();
                m.push((key, new_child));
                assert(entries_tree(m@) =~= m0.push((kt, nt)));
            },
        }
        proof {
            lemma_mapping_tree(m);
        }
        ConfigValue::Mapping(m)
    }
}

/// Store `value` at the end of the path from step `i` on, where that step is position `n`.
fn store_under_index(
    cur: ConfigValue,
    parts: &Vec<PathPart>,
    i: usize,
    n: usize,
    value: ConfigValue,
) -> (r: ConfigValue)
    requires
        i < parts@.len(),
        parts@[i as int].seg() == PathSeg::Index(n as nat),
        store_fault(cur.tree(), segs(parts@).skip(i as int)) is None,
    ensures
        r.tree() == store(cur.tree(), segs(parts@).skip(i as int), value.tree()),
    decreases parts@.len() - i, 0int,
{
    let ghost steps = segs(parts@).skip(i as int);
    let ghost rest = steps.drop_first();
    proof {
        assert(steps[0] == parts@[i as int].seg());
        assert(rest =~= segs(parts@).skip(i + 1));
        if i + 1 < parts@.len() {
            assert(rest[0] == parts@[i + 1].seg());
        }
    }
    let last = i == parts.len() - 1;
    let mut a = into_items(cur);
    pad_items(&mut a, n, parts, i);
    let ghost a1 = items_tree(a@);
    let ghost vt = value.tree();
    assert(a1.len() == a@.len());
    assert(a1.len() > n);
    if last {
        let _old = a.remove(n);
        a.insert(n, value);
        assert(items_tree(a@) =~= a1.update(n as int, vt));
    } else {
        let child = a.remove(n);
        assert(child.tree() == a1[n as int]);
        let new_child = store_value(child, parts, i + 1, value);
        let ghost nt = new_child.tree();
        a.insert(n, new_child);
        assert(items_tree(a@) =~= a1.update(n as int, nt));
    }
    proof {
        lemma_array_tree(a);
    }
    ConfigValue::Array(a)
}

/// A container made for a path's first step lets the whole path through: every step below it
/// is missing and is made as the path needs it.
proof fn lemma_fresh_container_fits(parts: Seq<PathSeg>)
    requires
        parts.len() > 0,
    ensures
        store_fault(container_for(parts[0]), parts) is None,
    decreases parts.len(),
{
    let t = container_for(parts[0]);
    if parts.len() > 1 {
        let rest = parts.drop_first();
        match parts[0] {
            PathSeg::Key(k) => {
                assert(mapping_entries(t) =~= Seq::<(Seq<char>, ConfigTree)>::empty());
                assert(find_key(mapping_entries(t), k) is None);
            },
            PathSeg::Index(n) => {
                assert(array_items(t) =~= Seq::<ConfigTree>::empty());
            },
        }
        assert(store_child(t, parts) == container_for(rest[0]));
        lemma_fresh_container_fits(rest);
    }
}

/// The position of the first step, from step `i` on, at which storing would meet a value the
/// step cannot pass through.
fn find_store_fault(cur: &ConfigValue, parts: &Vec<PathPart>, i: usize) -> (r: Option<usize>)
    requires
        i < parts@.len(),
    ensures
        match r {
            Some(j) => i <= j < parts@.len() && store_fault(
                cur.tree(),
                segs(parts@).skip(i as int),
            ) == Some(parts@[j as int].seg()),
            None => store_fault(cur.tree(), segs(parts@).skip(i as int)) is None,
        },
    decreases parts@.len() - i,
{
    let ghost steps = segs(parts@).skip(i as int);
    let ghost rest = steps.drop_first();
    proof {
        assert(steps[0] == parts@[i as int].seg());
        assert(rest =~= segs(parts@).skip(i + 1));
        if i + 1 < parts@.len() {
            assert(rest[0] == parts@[i + 1].seg());
        }
    }
    let passes = match (&parts[i], cur) {
        (PathPart::Key(_), ConfigValue::Null) => true,
        (PathPart::Key(_), ConfigValue::Mapping(_)) => true,
        (PathPart::Index(_), ConfigValue::Null) => true,
        (PathPart::Index(_), ConfigValue::Array(_)) => true,
        _ => false,
    };
    if !passes {
        return Some(i);
    }
    if i == parts.len() - 1 {
        return None;
    }
    match &parts[i] {
        PathPart::Key(k) => {
            match cur {
                ConfigValue::Mapping(m) => {
                    let key = chars_to_string(k);
                    proof {
                        lemma_mapping_tree(*m);
                    }
                    match key_position(m, &key) {
                        Some(j) => {
                            proof {
                                lemma_find_key(entries_tree(m@), key@);
                            }
                            assert(store_child(cur.tree(), steps) == m@[j as int].1.tree());
                            find_store_fault(&m[j].1, parts, i + 1)
                        },
                        None => {
                            proof {
                                lemma_fresh_container_fits(rest);
                            }
                            None
                        },
                    }
                },
                _ => {
                    proof {
                        assert(mapping_entries(cur.tree()) =~= Seq::<(Seq<char>, ConfigTree)>::empty());
                        assert(find_key(mapping_entries(cur.tree()), k@) is None);
                        lemma_fresh_container_fits(rest);
                    }
                    None
                },
            }
        },
        PathPart::Index(n) => {
            match cur {
                ConfigValue::Array(a) => {
                    proof {
                        lemma_array_tree(*a);
                    }
                    if *n < a.len() {
                        assert(store_child(cur.tree(), steps) == a@[*n as int].tree());
                        find_store_fault(&a[*n], parts, i + 1)
                    } else {
                        proof {
                            lemma_fresh_container_fits(rest);
                        }
                        None
                    }
                },
                _ => {
                    proof {
                        assert(array_items(cur.tree()) =~= Seq::<ConfigTree>::empty());
                        lemma_fresh_container_fits(rest);
                    }
                    None
                },
            }
        },
    }
}

/// The message that refuses a path at the given step.
fn fault_text(p: &PathPart) -> (r: String)
    ensures
        r@ == fault_message(p.seg()),
{
    match p {
        PathPart::Key(k) => {
            let mut r = String::from_str("Failed to access map at key '");
            let key = chars_to_string(k);
            r.append(key.as_str());
            r.append("'");
            r
        },
        PathPart::Index(n) => {
            let mut r = String::from_str("Failed to access array at index ");
            append_decimal(&mut r, *n as u64);
            r
        },
    }
}

/// Take out the value at the end of the path from step `i` on.
fn take_value(cur: ConfigValue, parts: &Vec<PathPart>, i: usize) -> (r: (ConfigValue, Option<
    ConfigValue,
>))
    requires
        i < parts@.len(),
    ensures
        (r.0.tree(), opt_tree(r.1)) == take_out(cur.tree(), segs(parts@).skip(i as int)),
    decreases parts@.len() - i, 1int,
{
    match &parts[i] {
        PathPart::Key(k) => take_under_key(cur, parts, i, k),
        PathPart::Index(n) => take_under_index(cur, parts, i, *n),
    }
}

/// Take out the value at the end of the path from step `i` on, where that step is the key `k`.
#[verifier::rlimit(50)]
fn take_under_key(cur: ConfigValue, parts: &Vec<PathPart>, i: usize, k: &Vec<char>) -> (r: (
    ConfigValue,
    Option<ConfigValue>,
))
    requires
        i < parts@.len(),
        parts@[i as int].seg() == PathSeg::Key(k@),
    ensures
        (r.0.tree(), opt_tree(r.1)) == take_out(cur.tree(), segs(parts@).skip(i as int)),
    decreases parts@.len() - i, 0int,
{
    let ghost steps = segs(parts@).skip(i as int);
    proof {
        assert(steps[0] == parts@[i as int].seg());
        assert(steps.drop_first() =~= segs(parts@).skip(i + 1));
    }
    let last = i == parts.len() - 1;
    match cur {
        ConfigValue::Mapping(m) => {
            let mut m = m;
            proof {
                lemma_mapping_tree(m);
            }
            let ghost m0 = entries_tree(m@);
            let key = chars_to_string(k);
            match key_position(&m, &key) {
                Some(j) => {
                    proof {
                        lemma_find_key(m0, key@);
                    }
                    let (old_key, child) = m.remove(j);
                    assert(child.tree() == m0[j as int].1);
                    assert(old_key@ == m0[j as int].0);
                    if last {
                        assert(entries_tree(m@) =~= m0.remove(j as int));
                        proof {
                            lemma_without_key_remove(m0, key@, j as int);
                        }
                        let m = drop_key(m, &key);
                        proof {
                            lemma_mapping_tree(m);
                        }
                        (ConfigValue::Mapping(m), Some(child))
                    } else {
                        let (c2, found) = take_value(child, parts, i + 1);
                        let ghost ct = c2.tree();
                        m.insert(j, (old_key, c2));
                        assert(entries_tree(m@) =~= m0.update(j as int, (k@, ct)));
                        proof {
                            lemma_mapping_tree(m);
                        }
                        (ConfigValue::Mapping(m), found)
                    }
                },
                None => {
                    proof {
                        lemma_mapping_tree(m);
                    }
                    (ConfigValue::Mapping(m), None)
                },
            }
        },
        other => (other, None),
    }
}

/// Take out the value at the end of the path from step `i` on, where that step is position
/// `n`.
#[verifier::rlimit(50)]
fn take_under_index(cur: ConfigValue, parts: &Vec<PathPart>, i: usize, n: usize) -> (r: (
    ConfigValue,
    Option<ConfigValue>,
))
    requires
        i < parts@.len(),
        parts@[i as int].seg() == PathSeg::Index(n as nat),
    ensures
        (r.0.tree(), opt_tree(r.1)) == take_out(cur.tree(), segs(parts@).skip(i as int)),
    decreases parts@.len() - i, 0int,
{
    let ghost steps = segs(parts@).skip(i as int);
    proof {
        assert(steps[0] == parts@[i as int].seg());
        assert(steps.drop_first() =~= segs(parts@).skip(i + 1));
    }
    let last = i == parts.len() - 1;
    match cur {
        ConfigValue::Array(a) => {
            let mut a = a;
            proof {
                lemma_array_tree(a);
            }
            let ghost a0 = items_tree(a@);
            if n < a.len() {
                let child = a.remove(n);
                assert(child.tree() == a0[n as int]);
                if last {
                    assert(items_tree(a@) =~= a0.remove(n as int));
                    proof {
                        lemma_array_tree(a);
                    }
                    (ConfigValue::Array(a), Some(child))
                } else {
                    let (c2, found) = take_value(child, parts, i + 1);
                    let ghost ct = c2.tree();
                    a.insert(n, c2);
                    assert(items_tree(a@) =~= a0.update(n as int, ct));
                    proof {
                        lemma_array_tree(a);
                    }
                    (ConfigValue::Array(a), found)
                }
            } else {
                proof {
                    lemma_array_tree(a);
                }
                (ConfigValue::Array(a), None)
            }
        },
        other => (other, None),
    }
}

/// The entries with `x` merged in, in order: each key of `x` bound to its value from `x`.
pub open spec fn put_all(m: Seq<(Seq<char>, ConfigTree)>, x: Seq<(Seq<char>, ConfigTree)>) -> Seq<
    (Seq<char>, ConfigTree),
>
    decreases x.len(),
{
    if x.len() == 0 {
        m
    } else {
        put_all(put_key(m, x[0].0, x[0].1), x.drop_first())
    }
}

/// Merging `other` into `t`: two mappings merge their entries, `other`'s value winning for a
/// key in both; two arrays are concatenated; otherwise `other` replaces `t`.
pub open spec fn merge_trees(t: ConfigTree, other: ConfigTree) -> ConfigTree {
    match (t, other) {
        (ConfigTree::Mapping(a), ConfigTree::Mapping(b)) => ConfigTree::Mapping(put_all(a, b)),
        (ConfigTree::Array(a), ConfigTree::Array(b)) => ConfigTree::Array(a + b),
        _ => other,
    }
}

/// Bind `key` to `value` in the entries: in place of its first entry, or added at the end.
fn put_entry(m: &mut Vec<(String, ConfigValue)>, key: String, value: ConfigValue)
    ensures
        entries_tree(final(m)@) == put_key(entries_tree(old(m)@), key@, value.tree()),
{
    let ghost m0 = entries_tree(m@);
    let ghost kt = key@;
    let ghost vt = value.tree();
    match key_position(m, &key) {
        Some(j) => {
            let _old = m.remove(j);
            m.insert(j, (key, value));
            assert(entries_tree(m@) =~= m0.update(j as int, (kt, vt)));
        },
        None => {
            m.push((key, value));
            assert(entries_tree(m@) =~= m0.push((kt, vt)));
        },
    }
}

impl ConfigValue {
    /// Whether this is null.
    pub fn is_null(&self) -> (r: bool)
        ensures
            r == (*self is Null),
    {
        match self {
            Self::Null => true,
            _ => false,
        }
    }

    /// Whether this is a boolean.
    pub fn is_bool(&self) -> (r: bool)
        ensures
            r == (*self is Bool),
    {
        match self {
            Self::Bool(_) => true,
            _ => false,
        }
    }

    /// Whether this is an integer.
    pub fn is_integer(&self) -> (r: bool)
        ensures
            r == (*self is Integer),
    {
        match self {
            Self::Integer(_) => true,
            _ => false,
        }
    }

    /// Whether this is a floating-point number.
    pub fn is_float(&self) -> (r: bool)
        ensures
            r == (*self is Float),
    {
        match self {
            Self::Float(_) => true,
            _ => false,
        }
    }

    /// Whether this is a number, integer or floating-point.
    pub fn is_number(&self) -> (r: bool)
        ensures
            r == (*self is Integer || *self is Float),
    {
        match self {
            Self::Integer(_) | Self::Float(_) => true,
            _ => false,
        }
    }

    /// Whether this is a string.
    pub fn is_string(&self) -> (r: bool)
        ensures
            r == (*self is String),
    {
        match self {
            Self::String(_) => true,
            _ => false,
        }
    }

    /// Whether this is an array.
    pub fn is_array(&self) -> (r: bool)
        ensures
            r == (*self is Array),
    {
        match self {
            Self::Array(_) => true,
            _ => false,
        }
    }

    /// Whether this is a mapping.
    pub fn is_map(&self) -> (r: bool)
        ensures
            r == (*self is Mapping),
    {
        match self {
            Self::Mapping(_) => true,
            _ => false,
        }
    }

    /// The boolean, where this is one.
    pub fn as_bool(&self) -> (r: Option<bool>)
        ensures
            r == (match *self {
                Self::Bool(b) => Some(b),
                _ => None,
            }),
    {
        match self {
            Self::Bool(b) => Some(*b),
            _ => None,
        }
    }

    /// The string, where this is one.
    pub fn as_str(&self) -> (r: Option<&str>)
        ensures
            match *self {
                Self::String(s) => r matches Some(t) && t@ == s@,
                _ => r is None,
            },
    {
        match self {
            Self::String(s) => Some(s.as_str()),
            _ => None,
        }
    }

    /// The items, where this is an array.
    pub fn as_array(&self) -> (r: Option<&[ConfigValue]>)
        ensures
            match *self {
                Self::Array(a) => r matches Some(t) && t@ == a@,
                _ => r is None,
            },
    {
        match self {
            Self::Array(a) => Some(a.as_slice()),
            _ => None,
        }
    }

    /// The entries, where this is a mapping.
    pub fn as_map(&self) -> (r: Option<&Vec<(String, ConfigValue)>>)
        ensures
            match *self {
                Self::Mapping(m) => r matches Some(t) && t@ == m@,
                _ => r is None,
            },
    {
        match self {
            Self::Mapping(m) => Some(m),
            _ => None,
        }
    }

    /// The item at a position, where this is an array that long.
    pub fn get_index(&self, index: usize) -> (r: Option<&ConfigValue>)
        ensures
            match r {
                Some(v) => child_at(self.tree(), PathSeg::Index(index as nat)) == Some(v.tree()),
                None => child_at(self.tree(), PathSeg::Index(index as nat)) is None,
            },
    {
        match self {
            Self::Array(a) => {
                proof {
                    lemma_array_tree(*a);
                }
                if index < a.len() {
                    Some(&a[index])
                } else {
                    None
                }
            },
            _ => None,
        }
    }

    /// The value of the first entry with the key, where this is a mapping.
    fn get_key(&self, key: &String) -> (r: Option<&ConfigValue>)
        ensures
            match r {
                Some(v) => child_at(self.tree(), PathSeg::Key(key@)) == Some(v.tree()),
                None => child_at(self.tree(), PathSeg::Key(key@)) is None,
            },
    {
        match self {
            Self::Mapping(m) => {
                proof {
                    lemma_mapping_tree(*m);
                }
                match key_position(m, key) {
                    Some(j) => Some(&m[j].1),
                    None => None,
                }
            },
            _ => None,
        }
    }

    /// The value for the key, where this is a mapping that has it.
    pub fn get(&self, key: &str) -> (r: Option<&ConfigValue>)
        ensures
            match r {
                Some(v) => child_at(self.tree(), PathSeg::Key(key@)) == Some(v.tree()),
                None => child_at(self.tree(), PathSeg::Key(key@)) is None,
            },
    {
        let k = String::from_str(key);
        self.get_key(&k)
    }

    /// The items, mutably, where this is an array.
    pub fn as_array_mut(&mut self) -> (r: Option<&mut Vec<ConfigValue>>)
        ensures
            match *old(self) {
                Self::Array(a) => r matches Some(t) && *t == a && *final(self) == Self::Array(
                    *final(t),
                ),
                _ => r is None && *final(self) == *old(self),
            },
    {
        match self {
            Self::Array(a) => Some(a),
            _ => None,
        }
    }

    /// The entries, mutably, where this is a mapping.
    pub fn as_map_mut(&mut self) -> (r: Option<&mut Vec<(String, ConfigValue)>>)
        ensures
            match *old(self) {
                Self::Mapping(m) => r matches Some(t) && *t == m && *final(self) == Self::Mapping(
                    *final(t),
                ),
                _ => r is None && *final(self) == *old(self),
            },
    {
        match self {
            Self::Mapping(m) => Some(m),
            _ => None,
        }
    }

    /// The item at a position, mutably, where this is an array that long.
    pub fn get_index_mut(&mut self, index: usize) -> (r: Option<&mut ConfigValue>)
        ensures
            match *old(self) {
                Self::Array(a) => if index < a@.len() {
                    match r {
                        Some(x) => *x == a@[index as int] && (*final(self) matches Self::Array(b)
                            && b@ == a@.update(index as int, *final(x))),
                        None => false,
                    }
                } else {
                    r is None && *final(self) == *old(self)
                },
                _ => r is None && *final(self) == *old(self),
            },
    {
        match self {
            Self::Array(a) => {
                if index < a.len() {
                    Some(&mut a[index])
                } else {
                    None
                }
            },
            _ => None,
        }
    }

    /// The value of the first entry with the key, mutably, where this is a mapping that has it.
    pub fn get_mut(&mut self, key: &str) -> (r: Option<&mut ConfigValue>)
        ensures
            match *old(self) {
                Self::Mapping(m) => match find_key(entries_tree(m@), key@) {
                    Some(j) => match r {
                        Some(x) => *x == m@[j].1 && (*final(self) matches Self::Mapping(n) && n@
                            == m@.update(j, (m@[j].0, *final(x)))),
                        None => false,
                    },
                    None => r is None && *final(self) == *old(self),
                },
                _ => r is None && *final(self) == *old(self),
            },
    {
        let k = String::from_str(key);
        match self {
            Self::Mapping(m) => {
                match key_position(m, &k) {
                    Some(j) => Some(&mut m[j].1),
                    None => None,
                }
            },
            _ => None,
        }
    }

    /// Bind the key to the value, where this is a mapping; the result says whether it is.
    pub fn set(&mut self, key: &str, value: ConfigValue) -> (r: bool)
        ensures
            r == (*old(self) is Mapping),
            r ==> final(self).tree() == ConfigTree::Mapping(
                put_key(mapping_entries(old(self).tree()), key@, value.tree()),
            ),
            !r ==> *final(self) == *old(self),
    {
        match self {
            Self::Mapping(m) => {
                proof {
                    lemma_mapping_tree(*m);
                }
                put_entry(m, String::from_str(key), value);
                proof {
                    lemma_mapping_tree(*m);
                }
                true
            },
            _ => false,
        }
    }

    /// Append the value, where this is an array; the result says whether it is.
    pub fn push(&mut self, value: ConfigValue) -> (r: bool)
        ensures
            r == (*old(self) is Array),
            r ==> final(self).tree() == ConfigTree::Array(
                array_items(old(self).tree()).push(value.tree()),
            ),
            !r ==> *final(self) == *old(self),
    {
        match self {
            Self::Array(a) => {
                proof {
                    lemma_array_tree(*a);
                }
                let ghost a0 = items_tree(a@);
                let ghost vt = value.tree();
                a.push(value);
                assert(items_tree(a@) =~= a0.push(vt));
                proof {
                    lemma_array_tree(*a);
                }
                true
            },
            _ => false,
        }
    }

    /// Remove the key, where this is a mapping that has it: every entry with the key goes, and
    /// the value of the first is given back.
    pub fn remove(&mut self, key: &str) -> (r: Option<ConfigValue>)
        ensures
            match *old(self) {
                Self::Mapping(_) => match find_key(mapping_entries(old(self).tree()), key@) {
                    Some(j) => {
                        &&& opt_tree(r) == Some(mapping_entries(old(self).tree())[j].1)
                        &&& final(self).tree() == ConfigTree::Mapping(
                            without_key(mapping_entries(old(self).tree()), key@),
                        )
                    },
                    None => r is None && *final(self) == *old(self),
                },
                _ => r is None && *final(self) == *old(self),
            },
    {
        match self {
            Self::Mapping(m) => {
                proof {
                    lemma_mapping_tree(*m);
                }
                let ghost m0 = entries_tree(m@);
                let k = String::from_str(key);
                match key_position(m, &k) {
                    Some(j) => {
                        proof {
                            lemma_find_key(m0, k@);
                        }
                        let (_, v) = m.remove(j);
                        assert(entries_tree(m@) =~= m0.remove(j as int));
                        proof {
                            lemma_without_key_remove(m0, k@, j as int);
                        }
                        let mut kept: Vec<(String, ConfigValue)> = Vec::new();
                        std::mem::swap(&mut kept, m);
                        let kept = drop_key(kept, &k);
                        *m = kept;
                        proof {
                            lemma_mapping_tree(*m);
                        }
                        Some(v)
                    },
                    None => None,
                }
            },
            _ => None,
        }
    }

    /// Remove the item at a position, where this is an array that long, and give it.
    pub fn remove_index(&mut self, index: usize) -> (r: Option<ConfigValue>)
        ensures
            match *old(self) {
                Self::Array(a) => if index < a@.len() {
                    &&& opt_tree(r) == Some(array_items(old(self).tree())[index as int])
                    &&& final(self).tree() == ConfigTree::Array(
                        array_items(old(self).tree()).remove(index as int),
                    )
                } else {
                    r is None && *final(self) == *old(self)
                },
                _ => r is None && *final(self) == *old(self),
            },
    {
        match self {
            Self::Array(a) => {
                proof {
                    lemma_array_tree(*a);
                }
                let ghost a0 = items_tree(a@);
                if index < a.len() {
                    let v = a.remove(index);
                    assert(items_tree(a@) =~= a0.remove(index as int));
                    proof {
                        lemma_array_tree(*a);
                    }
                    Some(v)
                } else {
                    None
                }
            },
            _ => None,
        }
    }

    /// The number of items or entries, where this is an array or a mapping.
    pub fn len(&self) -> (r: Option<usize>)
        ensures
            r == (match *self {
                Self::Array(a) => Some(a@.len() as usize),
                Self::Mapping(m) => Some(m@.len() as usize),
                _ => None,
            }),
    {
        match self {
            Self::Array(a) => Some(a.len()),
            Self::Mapping(m) => Some(m.len()),
            _ => None,
        }
    }

    /// Whether there are no items or entries, where this is an array or a mapping.
    pub fn is_empty(&self) -> (r: Option<bool>)
        ensures
            r == (match *self {
                Self::Array(a) => Some(a@.len() == 0),
                Self::Mapping(m) => Some(m@.len() == 0),
                _ => None,
            }),
    {
        match self {
            Self::Array(a) => Some(a.len() == 0),
            Self::Mapping(m) => Some(m.len() == 0),
            _ => None,
        }
    }

    /// Merge another value into this one: mappings merge their entries (the other's value
    /// winning for a shared key), arrays are concatenated, and otherwise the other value
    /// replaces this one.
    pub fn merge(&mut self, other: ConfigValue)
        ensures
            final(self).tree() == merge_trees(old(self).tree(), other.tree()),
    {
        let ghost t0 = self.tree();
        let ghost o0 = other.tree();
        match (self, other) {
            (Self::Mapping(a), Self::Mapping(b)) => {
                proof {
                    lemma_mapping_tree(*a);
                    lemma_mapping_tree(b);
                }
                let ghost x = entries_tree(b@);
                let mut b = b;
                let mut i: usize = 0;
                let ghost a0 = entries_tree(a@);
                let n = b.len();
                assert(x.skip(0) =~= x);
                while i < n
                    invariant
                        n == x.len(),
                        i <= n,
                        entries_tree(b@) == x.skip(i as int),
                        put_all(a0, x) == put_all(entries_tree(a@), x.skip(i as int)),
                    decreases n - i,
                {
                    assert(b@.len() > 0) by {
                        assert(entries_tree(b@).len() == n - i);
                    }
                    let ghost before = entries_tree(b@);
                    let (k, v) = b.remove(0);
                    assert(entries_tree(b@) =~= before.drop_first());
                    assert(x.skip(i as int).drop_first() =~= x.skip(i + 1));
                    assert(x.skip(i as int)[0] == (k@, v.tree()));
                    put_entry(a, k, v);
                    i = i + 1;
                }
                assert(x.skip(i as int) =~= Seq::<(Seq<char>, ConfigTree)>::empty());
                proof {
                    lemma_mapping_tree(*a);
                }
            },
            (Self::Array(a), Self::Array(b)) => {
                proof {
                    lemma_array_tree(*a);
                    lemma_array_tree(b);
                }
                let ghost a0 = items_tree(a@);
                let ghost b0 = items_tree(b@);
                let mut b = b;
                a.append(&mut b);
                assert(items_tree(a@) =~= a0 + b0);
                proof {
                    lemma_array_tree(*a);
                }
            },
            (s, o) => {
                *s = o;
            },
        }
    }
}

impl Default for ConfigValue {
    /// Null.
    fn default() -> (r: Self)
        ensures
            r == ConfigValue::Null,
    {
        ConfigValue::Null
    }
}

impl From<bool> for ConfigValue {
    fn from(b: bool) -> (r: Self) {
        ConfigValue::Bool(b)
    }
}

impl vstd::std_specs::convert::FromSpecImpl<bool> for ConfigValue {
    open spec fn obeys_from_spec() -> bool {
        true
    }

    open spec fn from_spec(v: bool) -> Self {
        ConfigValue::Bool(v)
    }
}

impl From<i32> for ConfigValue {
    fn from(i: i32) -> (r: Self) {
        ConfigValue::Integer(i as i64)
    }
}

impl vstd::std_specs::convert::FromSpecImpl<i32> for ConfigValue {
    open spec fn obeys_from_spec() -> bool {
        true
    }

    open spec fn from_spec(v: i32) -> Self {
        ConfigValue::Integer(v as i64)
    }
}

impl From<i64> for ConfigValue {
    fn from(i: i64) -> (r: Self) {
        ConfigValue::Integer(i)
    }
}

impl vstd::std_specs::convert::FromSpecImpl<i64> for ConfigValue {
    open spec fn obeys_from_spec() -> bool {
        true
    }

    open spec fn from_spec(v: i64) -> Self {
        ConfigValue::Integer(v)
    }
}

impl From<String> for ConfigValue {
    fn from(s: String) -> (r: Self) {
        ConfigValue::String(s)
    }
}

impl vstd::std_specs::convert::FromSpecImpl<String> for ConfigValue {
    open spec fn obeys_from_spec() -> bool {
        true
    }

    open spec fn from_spec(v: String) -> Self {
        ConfigValue::String(v)
    }
}

impl From<Vec<ConfigValue>> for ConfigValue {
    fn from(v: Vec<ConfigValue>) -> (r: Self) {
        ConfigValue::Array(v)
    }
}

impl vstd::std_specs::convert::FromSpecImpl<Vec<ConfigValue>> for ConfigValue {
    open spec fn obeys_from_spec() -> bool {
        true
    }

    open spec fn from_spec(v: Vec<ConfigValue>) -> Self {
        ConfigValue::Array(v)
    }
}

/// A configuration: a tree of values under a root.
#[derive(Debug, PartialEq)]
pub struct Config {
    /// The root value.
    pub root: ConfigValue,
}

/// The value at the end of the path from step `i` on, mutably, where every step exists.
fn value_at_mut<'a>(cur: &'a mut ConfigValue, parts: &Vec<PathPart>, i: usize) -> (r: Option<
    &'a mut ConfigValue,
>)
    requires
        i <= parts@.len(),
    ensures
        match r {
            Some(x) => lookup(old(cur).tree(), segs(parts@).skip(i as int)) == Some(x.tree()),
            None => lookup(old(cur).tree(), segs(parts@).skip(i as int)) is None,
        },
    decreases parts@.len() - i,
{
    let ghost steps = segs(parts@).skip(i as int);
    if i == parts.len() {
        assert(steps =~= Seq::<PathSeg>::empty());
        return Some(cur);
    }
    proof {
        assert(steps[0] == parts@[i as int].seg());
        assert(steps.drop_first() =~= segs(parts@).skip(i + 1));
    }
    let ghost cv = *cur;
    let next = match &parts[i] {
        PathPart::Key(k) => {
            let key = chars_to_string(k);
            proof {
                if let ConfigValue::Mapping(m) = cv {
                    lemma_mapping_tree(m);
                    lemma_find_key(entries_tree(m@), key@);
                }
            }
            cur.get_mut(key.as_str())
        },
        PathPart::Index(n) => {
            proof {
                if let ConfigValue::Array(a) = cv {
                    lemma_array_tree(a);
                }
            }
            cur.get_index_mut(*n)
        },
    };
    match next {
        Some(c) => value_at_mut(c, parts, i + 1),
        None => None,
    }
}

impl Config {
    /// A configuration whose root is null.
    pub fn new() -> (r: Self)
        ensures
            r.root == ConfigValue::Null,
    {
        Self { root: ConfigValue::Null }
    }

    /// A configuration whose root is an empty mapping.
    pub fn new_map() -> (r: Self)
        ensures
            r.root.tree() == ConfigTree::Mapping(Seq::empty()),
    {
        let m: Vec<(String, ConfigValue)> = Vec::new();
        proof {
            lemma_mapping_tree(m);
            assert(entries_tree(m@) =~= Seq::<(Seq<char>, ConfigTree)>::empty());
        }
        Self { root: ConfigValue::Mapping(m) }
    }

    /// A configuration with the given root.
    pub fn from_value(root: ConfigValue) -> (r: Self)
        ensures
            r.root == root,
    {
        Self { root }
    }

    /// The value at the path, where every step of it exists. The empty path is the root.
    pub fn get(&self, path: &str) -> (r: Option<&ConfigValue>)
        ensures
            match r {
                Some(v) => lookup(self.root.tree(), path_steps(path@)) == Some(v.tree()),
                None => lookup(self.root.tree(), path_steps(path@)) is None,
            },
    {
        let parts = parse_path(path);
        let ghost steps = segs(parts@);
        let mut current: &ConfigValue = &self.root;
        let mut i: usize = 0;
        assert(steps.skip(0) =~= steps);
        while i < parts.len()
            invariant
                i <= parts@.len(),
                steps == segs(parts@),
                steps == path_steps(path@),
                lookup(self.root.tree(), steps) == lookup(current.tree(), steps.skip(i as int)),
            decreases parts@.len() - i,
        {
            let ghost rest = steps.skip(i as int);
            assert(rest[0] == parts@[i as int].seg());
            assert(rest.drop_first() =~= steps.skip(i + 1));
            let next = match &parts[i] {
                PathPart::Key(k) => {
                    let key = chars_to_string(k);
                    current.get_key(&key)
                },
                PathPart::Index(n) => current.get_index(*n),
            };
            match next {
                Some(c) => {
                    current = c;
                },
                None => {
                    return None;
                },
            }
            i = i + 1;
        }
        assert(steps.skip(i as int) =~= Seq::<PathSeg>::empty());
        Some(current)
    }

    /// The value at the path, mutably, where every step of it exists. The empty path is the
    /// root; a non-empty path must have at least one step.
    pub fn get_mut(&mut self, path: &str) -> (r: Option<&mut ConfigValue>)
        requires
            path@.len() == 0 || path_steps(path@).len() > 0,
        ensures
            match r {
                Some(v) => lookup(old(self).root.tree(), path_steps(path@)) == Some(v.tree()),
                None => lookup(old(self).root.tree(), path_steps(path@)) is None,
            },
    {
        let parts = parse_path(path);
        assert(segs(parts@).skip(0) =~= segs(parts@));
        value_at_mut(&mut self.root, &parts, 0)
    }

    /// Whether there is a value at the path.
    pub fn contains(&self, path: &str) -> (r: bool)
        ensures
            r == lookup(self.root.tree(), path_steps(path@)) is Some,
    {
        self.get(path).is_some()
    }

    /// Store the value at the path, making each step's container where it is missing or null.
    /// The empty path replaces the root; a path with no steps (such as `.`) is refused, and so
    /// is a path on which a step meets a value it cannot pass through (a key on a value that is
    /// not a mapping, a position on one that is not an array), with the configuration left as
    /// it was.
    pub fn set(&mut self, path: &str, value: ConfigValue) -> (r: Result<(), String>)
        ensures
            path@.len() == 0 ==> r is Ok && final(self).root == value,
            path@.len() > 0 && path_steps(path@).len() == 0 ==> (r matches Err(s) && s@
                == "Failed to set value"@) && *final(self) == *old(self),
            path@.len() > 0 && path_steps(path@).len() > 0 ==> match store_fault(
                old(self).root.tree(),
                path_steps(path@),
            ) {
                Some(p) => (r matches Err(s) && s@ == fault_message(p)) && *final(self) == *old(
                    self,
                ),
                None => r is Ok && final(self).root.tree() == store(
                    old(self).root.tree(),
                    path_steps(path@),
                    value.tree(),
                ),
            },
    {
        if path.is_empty() {
            self.root = value;
            return Ok(());
        }
        let parts = parse_path(path);
        if parts.len() == 0 {
            assert(segs(parts@) =~= Seq::<PathSeg>::empty());
            return Err(String::from_str("Failed to set value"));
        }
        assert(segs(parts@).skip(0) =~= segs(parts@));
        if let Some(j) = find_store_fault(&self.root, &parts, 0) {
            return Err(fault_text(&parts[j]));
        }
        let mut root = ConfigValue::Null;
        std::mem::swap(&mut root, &mut self.root);
        let updated = store_value(root, &parts, 0, value);
        self.root = updated;
        Ok(())
    }

    /// Remove the value at the path and give it, where every step of it exists. The empty
    /// path takes the whole root, leaving null; a path with no steps removes nothing.
    pub fn remove(&mut self, path: &str) -> (r: Option<ConfigValue>)
        ensures
            path@.len() == 0 ==> r == Some(old(self).root) && final(self).root == ConfigValue::Null,
            path@.len() > 0 && path_steps(path@).len() == 0 ==> r is None && *final(self)
                == *old(self),
            path@.len() > 0 && path_steps(path@).len() > 0 ==> (final(self).root.tree(), opt_tree(
                r,
            )) == take_out(old(self).root.tree(), path_steps(path@)),
    {
        let mut root = ConfigValue::Null;
        std::mem::swap(&mut root, &mut self.root);
        if path.is_empty() {
            return Some(root);
        }
        let parts = parse_path(path);
        if parts.len() == 0 {
            assert(segs(parts@) =~= Seq::<PathSeg>::empty());
            self.root = root;
            return None;
        }
        let (rest, found) = take_value(root, &parts, 0);
        assert(segs(parts@).skip(0) =~= segs(parts@));
        self.root = rest;
        found
    }

    /// Merge another configuration's root into this one's.
    pub fn merge(&mut self, other: Config)
        ensures
            final(self).root.tree() == merge_trees(old(self).root.tree(), other.root.tree()),
    {
        self.root.merge(other.root);
    }
}

impl Clone for Config {
    /// A copy of the configuration, with a root of the same form.
    fn clone(&self) -> (r: Self)
        ensures
            r.root.tree() == self.root.tree(),
    {
        Config { root: self.root.clone() }
    }
}

impl Default for Config {
    /// A configuration whose root is null.
    fn default() -> (r: Self)
        ensures
            r.root == ConfigValue::Null,
    {
        Self::new()
    }
}

/// Binding a key finds the key again, with the new value.
proof fn lemma_put_key_found(m: Seq<(Seq<char>, ConfigTree)>, k: Seq<char>, x: ConfigTree)
    ensures
        find_key(put_key(m, k, x), k) matches Some(j) && put_key(m, k, x)[j] == (k, x),
{
    lemma_find_key(m, k);
    let p = put_key(m, k, x);
    match find_key(m, k) {
        Some(j) => {
            lemma_find_key_first(p, k, j);
        },
        None => {
            lemma_find_key_first(p, k, m.len() as int);
        },
    }
}

/// A value stored at a path on which every step can pass is found there again.
pub proof fn lemma_get_after_set(t: ConfigTree, steps: Seq<PathSeg>, v: ConfigTree)
    requires
        steps.len() > 0,
        store_fault(t, steps) is None,
    ensures
        lookup(store(t, steps, v), steps) == Some(v),
    decreases steps.len(),
{
    let rest = steps.drop_first();
    let s = store(t, steps, v);
    assert(fits(t, steps[0]));
    match steps[0] {
        PathSeg::Key(k) => {
            let m = mapping_entries(t);
            let x = if rest.len() == 0 {
                v
            } else {
                store(store_child(t, steps), rest, v)
            };
            assert(s == ConfigTree::Mapping(put_key(m, k, x)));
            lemma_put_key_found(m, k, x);
            assert(child_at(s, steps[0]) == Some(x));
            if rest.len() > 0 {
                lemma_get_after_set(store_child(t, steps), rest, v);
            }
            assert(lookup(x, rest) == Some(v));
            assert(lookup(s, steps) == lookup(x, rest));
        },
        PathSeg::Index(n) => {
            if rest.len() == 0 {
                let a = pad_to(array_items(t), n, ConfigTree::Null);
                assert(a.len() > n);
                assert(s == ConfigTree::Array(a.update(n as int, v)));
                assert(child_at(s, steps[0]) == Some(v));
                assert(lookup(v, rest) == Some(v));
                assert(lookup(s, steps) == lookup(v, rest));
            } else {
                let a = pad_to(array_items(t), n, container_for(rest[0]));
                assert(a.len() > n);
                assert(s == ConfigTree::Array(a.update(n as int, store(a[n as int], rest, v))));
                assert(child_at(s, steps[0]) == Some(store(a[n as int], rest, v)));
                lemma_get_after_set(a[n as int], rest, v);
                assert(lookup(s, steps) == lookup(store(a[n as int], rest, v), rest));
            }
        },
    }
}

/// A value stored at a path on which every step can pass is what removing at that path gives
/// back.
pub proof fn lemma_remove_after_set(t: ConfigTree, steps: Seq<PathSeg>, v: ConfigTree)
    requires
        steps.len() > 0,
        store_fault(t, steps) is None,
    ensures
        take_out(store(t, steps, v), steps).1 == Some(v),
    decreases steps.len(),
{
    let rest = steps.drop_first();
    let s = store(t, steps, v);
    assert(fits(t, steps[0]));
    match steps[0] {
        PathSeg::Key(k) => {
            let m = mapping_entries(t);
            let x = if rest.len() == 0 {
                v
            } else {
                store(store_child(t, steps), rest, v)
            };
            assert(s == ConfigTree::Mapping(put_key(m, k, x)));
            lemma_put_key_found(m, k, x);
            if rest.len() > 0 {
                lemma_remove_after_set(store_child(t, steps), rest, v);
            }
        },
        PathSeg::Index(n) => {
            if rest.len() == 0 {
                let a = pad_to(array_items(t), n, ConfigTree::Null);
                assert(a.len() > n);
                assert(s == ConfigTree::Array(a.update(n as int, v)));
            } else {
                let a = pad_to(array_items(t), n, container_for(rest[0]));
                assert(a.len() > n);
                assert(s == ConfigTree::Array(a.update(n as int, store(a[n as int], rest, v))));
                lemma_remove_after_set(a[n as int], rest, v);
            }
        },
    }
}

/// Removing at a path gives back what was found there.
pub proof fn lemma_remove_gives_lookup(t: ConfigTree, steps: Seq<PathSeg>)
    requires
        steps.len() > 0,
    ensures
        take_out(t, steps).1 == lookup(t, steps),
    decreases steps.len(),
{
    let rest = steps.drop_first();
    match child_at(t, steps[0]) {
        Some(c) => {
            if steps.len() > 1 {
                lemma_remove_gives_lookup(c, rest);
            }
        },
        None => {},
    }
}

/// Removing at a path where nothing is found leaves the tree as it was.
pub proof fn lemma_remove_missing_keeps(t: ConfigTree, steps: Seq<PathSeg>)
    requires
        steps.len() > 0,
        lookup(t, steps) is None,
    ensures
        take_out(t, steps).0 == t,
    decreases steps.len(),
{
    let rest = steps.drop_first();
    if steps.len() == 1 {
        assert(lookup(t, steps) == match child_at(t, steps[0]) {
            Some(c) => lookup(c, rest),
            None => None,
        });
        assert(child_at(t, steps[0]) is None);
    } else {
        match steps[0] {
            PathSeg::Key(k) => {
                if let ConfigTree::Mapping(m) = t {
                    lemma_find_key(m, k);
                    if let Some(j) = find_key(m, k) {
                        lemma_remove_missing_keeps(m[j].1, rest);
                        assert(m.update(j, (k, m[j].1)) =~= m);
                    }
                }
            },
            PathSeg::Index(n) => {
                if let ConfigTree::Array(a) = t {
                    if n < a.len() {
                        lemma_remove_missing_keeps(a[n as int], rest);
                        assert(a.update(n as int, a[n as int]) =~= a);
                    }
                }
            },
        }
    }
}

/// After removing at a path whose last step is a key, nothing is found at that path: every
/// entry with the key is gone.
pub proof fn lemma_remove_key_leaves_absent(t: ConfigTree, steps: Seq<PathSeg>)
    requires
        steps.len() > 0,
        steps.last() is Key,
    ensures
        lookup(take_out(t, steps).0, steps) is None,
    decreases steps.len(),
{
    let rest = steps.drop_first();
    if steps.len() == 1 {
        let k = steps[0]->Key_0;
        if let ConfigTree::Mapping(m) = t {
            if find_key(m, k) is Some {
                let w = without_key(m, k);
                assert forall|i: int| 0 <= i < w.len() implies w[i].0 != k by {
                    m.lemma_filter_pred(key_differs(k), i);
                }
                assert(find_key(w, k) is None);
            }
        }
    } else {
        assert(rest.last() == steps.last());
        match steps[0] {
            PathSeg::Key(k) => {
                if let ConfigTree::Mapping(m) = t {
                    lemma_find_key(m, k);
                    if let Some(j) = find_key(m, k) {
                        let r = take_out(m[j].1, rest);
                        let m2 = m.update(j, (k, r.0));
                        lemma_find_key_first(m2, k, j);
                        lemma_remove_key_leaves_absent(m[j].1, rest);
                    }
                }
            },
            PathSeg::Index(n) => {
                if let ConfigTree::Array(a) = t {
                    if n < a.len() {
                        lemma_remove_key_leaves_absent(a[n as int], rest);
                    }
                }
            },
        }
    }
}

} // verus!
