//! Span contexts: the identity of a span within a trace, its parent, and its W3C
//! `traceparent` form.

use std::collections::HashMap;
use std::time::{Duration, SystemTime, SystemTimeError, UNIX_EPOCH};
use vstd::prelude::*;

use crate::lion_core::id::hex_digit;
use crate::text::{
    char_from_digit, chars_to_string, lemma_split_no_sep, split_char, split_chars, str_to_chars,
};

verus! {

broadcast use vstd::std_specs::hash::group_hash_axioms;

/// A reading of the system clock.
#[verifier::external_type_specification]
#[verifier::external_body]
pub struct ExSystemTime(std::time::SystemTime);

/// The error of a clock reading before the Unix epoch.
#[verifier::external_type_specification]
#[verifier::external_body]
pub struct ExSystemTimeError(std::time::SystemTimeError);

/// The current reading of the system clock, from `SystemTime::now`; it depends on the clock,
/// so nothing is stated.
#[verifier::external_body]
fn system_now() -> SystemTime {
    SystemTime::now()
}

/// The time from the Unix epoch to a clock reading, from `SystemTime::duration_since`, or an
/// error where the reading is before the epoch; nothing is stated of the opaque reading.
#[verifier::external_body]
fn since_epoch(t: &SystemTime) -> Result<Duration, SystemTimeError> {
    t.duration_since(UNIX_EPOCH)
}

/// The whole nanoseconds of a duration, from `Duration::as_nanos`; nothing is stated of the
/// opaque duration.
#[verifier::external_body]
fn duration_nanos(d: &Duration) -> u128 {
    d.as_nanos()
}

/// The nanoseconds since the Unix epoch by the system clock, zero where the clock reads
/// before the epoch.
fn now_nanos() -> u128 {
    let t = system_now();
    match since_epoch(&t) {
        Ok(d) => duration_nanos(&d),
        Err(_) => 0,
    }
}

/// The lowercase hexadecimal digits of `n`, without leading zeros.
pub open spec fn hex_text(n: nat) -> Seq<char>
    decreases n,
{
    if n < 16 {
        seq![hex_digit(n)]
    } else {
        hex_text(n / 16).push(hex_digit(n % 16))
    }
}

/// The hexadecimal digits of `n`, padded with zeros on the left to at least `width` digits.
pub open spec fn padded_hex(n: nat, width: nat) -> Seq<char> {
    let h = hex_text(n);
    if h.len() >= width {
        h
    } else {
        Seq::new((width - h.len()) as nat, |i: int| '0') + h
    }
}

/// An identifier as the library generates them: a time in nanoseconds as at least sixteen
/// hexadecimal digits.
pub open spec fn is_generated_id(s: Seq<char>) -> bool {
    exists|n: u128| s == padded_hex(n as nat, 16)
}

/// The W3C `traceparent` text of a span: version `00`, the trace and span identifiers, and
/// the flags `01` where it is sampled, else `00`.
pub open spec fn w3c_text(trace_id: Seq<char>, span_id: Seq<char>, sampled: bool) -> Seq<char> {
    "00-"@ + trace_id + "-"@ + span_id + "-"@ + (if sampled {
        "01"@
    } else {
        "00"@
    })
}

/// Whether a character is a hexadecimal digit of odd value, that is, one whose lowest bit is set.
pub open spec fn odd_hex_digit(c: char) -> bool {
    c == '1' || c == '3' || c == '5' || c == '7' || c == '9' || c == 'b' || c == 'd' || c == 'f'
        || c == 'B' || c == 'D' || c == 'F'
}

/// Whether W3C trace flags mark a span as sampled: the lowest bit of the flags, which is that
/// of their last hexadecimal digit, is set.
pub open spec fn flags_sampled(flags: Seq<char>) -> bool {
    flags.len() > 0 && odd_hex_digit(flags.last())
}

fn is_odd_hex_digit(c: char) -> (r: bool)
    ensures
        r == odd_hex_digit(c),
{
    c == '1' || c == '3' || c == '5' || c == '7' || c == '9' || c == 'b' || c == 'd' || c == 'f'
        || c == 'B' || c == 'D' || c == 'F'
}

/// The lowercase hexadecimal digit for a value below sixteen.
fn hex_char(d: u128) -> (c: char)
    requires
        d < 16,
    ensures
        c == hex_digit(d as nat),
{
    if d < 10 {
        char_from_digit(d as u32)
    } else if d == 10 {
        'a'
    } else if d == 11 {
        'b'
    } else if d == 12 {
        'c'
    } else if d == 13 {
        'd'
    } else if d == 14 {
        'e'
    } else {
        'f'
    }
}

/// The hexadecimal digits of `n`, without leading zeros.
fn hex_chars(n: u128) -> (r: Vec<char>)
    ensures
        r@ == hex_text(n as nat),
    decreases n,
{
    if n < 16 {
        let mut r: Vec<char> = Vec::new();
        r.push(hex_char(n));
        assert(r@ =~= seq![hex_digit(n as nat)]);
        r
    } else {
        let mut r = hex_chars(n / 16);
        r.push(hex_char(n % 16));
        r
    }
}

/// The identifier for a time in nanoseconds: its hexadecimal digits, padded with zeros to at
/// least sixteen.
pub fn format_id(nanos: u128) -> (r: String)
    ensures
        r@ == padded_hex(nanos as nat, 16),
{
    let h = hex_chars(nanos);
    let mut v: Vec<char> = Vec::new();
    if h.len() < 16 {
        let pad: usize = 16 - h.len();
        let mut i: usize = 0;
        while i < pad
            invariant
                i <= pad,
                v@ == Seq::new(i as nat, |k: int| '0'),
            decreases pad - i,
        {
            v.push('0');
            i = i + 1;
            assert(v@ =~= Seq::new(i as nat, |k: int| '0'));
        }
    }
    let ghost prefix = v@;
    let mut j: usize = 0;
    while j < h.len()
        invariant
            j <= h@.len(),
            v@ == prefix + h@.take(j as int),
        decreases h@.len() - j,
    {
        v.push(h[j]);
        j = j + 1;
        assert(v@ =~= prefix + h@.take(j as int));
    }
    assert(h@.take(j as int) =~= h@);
    proof {
        if h@.len() >= 16 {
            assert(v@ =~= h@);
        }
    }
    chars_to_string(&v)
}

/// A fresh identifier, made from the current time.
fn generate_id() -> (r: String)
    ensures
        is_generated_id(r@),
{
    let nanos = now_nanos();
    format_id(nanos)
}

/// The last digit of a padded hexadecimal text is that of the value's lowest four bits.
proof fn lemma_padded_hex_last(n: nat)
    ensures
        padded_hex(n, 16).len() > 0,
        padded_hex(n, 16).last() == hex_digit(n % 16),
{
    let h = hex_text(n);
    assert(h.len() > 0 && h.last() == hex_digit(n % 16));
    if h.len() < 16 {
        let z = Seq::new((16 - h.len()) as nat, |i: int| '0');
        assert((z + h).last() == h.last());
    }
}

/// Different values below sixteen have different hexadecimal digits.
proof fn lemma_hex_digit_injective(a: nat, b: nat)
    requires
        a < 16,
        b < 16,
        a != b,
    ensures
        hex_digit(a) != hex_digit(b),
{
    assert(hex_digit(a) as int == if a < 10 { 48 + a } else { 87 + a });
    assert(hex_digit(b) as int == if b < 10 { 48 + b } else { 87 + b });
}

/// A fresh identifier, made from the current time, that differs from `other`: where the time
/// gives `other` itself, the time's last hexadecimal digit is moved by one.
fn generate_id_other_than(other: &String) -> (r: String)
    ensures
        is_generated_id(r@),
        r@ != other@,
{
    let nanos = now_nanos();
    let id = format_id(nanos);
    if !(id == *other) {
        return id;
    }
    let moved = if nanos % 16 == 15 {
        nanos - 1
    } else {
        nanos + 1
    };
    proof {
        lemma_padded_hex_last(nanos as nat);
        lemma_padded_hex_last(moved as nat);
        lemma_hex_digit_injective(nanos as nat % 16, moved as nat % 16);
    }
    format_id(moved)
}

/// The context of a span in a trace.
#[derive(Debug, Clone, PartialEq, Eq)]
pub struct SpanContext {
    /// Identifier of the trace.
    pub trace_id: String,
    /// Identifier of the span.
    pub span_id: String,
    /// Identifier of the parent span, if any.
    pub parent_span_id: Option<String>,
    /// Whether the span is sampled.
    pub sampled: bool,
    /// Name of the span.
    pub name: String,
    /// Baggage carried along the trace.
    pub baggage: HashMap<String, String>,
}

impl SpanContext {
    /// A new root span: fresh trace and span identifiers, no parent, sampled, no baggage.
    pub fn new_root(name: &str) -> (r: Self)
        ensures
            is_generated_id(r.trace_id@),
            is_generated_id(r.span_id@),
            r.parent_span_id is None,
            r.sampled,
            r.name@ == name@,
            r.baggage@ == Map::<String, String>::empty(),
    {
        let trace_id = generate_id();
        let span_id = generate_id();
        Self {
            trace_id,
            span_id,
            parent_span_id: None,
            sampled: true,
            name: String::from_str(name),
            baggage: HashMap::new(),
        }
    }

    /// A child span in the same trace: a fresh span identifier, other than this span's, this
    /// span as its parent, the same sampling, and a copy of the baggage.
    pub fn new_child(&self, name: &str) -> (r: Self)
        ensures
            r.trace_id@ == self.trace_id@,
            is_generated_id(r.span_id@),
            r.span_id@ != self.span_id@,
            r.parent_span_id matches Some(p) && p@ == self.span_id@,
            r.sampled == self.sampled,
            r.name@ == name@,
            r.baggage@ == self.baggage@,
    {
        Self {
            trace_id: self.trace_id.clone(),
            span_id: generate_id_other_than(&self.span_id),
            parent_span_id: Some(self.span_id.clone()),
            sampled: self.sampled,
            name: String::from_str(name),
            baggage: self.baggage.clone(),
        }
    }

    /// The span for work done under `parent`: a child of it where there is one, else a new
    /// root span.
    pub fn span_for(parent: &Option<SpanContext>, name: &str) -> (r: Self)
        ensures
            r.name@ == name@,
            is_generated_id(r.span_id@),
            match parent {
                Some(p) => {
                    &&& r.trace_id@ == p.trace_id@
                    &&& r.span_id@ != p.span_id@
                    &&& r.sampled == p.sampled
                    &&& opt_view(r.parent_span_id) == Some(p.span_id@)
                    &&& r.baggage@ == p.baggage@
                },
                None => {
                    &&& is_generated_id(r.trace_id@)
                    &&& r.parent_span_id is None
                    &&& r.sampled
                    &&& r.baggage@ == Map::<String, String>::empty()
                },
            },
    {
        match parent {
            Some(p) => p.new_child(name),
            None => SpanContext::new_root(name),
        }
    }

    /// The same span context with an item of baggage added.
    pub fn with_baggage(self, key: &str, value: &str) -> (r: Self)
        ensures
            r.trace_id == self.trace_id,
            r.span_id == self.span_id,
            r.parent_span_id == self.parent_span_id,
            r.sampled == self.sampled,
            r.name == self.name,
            vstd::std_specs::hash::obeys_key_model::<String>() ==> exists|k: String, v: String|
                k@ == key@ && v@ == value@ && r.baggage@ == self.baggage@.insert(k, v),
    {
        broadcast use vstd::std_specs::hash::group_hash_axioms;

        let mut s = self;
        let k = String::from_str(key);
        let v = String::from_str(value);
        let ghost (gk, gv) = (k, v);
        s.baggage.insert(k, v);
        proof {
            if vstd::std_specs::hash::obeys_key_model::<String>() {
                assert(gk@ == key@ && gv@ == value@ && s.baggage@ == self.baggage@.insert(gk, gv));
            }
        }
        s
    }

    /// The W3C `traceparent` text of this span.
    pub fn to_w3c(&self) -> (r: String)
        ensures
            r@ == w3c_text(self.trace_id@, self.span_id@, self.sampled),
    {
        let mut r = String::from_str("00-");
        r.append(self.trace_id.as_str());
        r.append("-");
        r.append(self.span_id.as_str());
        r.append("-");
        if self.sampled {
            r.append("01");
        } else {
            r.append("00");
        }
        r
    }

    /// The span context that a W3C `traceparent` text describes: its pieces between `-` must
    /// be at least four, the first `00`; the second is the trace identifier, the third the
    /// span identifier, and the fourth the trace flags, whose lowest bit says whether the span
    /// is sampled.
    pub fn from_w3c(traceparent: &str, name: &str) -> (r: Option<Self>)
        ensures
            ({
                let parts = split_char(traceparent@, '-');
                match r {
                    Some(c) => {
                        &&& parts.len() >= 4
                        &&& parts[0] == "00"@
                        &&& c.trace_id@ == parts[1]
                        &&& c.span_id@ == parts[2]
                        &&& c.sampled == flags_sampled(parts[3])
                        &&& c.parent_span_id is None
                        &&& c.name@ == name@
                        &&& c.baggage@ == Map::<String, String>::empty()
                    },
                    None => parts.len() < 4 || parts[0] != "00"@,
                }
            }),
    {
        let chars = str_to_chars(traceparent);
        let parts = split_chars(&chars, '-');
        if parts.len() < 4 {
            return None;
        }
        let version = chars_to_string(&parts[0]);
        if version != String::from_str("00") {
            return None;
        }
        let trace_id = chars_to_string(&parts[1]);
        let span_id = chars_to_string(&parts[2]);
        let flags = &parts[3];
        let sampled = flags.len() > 0 && is_odd_hex_digit(flags[flags.len() - 1]);
        Some(
            Self {
                trace_id,
                span_id,
                parent_span_id: None,
                sampled,
                name: String::from_str(name),
                baggage: HashMap::new(),
            },
        )
    }
}

/// The views of a list of key-value pairs.
pub open spec fn pair_views(v: Seq<(String, String)>) -> Seq<(Seq<char>, Seq<char>)> {
    v.map_values(|p: (String, String)| (p.0@, p.1@))
}

/// The map that a list of key-value pairs builds when each pair is inserted in turn: a later
/// pair replaces an earlier one with the same key.
pub open spec fn pairs_map(pairs: Seq<(Seq<char>, Seq<char>)>) -> Map<Seq<char>, Seq<char>>
    decreases pairs.len(),
{
    if pairs.len() == 0 {
        Map::empty()
    } else {
        pairs_map(pairs.drop_last()).insert(pairs.last().0, pairs.last().1)
    }
}

/// A list of pairs maps a key to the value of the key's last pair.
proof fn lemma_pairs_map_at(pairs: Seq<(Seq<char>, Seq<char>)>, key: Seq<char>, i: int)
    requires
        0 <= i < pairs.len(),
        pairs[i].0 == key,
        forall|j: int| i < j < pairs.len() ==> #[trigger] pairs[j].0 != key,
    ensures
        pairs_map(pairs).contains_key(key),
        pairs_map(pairs)[key] == pairs[i].1,
    decreases pairs.len(),
{
    if i < pairs.len() - 1 {
        let init = pairs.drop_last();
        assert(pairs[pairs.len() - 1].0 != key);
        assert forall|j: int| i < j < init.len() implies #[trigger] init[j].0 != key by {
            assert(init[j] == pairs[j]);
        }
        lemma_pairs_map_at(init, key, i);
    }
}

/// An attribute read after it is set gives the value set, and setting an attribute leaves
/// every other attribute as it was.
pub proof fn lemma_attribute_after_set(
    pairs: Seq<(Seq<char>, Seq<char>)>,
    key: Seq<char>,
    value: Seq<char>,
)
    ensures
        pairs_map(pairs.push((key, value))).contains_key(key),
        pairs_map(pairs.push((key, value)))[key] == value,
        forall|other: Seq<char>|
            other != key ==> (pairs_map(pairs.push((key, value))).contains_key(other)
                == pairs_map(pairs).contains_key(other) && pairs_map(pairs.push((key, value)))[other]
                == pairs_map(pairs)[other]),
{
    assert(pairs.push((key, value)).drop_last() =~= pairs);
}

/// A list of pairs maps no key that none of its pairs has.
proof fn lemma_pairs_map_absent(pairs: Seq<(Seq<char>, Seq<char>)>, key: Seq<char>)
    requires
        forall|j: int| 0 <= j < pairs.len() ==> #[trigger] pairs[j].0 != key,
    ensures
        !pairs_map(pairs).contains_key(key),
    decreases pairs.len(),
{
    if pairs.len() > 0 {
        let init = pairs.drop_last();
        assert(pairs[pairs.len() - 1].0 != key);
        assert forall|j: int| 0 <= j < init.len() implies #[trigger] init[j].0 != key by {
            assert(init[j] == pairs[j]);
        }
        lemma_pairs_map_absent(init, key);
    }
}

/// The pairs that a context's attribute map is built from, in order: its plugin, its request,
/// its span's trace, span and parent span, each where it has one, then its attributes.
pub open spec fn context_pairs(
    plugin_id: Option<Seq<char>>,
    request_id: Option<Seq<char>>,
    span: Option<(Seq<char>, Seq<char>, Option<Seq<char>>)>,
    attributes: Seq<(Seq<char>, Seq<char>)>,
) -> Seq<(Seq<char>, Seq<char>)> {
    let plugin = match plugin_id {
        Some(p) => seq![("plugin_id"@, p)],
        None => Seq::empty(),
    };
    let request = match request_id {
        Some(r) => seq![("request_id"@, r)],
        None => Seq::empty(),
    };
    let spans = match span {
        Some((t, s, parent)) => seq![("trace_id"@, t), ("span_id"@, s)] + match parent {
            Some(p) => seq![("parent_span_id"@, p)],
            None => Seq::empty(),
        },
        None => Seq::empty(),
    };
    plugin + request + spans + attributes
}

/// The text of an optional value.
pub open spec fn opt_view(v: Option<String>) -> Option<Seq<char>> {
    match v {
        Some(s) => Some(s@),
        None => None,
    }
}

/// The trace, span and parent span identifiers of an optional span context.
pub open spec fn span_ids(span: Option<SpanContext>) -> Option<(Seq<char>, Seq<char>, Option<Seq<char>>)> {
    match span {
        Some(c) => Some((c.trace_id@, c.span_id@, opt_view(c.parent_span_id))),
        None => None,
    }
}

fn clone_opt(v: &Option<String>) -> (r: Option<String>)
    ensures
        opt_view(r) == opt_view(*v),
{
    match v {
        Some(s) => Some(s.clone()),
        None => None,
    }
}

fn clone_pairs(v: &Vec<(String, String)>) -> (r: Vec<(String, String)>)
    ensures
        pair_views(r@) == pair_views(v@),
{
    let mut r: Vec<(String, String)> = Vec::new();
    let mut i: usize = 0;
    while i < v.len()
        invariant
            i <= v@.len(),
            r@.len() == i,
            pair_views(r@) == pair_views(v@).take(i as int),
        decreases v@.len() - i,
    {
        let ghost prev = r@;
        r.push((v[i].0.clone(), v[i].1.clone()));
        proof {
            assert(r@ =~= prev.push(r@[i as int]));
            assert(pair_views(r@) =~= pair_views(prev).push((v@[i as int].0@, v@[i as int].1@)));
            assert(pair_views(v@)[i as int] == (v@[i as int].0@, v@[i as int].1@));
        }
        i = i + 1;
        assert(pair_views(r@) =~= pair_views(v@).take(i as int));
    }
    assert(pair_views(v@).take(i as int) =~= pair_views(v@));
    r
}

/// The observability context of a piece of work: its identifier, the plugin and request it
/// belongs to, its span, and attributes whose values are kept as text.
#[derive(Debug, Clone)]
pub struct Context {
    /// Identifier of the context.
    pub id: String,
    /// The plugin, if any.
    pub plugin_id: Option<String>,
    /// The request, if any.
    pub request_id: Option<String>,
    /// The span, if any.
    pub span_context: Option<SpanContext>,
    /// Attributes, their values as text, in the order they were set; a later one replaces
    /// an earlier one with the same key.
    pub attributes: Vec<(String, String)>,
}

impl Context {
    /// The attributes, by key.
    pub open spec fn attribute_map(self) -> Map<Seq<char>, Seq<char>> {
        pairs_map(pair_views(self.attributes@))
    }

    /// The attributes in the order they were set.
    pub open spec fn attribute_pairs(self) -> Seq<(Seq<char>, Seq<char>)> {
        pair_views(self.attributes@)
    }

    /// A fresh context: a new identifier, no plugin, request, span or attribute.
    pub fn new() -> (r: Self)
        ensures
            is_generated_id(r.id@),
            r.plugin_id is None,
            r.request_id is None,
            r.span_context is None,
            r.attribute_pairs() == Seq::<(Seq<char>, Seq<char>)>::empty(),
            r.attribute_map() == Map::<Seq<char>, Seq<char>>::empty(),
    {
        let r = Self {
            id: generate_id(),
            plugin_id: None,
            request_id: None,
            span_context: None,
            attributes: Vec::new(),
        };
        assert(r.attribute_pairs() =~= Seq::<(Seq<char>, Seq<char>)>::empty());
        r
    }

    /// The same context, belonging to a plugin.
    pub fn with_plugin_id(self, plugin_id: &str) -> (r: Self)
        ensures
            r.plugin_id matches Some(p) && p@ == plugin_id@,
            r.id == self.id,
            r.request_id == self.request_id,
            r.span_context == self.span_context,
            r.attribute_pairs() == self.attribute_pairs(),
    {
        let mut c = self;
        c.plugin_id = Some(String::from_str(plugin_id));
        c
    }

    /// The same context, belonging to a request.
    pub fn with_request_id(self, request_id: &str) -> (r: Self)
        ensures
            r.request_id matches Some(q) && q@ == request_id@,
            r.id == self.id,
            r.plugin_id == self.plugin_id,
            r.span_context == self.span_context,
            r.attribute_pairs() == self.attribute_pairs(),
    {
        let mut c = self;
        c.request_id = Some(String::from_str(request_id));
        c
    }

    /// The same context, in a span.
    pub fn with_span_context(self, span_context: SpanContext) -> (r: Self)
        ensures
            r.span_context == Some(span_context),
            r.id == self.id,
            r.plugin_id == self.plugin_id,
            r.request_id == self.request_id,
            r.attribute_pairs() == self.attribute_pairs(),
    {
        let mut c = self;
        c.span_context = Some(span_context);
        c
    }

    /// The same context with an attribute set, whose value is given as text.
    pub fn with_attribute(self, key: &str, value: &str) -> (r: Self)
        ensures
            r.attribute_pairs() == self.attribute_pairs().push((key@, value@)),
            r.attribute_map() == self.attribute_map().insert(key@, value@),
            r.id == self.id,
            r.plugin_id == self.plugin_id,
            r.request_id == self.request_id,
            r.span_context == self.span_context,
    {
        let mut c = self;
        let ghost before = pair_views(c.attributes@);
        c.attributes.push((String::from_str(key), String::from_str(value)));
        proof {
            let after = pair_views(c.attributes@);
            assert(after =~= before.push((key@, value@)));
            assert(after.drop_last() =~= before);
        }
        c
    }

    /// The text of an attribute, if it is set.
    pub fn attribute(&self, key: &str) -> (r: Option<&String>)
        ensures
            match r {
                Some(v) => self.attribute_map().contains_key(key@) && v@ == self.attribute_map()[key@],
                None => !self.attribute_map().contains_key(key@),
            },
    {
        let ghost pairs = pair_views(self.attributes@);
        let target = String::from_str(key);
        let mut i: usize = self.attributes.len();
        while i > 0
            invariant
                i <= self.attributes@.len(),
                target@ == key@,
                pairs == pair_views(self.attributes@),
                forall|j: int| i <= j < pairs.len() ==> #[trigger] pairs[j].0 != key@,
            decreases i,
        {
            i = i - 1;
            if self.attributes[i].0 == target {
                proof {
                    assert(pairs[i as int] == (self.attributes@[i as int].0@,
                        self.attributes@[i as int].1@));
                    assert(pairs[i as int].0 == key@);
                    lemma_pairs_map_at(pairs, key@, i as int);
                }
                return Some(&self.attributes[i].1);
            }
        }
        proof {
            lemma_pairs_map_absent(pairs, key@);
        }
        None
    }

    /// A copy of this context in a new span: a child of its span where it has one, else a new
    /// root span.
    pub fn create_child_span(&self, name: &str) -> (r: Self)
        ensures
            r.id@ == self.id@,
            opt_view(r.plugin_id) == opt_view(self.plugin_id),
            opt_view(r.request_id) == opt_view(self.request_id),
            r.attribute_pairs() == self.attribute_pairs(),
            r.span_context is Some,
            ({
                let c = r.span_context->Some_0;
                &&& c.name@ == name@
                &&& is_generated_id(c.span_id@)
                &&& match self.span_context {
                    Some(p) => {
                        &&& c.trace_id@ == p.trace_id@
                        &&& c.span_id@ != p.span_id@
                        &&& c.sampled == p.sampled
                        &&& opt_view(c.parent_span_id) == Some(p.span_id@)
                        &&& c.baggage@ == p.baggage@
                    },
                    None => {
                        &&& is_generated_id(c.trace_id@)
                        &&& c.parent_span_id is None
                        &&& c.sampled
                        &&& c.baggage@ == Map::<String, String>::empty()
                    },
                }
            }),
    {
        let span = SpanContext::span_for(&self.span_context, name);
        Self {
            id: self.id.clone(),
            plugin_id: clone_opt(&self.plugin_id),
            request_id: clone_opt(&self.request_id),
            span_context: Some(span),
            attributes: clone_pairs(&self.attributes),
        }
    }

    /// The pairs of the context's attribute map, in the order in which they are inserted; a
    /// later pair replaces an earlier one with the same key.
    pub fn to_attribute_map(&self) -> (r: Vec<(String, String)>)
        ensures
            pair_views(r@) == context_pairs(
                opt_view(self.plugin_id),
                opt_view(self.request_id),
                span_ids(self.span_context),
                self.attribute_pairs(),
            ),
    {
        let mut r: Vec<(String, String)> = Vec::new();
        let ghost start = pair_views(r@);
        if let Some(p) = &self.plugin_id {
            r.push((String::from_str("plugin_id"), p.clone()));
        }
        let ghost after_plugin = pair_views(r@);
        if let Some(q) = &self.request_id {
            r.push((String::from_str("request_id"), q.clone()));
        }
        let ghost after_request = pair_views(r@);
        if let Some(c) = &self.span_context {
            r.push((String::from_str("trace_id"), c.trace_id.clone()));
            r.push((String::from_str("span_id"), c.span_id.clone()));
            if let Some(parent) = &c.parent_span_id {
                r.push((String::from_str("parent_span_id"), parent.clone()));
            }
        }
        let ghost fixed = pair_views(r@);
        let mut i: usize = 0;
        while i < self.attributes.len()
            invariant
                i <= self.attributes@.len(),
                pair_views(r@) == fixed + pair_views(self.attributes@).take(i as int),
            decreases self.attributes@.len() - i,
        {
            let ghost prev = r@;
            r.push((self.attributes[i].0.clone(), self.attributes[i].1.clone()));
            proof {
                let a = self.attributes@[i as int];
                assert(r@ =~= prev.push(r@[prev.len() as int]));
                assert(pair_views(r@) =~= pair_views(prev).push((a.0@, a.1@)));
                assert(pair_views(self.attributes@)[i as int] == (a.0@, a.1@));
            }
            i = i + 1;
            assert(pair_views(r@) =~= fixed + pair_views(self.attributes@).take(i as int));
        }
        proof {
            assert(pair_views(self.attributes@).take(i as int) =~= pair_views(self.attributes@));
            let plugin = match opt_view(self.plugin_id) {
                Some(p) => seq![("plugin_id"@, p)],
                None => Seq::empty(),
            };
            let request = match opt_view(self.request_id) {
                Some(q) => seq![("request_id"@, q)],
                None => Seq::empty(),
            };
            let spans = match span_ids(self.span_context) {
                Some((t, s, parent)) => seq![("trace_id"@, t), ("span_id"@, s)] + match parent {
                    Some(p) => seq![("parent_span_id"@, p)],
                    None => Seq::empty(),
                },
                None => Seq::empty(),
            };
            assert(after_plugin =~= plugin);
            assert(after_request =~= plugin + request);
            assert(fixed =~= plugin + request + spans);
        }
        r
    }

    /// The W3C `traceparent` text of the context's span, if it has one.
    pub fn to_trace_context(&self) -> (r: Option<String>)
        ensures
            match self.span_context {
                Some(c) => r matches Some(t) && t@ == w3c_text(c.trace_id@, c.span_id@, c.sampled),
                None => r is None,
            },
    {
        match &self.span_context {
            Some(c) => Some(c.to_w3c()),
            None => None,
        }
    }

    /// A fresh context in the span that a W3C `traceparent` text describes, or in no span
    /// where the text describes none.
    pub fn from_trace_context(traceparent: &str, name: &str) -> (r: Self)
        ensures
            is_generated_id(r.id@),
            r.plugin_id is None,
            r.request_id is None,
            r.attribute_pairs() == Seq::<(Seq<char>, Seq<char>)>::empty(),
            ({
                let parts = split_char(traceparent@, '-');
                match r.span_context {
                    Some(c) => {
                        &&& parts.len() >= 4
                        &&& parts[0] == "00"@
                        &&& c.trace_id@ == parts[1]
                        &&& c.span_id@ == parts[2]
                        &&& c.sampled == flags_sampled(parts[3])
                        &&& c.parent_span_id is None
                        &&& c.name@ == name@
                    },
                    None => parts.len() < 4 || parts[0] != "00"@,
                }
            }),
    {
        let mut context = Self::new();
        if let Some(span) = SpanContext::from_w3c(traceparent, name) {
            context.span_context = Some(span);
        }
        context
    }
}

impl Default for Context {
    /// A fresh context: a new identifier, no plugin, request, span or attribute.
    fn default() -> (r: Self)
        ensures
            is_generated_id(r.id@),
            r.plugin_id is None,
            r.request_id is None,
            r.span_context is None,
            r.attribute_pairs() == Seq::<(Seq<char>, Seq<char>)>::empty(),
    {
        Self::new()
    }
}

/// Splitting `a`, a separator and `b` gives the pieces of `a` and then those of `b`.
pub proof fn lemma_split_join(a: Seq<char>, sep: char, b: Seq<char>)
    ensures
        split_char(a + seq![sep] + b, sep) == split_char(a, sep) + split_char(b, sep),
    decreases b.len(),
{
    let s = a + seq![sep] + b;
    crate::text::lemma_split_char_len(b, sep);
    if b.len() == 0 {
        assert(s.drop_last() =~= a);
        assert(s.last() == sep);
        assert(split_char(b, sep) =~= seq![Seq::<char>::empty()]);
        assert(split_char(s, sep) =~= split_char(a, sep) + split_char(b, sep));
    } else {
        lemma_split_join(a, sep, b.drop_last());
        assert(s.drop_last() =~= a + seq![sep] + b.drop_last());
        assert(s.last() == b.last());
        crate::text::lemma_split_char_len(b.drop_last(), sep);
        let ra = split_char(a, sep);
        let rb = split_char(b.drop_last(), sep);
        if b.last() == sep {
            assert(split_char(s, sep) =~= (ra + rb).push(Seq::<char>::empty()));
            assert((ra + rb).push(Seq::<char>::empty()) =~= ra + rb.push(Seq::<char>::empty()));
        } else {
            let r = ra + rb;
            assert(r.last() == rb.last());
            assert(r.update(r.len() - 1, r.last().push(b.last())) =~= ra + rb.update(
                rb.len() - 1,
                rb.last().push(b.last()),
            ));
        }
    }
}

/// The digits of a hexadecimal text are no `-`.
proof fn lemma_hex_no_dash(n: nat)
    ensures
        !hex_text(n).contains('-'),
    decreases n,
{
    if n < 16 {
        assert(hex_text(n) =~= seq![hex_digit(n)]);
    } else {
        lemma_hex_no_dash(n / 16);
        let h = hex_text(n);
        assert(h =~= hex_text(n / 16).push(hex_digit(n % 16)));
        if h.contains('-') {
            let k = choose|k: int| 0 <= k < h.len() && h[k] == '-';
            if k < h.len() - 1 {
                assert(hex_text(n / 16)[k] == '-');
            }
        }
    }
}

/// A generated identifier holds no `-`.
pub proof fn lemma_generated_id_no_dash(s: Seq<char>)
    requires
        is_generated_id(s),
    ensures
        !s.contains('-'),
{
    let n = choose|n: u128| s == padded_hex(n as nat, 16);
    lemma_hex_no_dash(n as nat);
    let h = hex_text(n as nat);
    if h.len() < 16 {
        let z = Seq::new((16 - h.len()) as nat, |i: int| '0');
        if s.contains('-') {
            let k = choose|k: int| 0 <= k < s.len() && s[k] == '-';
            if k >= z.len() {
                assert(h[k - z.len()] == '-');
            }
        }
    }
}

/// Reading back the `traceparent` of a span whose identifiers hold no `-` gives the same
/// trace and span identifiers and the same sampling decision.
pub proof fn lemma_w3c_round_trip(trace_id: Seq<char>, span_id: Seq<char>, sampled: bool)
    requires
        !trace_id.contains('-'),
        !span_id.contains('-'),
    ensures
        ({
            let parts = split_char(w3c_text(trace_id, span_id, sampled), '-');
            &&& parts.len() == 4
            &&& parts[0] == "00"@
            &&& parts[1] == trace_id
            &&& parts[2] == span_id
            &&& flags_sampled(parts[3]) == sampled
        }),
{
    reveal_strlit("00-");
    reveal_strlit("-");
    reveal_strlit("01");
    reveal_strlit("00");
    let flags: Seq<char> = if sampled {
        "01"@
    } else {
        "00"@
    };
    let v: Seq<char> = seq!['0', '0'];
    assert("00-"@ =~= v + seq!['-']);
    assert(!v.contains('-')) by {
        if v.contains('-') {
            let k = choose|k: int| 0 <= k < v.len() && v[k] == '-';
        }
    }
    assert(!flags.contains('-')) by {
        if flags.contains('-') {
            let k = choose|k: int| 0 <= k < flags.len() && flags[k] == '-';
        }
    }
    let t = w3c_text(trace_id, span_id, sampled);
    assert(t =~= v + seq!['-'] + (trace_id + seq!['-'] + (span_id + seq!['-'] + flags)));
    assert(span_id + seq!['-'] + flags =~= span_id + seq!['-'] + flags);
    lemma_split_join(v, '-', trace_id + seq!['-'] + (span_id + seq!['-'] + flags));
    lemma_split_join(trace_id, '-', span_id + seq!['-'] + flags);
    lemma_split_join(span_id, '-', flags);
    lemma_split_no_sep(v, '-');
    lemma_split_no_sep(trace_id, '-');
    lemma_split_no_sep(span_id, '-');
    lemma_split_no_sep(flags, '-');
    let parts = split_char(t, '-');
    assert(parts =~= seq![v, trace_id, span_id, flags]);
    assert(v =~= "00"@);
    assert(flags.len() == 2);
}

} // verus!
