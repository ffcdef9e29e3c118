//! The union of decoded queueing disciplines, dispatch by `kind`, and
//! decoding of whole batches.

use vstd::prelude::*;
use crate::fq_codel::{
    DecodeError, TcFqCodel, TcFqCodelOptions, spec_decode_fq_codel, spec_decode_options,
    handle_field, counter, opt_count, options_of, options_valid, low16, low32, read_handle,
};
use crate::tc_handle::TcHandle;
use crate::text::str_eq;
use crate::wire::{WireMap, WireScalar, WireValue, find_field, lookup};

verus! {

/// A qdisc whose kind has no decoder; kept for diagnostics.
#[derive(Clone, Debug, PartialEq, Eq)]
pub struct UnrecognizedQdisc {
    pub handle: TcHandle,
    pub parent: TcHandle,
    /// The `kind` string as written, or empty where there was none.
    pub kind: String,
}

/// One decoded snapshot entry.
#[derive(Clone, Debug, PartialEq, Eq)]
pub enum QueueDiscipline {
    FqCodel(TcFqCodel),
    Unrecognized(UnrecognizedQdisc),
}

/// The mathematical value of a [`QueueDiscipline`].
pub ghost enum DisciplineView {
    FqCodel(TcFqCodel),
    Unrecognized { handle: TcHandle, parent: TcHandle, kind: Seq<char> },
}

impl View for QueueDiscipline {
    type V = DisciplineView;

    open spec fn view(&self) -> DisciplineView {
        match self {
            QueueDiscipline::FqCodel(q) => DisciplineView::FqCodel(*q),
            QueueDiscipline::Unrecognized(u) => DisciplineView::Unrecognized {
                handle: u.handle,
                parent: u.parent,
                kind: u.kind@,
            },
        }
    }
}

pub open spec fn result_view(r: Result<QueueDiscipline, DecodeError>) -> Result<DisciplineView, DecodeError> {
    match r {
        Ok(q) => Ok(q@),
        Err(e) => Err(e),
    }
}

/// The `kind` string of an entry, empty where it is missing or not a string.
pub open spec fn kind_of(m: Seq<(String, WireValue)>) -> Seq<char> {
    match lookup(m, "kind"@) {
        Some(WireValue::Text(s)) => s@,
        _ => Seq::empty(),
    }
}

/// What one entry decodes to: `fq_codel` entries by their decoder, every
/// other kind to the unrecognized variant. Every kind needs valid handles.
pub open spec fn spec_decode_entry(m: Seq<(String, WireValue)>) -> Result<DisciplineView, DecodeError> {
    if kind_of(m) == "fq_codel"@ {
        match spec_decode_fq_codel(m) {
            Ok(q) => Ok(DisciplineView::FqCodel(q)),
            Err(e) => Err(e),
        }
    } else if handle_field(m, "handle"@).is_none() || handle_field(m, "parent"@).is_none() {
        Err(DecodeError::InvalidHandle)
    } else {
        Ok(DisciplineView::Unrecognized {
            handle: handle_field(m, "handle"@).unwrap(),
            parent: handle_field(m, "parent"@).unwrap(),
            kind: kind_of(m),
        })
    }
}

pub open spec fn spec_decode_batch(b: Seq<WireMap>) -> Seq<Result<DisciplineView, DecodeError>> {
    b.map_values(|m: WireMap| spec_decode_entry(m@))
}

/// The names of the fields that any decoder reads at the top level of an entry.
pub open spec fn known_key(k: Seq<char>) -> bool {
    ||| k == "kind"@
    ||| k == "handle"@
    ||| k == "parent"@
    ||| k == "options"@
    ||| k == "bytes"@
    ||| k == "packets"@
    ||| k == "drops"@
    ||| k == "overlimits"@
    ||| k == "requeues"@
    ||| k == "backlog"@
    ||| k == "qlen"@
    ||| k == "maxpacket"@
    ||| k == "drop_overlimit"@
    ||| k == "new_flow_count"@
    ||| k == "ecn_mark"@
    ||| k == "new_flows_len"@
    ||| k == "old_flows_len"@
}

/// The names of the fields read inside `options`.
pub open spec fn known_option_key(k: Seq<char>) -> bool {
    ||| k == "limit"@
    ||| k == "flows"@
    ||| k == "quantum"@
    ||| k == "target"@
    ||| k == "interval"@
    ||| k == "memory_limit"@
    ||| k == "ecn"@
    ||| k == "drop_batch"@
}

impl QueueDiscipline {
    /// Decodes one snapshot entry, dispatching on its `kind`.
    pub fn from_json(m: &WireMap) -> (r: Result<QueueDiscipline, DecodeError>)
        ensures
            result_view(r) == spec_decode_entry(m@),
    {
        let kind = match find_field(m, "kind") {
            Some(i) => match &m[i].1 {
                WireValue::Text(s) => s.clone(),
                _ => String::new(),
            },
            None => String::new(),
        };
        if str_eq(kind.as_str(), "fq_codel") {
            match TcFqCodel::from_json(m) {
                Ok(q) => Ok(QueueDiscipline::FqCodel(q)),
                Err(e) => Err(e),
            }
        } else {
            match (read_handle(m, "handle"), read_handle(m, "parent")) {
                (Some(handle), Some(parent)) => Ok(
                    QueueDiscipline::Unrecognized(UnrecognizedQdisc { handle, parent, kind }),
                ),
                _ => Err(DecodeError::InvalidHandle),
            }
        }
    }
}

/// Decodes each entry of a batch on its own: a failure stays with its entry.
pub fn decode_batch(b: &Vec<WireMap>) -> (r: Vec<Result<QueueDiscipline, DecodeError>>)
    ensures
        r@.len() == b@.len(),
        forall|i: int| 0 <= i < b@.len() ==> result_view(#[trigger] r@[i]) == spec_decode_batch(b@)[i],
{
    let mut r: Vec<Result<QueueDiscipline, DecodeError>> = Vec::new();
    let mut i: usize = 0;
    while i < b.len()
        invariant
            i <= b@.len(),
            r@.len() == i,
            forall|j: int| 0 <= j < i ==> result_view(#[trigger] r@[j]) == spec_decode_entry(b@[j]@),
        decreases b@.len() - i,
    {
        r.push(QueueDiscipline::from_json(&b[i]));
        i = i + 1;
    }
    r
}

/// Whether `k` is a field name that the decoders read: at the top level of
/// an entry, or inside `options` where `nested`.
pub open spec fn known_field(k: Seq<char>, nested: bool) -> bool {
    if nested {
        known_option_key(k)
    } else {
        known_key(k)
    }
}

fn is_known_field(k: &str, nested: bool) -> (r: bool)
    ensures
        r == known_field(k@, nested),
{
    if nested {
        str_eq(k, "limit") || str_eq(k, "flows") || str_eq(k, "quantum") || str_eq(k, "target")
            || str_eq(k, "interval") || str_eq(k, "memory_limit") || str_eq(k, "ecn")
            || str_eq(k, "drop_batch")
    } else {
        str_eq(k, "kind") || str_eq(k, "handle") || str_eq(k, "parent") || str_eq(k, "options")
            || str_eq(k, "bytes") || str_eq(k, "packets") || str_eq(k, "drops")
            || str_eq(k, "overlimits") || str_eq(k, "requeues") || str_eq(k, "backlog")
            || str_eq(k, "qlen") || str_eq(k, "maxpacket") || str_eq(k, "drop_overlimit")
            || str_eq(k, "new_flow_count") || str_eq(k, "ecn_mark") || str_eq(k, "new_flows_len")
            || str_eq(k, "old_flows_len")
    }
}

/// The field names of `m` that no decoder reads (of an `options` object
/// where `nested`), in the order in which they occur; these are ignored by
/// decoding and may be logged by the caller.
pub fn unknown_fields<V>(m: &Vec<(String, V)>, nested: bool) -> (names: Vec<String>)
    ensures
        forall|i: int| 0 <= i < names@.len() ==> !known_field((#[trigger] names@[i])@, nested)
            && exists|j: int| 0 <= j < m@.len() && (#[trigger] m@[j]).0@ == names@[i]@,
        forall|j: int| 0 <= j < m@.len() && !known_field((#[trigger] m@[j]).0@, nested)
            ==> exists|i: int| 0 <= i < names@.len() && (#[trigger] names@[i])@ == m@[j].0@,
{
    let mut r: Vec<String> = Vec::new();
    let mut k: usize = 0;
    while k < m.len()
        invariant
            k <= m@.len(),
            forall|i: int| 0 <= i < r@.len() ==> !known_field((#[trigger] r@[i])@, nested)
                && exists|j: int| 0 <= j < m@.len() && (#[trigger] m@[j]).0@ == r@[i]@,
            forall|j: int| 0 <= j < k && !known_field((#[trigger] m@[j]).0@, nested)
                ==> exists|i: int| 0 <= i < r@.len() && (#[trigger] r@[i])@ == m@[j].0@,
        decreases m@.len() - k,
    {
        let ghost prev = r@;
        if !is_known_field(m[k].0.as_str(), nested) {
            let name = m[k].0.clone();
            r.push(name);
            assert(r@[r@.len() - 1]@ == m@[k as int].0@);
            assert forall|i: int| 0 <= i < r@.len() implies !known_field((#[trigger] r@[i])@, nested)
                && exists|j: int| 0 <= j < m@.len() && (#[trigger] m@[j]).0@ == r@[i]@ by {
                if i < prev.len() {
                    assert(r@[i] == prev[i]);
                } else {
                    assert(m@[k as int].0@ == r@[i]@);
                }
            }
        }
        assert forall|j: int| 0 <= j < k + 1 && !known_field((#[trigger] m@[j]).0@, nested)
            implies exists|i: int| 0 <= i < r@.len() && (#[trigger] r@[i])@ == m@[j].0@ by {
            if j < k {
                let i = choose|i: int| 0 <= i < prev.len() && (#[trigger] prev[i])@ == m@[j].0@;
                assert(r@[i] == prev[i]);
            } else {
                assert(r@[r@.len() - 1]@ == m@[j].0@);
            }
        }
        k = k + 1;
    }
    assert forall|i: int| 0 <= i < r@.len() implies !known_field((#[trigger] r@[i])@, nested)
        && exists|j: int| 0 <= j < m@.len() && (#[trigger] m@[j]).0@ == r@[i]@ by {
        let j = choose|j: int| 0 <= j < m@.len() && (#[trigger] m@[j]).0@ == r@[i]@;
        assert(m@[j].0@ == r@[i]@);
    }
    r
}

proof fn lemma_lookup_insert<V>(m: Seq<(String, V)>, i: int, k: String, v: V, key: Seq<char>)
    requires
        0 <= i <= m.len(),
        k@ != key,
    ensures
        lookup(m.insert(i, (k, v)), key) == lookup(m, key),
    decreases m.len(),
{
    let n = m.insert(i, (k, v));
    if i == m.len() {
        assert(n.drop_last() =~= m);
    } else {
        assert(n.last() == m.last());
        assert(n.drop_last() =~= m.drop_last().insert(i, (k, v)));
        lemma_lookup_insert(m.drop_last(), i, k, v, key);
    }
}

/// A field whose name no decoder reads, inserted anywhere into an entry,
/// changes neither the decoded result nor whether decoding fails.
pub proof fn lemma_unknown_field_ignored(m: Seq<(String, WireValue)>, i: int, k: String, v: WireValue)
    requires
        0 <= i <= m.len(),
        !known_key(k@),
    ensures
        spec_decode_entry(m.insert(i, (k, v))) == spec_decode_entry(m),
{
    lemma_lookup_insert(m, i, k, v, "kind"@);
    lemma_lookup_insert(m, i, k, v, "handle"@);
    lemma_lookup_insert(m, i, k, v, "parent"@);
    lemma_lookup_insert(m, i, k, v, "options"@);
    lemma_lookup_insert(m, i, k, v, "bytes"@);
    lemma_lookup_insert(m, i, k, v, "packets"@);
    lemma_lookup_insert(m, i, k, v, "drops"@);
    lemma_lookup_insert(m, i, k, v, "overlimits"@);
    lemma_lookup_insert(m, i, k, v, "requeues"@);
    lemma_lookup_insert(m, i, k, v, "backlog"@);
    lemma_lookup_insert(m, i, k, v, "qlen"@);
    lemma_lookup_insert(m, i, k, v, "maxpacket"@);
    lemma_lookup_insert(m, i, k, v, "drop_overlimit"@);
    lemma_lookup_insert(m, i, k, v, "new_flow_count"@);
    lemma_lookup_insert(m, i, k, v, "ecn_mark"@);
    lemma_lookup_insert(m, i, k, v, "new_flows_len"@);
    lemma_lookup_insert(m, i, k, v, "old_flows_len"@);
}

/// A field whose name the options decoder does not read, inserted anywhere
/// into `options`, changes neither the decoded options nor whether decoding fails.
pub proof fn lemma_unknown_option_ignored(o: Vec<(String, WireScalar)>, o2: Vec<(String, WireScalar)>, i: int, k: String, v: WireScalar)
    requires
        0 <= i <= o@.len(),
        o2@ == o@.insert(i, (k, v)),
        !known_option_key(k@),
    ensures
        spec_decode_options(Some(WireValue::Object(o2))) == spec_decode_options(Some(WireValue::Object(o))),
{
    lemma_lookup_insert(o@, i, k, v, "limit"@);
    lemma_lookup_insert(o@, i, k, v, "flows"@);
    lemma_lookup_insert(o@, i, k, v, "quantum"@);
    lemma_lookup_insert(o@, i, k, v, "target"@);
    lemma_lookup_insert(o@, i, k, v, "interval"@);
    lemma_lookup_insert(o@, i, k, v, "memory_limit"@);
    lemma_lookup_insert(o@, i, k, v, "ecn"@);
    lemma_lookup_insert(o@, i, k, v, "drop_batch"@);
}

/// An entry of an unrecognized kind with valid handles decodes to the
/// fallback variant, and every other entry of the batch decodes exactly as
/// it would alone.
pub proof fn lemma_unrecognized_kind_isolated(b: Seq<WireMap>, i: int)
    requires
        0 <= i < b.len(),
        kind_of(b[i]@) != "fq_codel"@,
        handle_field(b[i]@, "handle"@).is_some(),
        handle_field(b[i]@, "parent"@).is_some(),
    ensures
        spec_decode_batch(b)[i] == Ok::<DisciplineView, DecodeError>(DisciplineView::Unrecognized {
            handle: handle_field(b[i]@, "handle"@).unwrap(),
            parent: handle_field(b[i]@, "parent"@).unwrap(),
            kind: kind_of(b[i]@),
        }),
        forall|j: int| 0 <= j < b.len() ==> #[trigger] spec_decode_batch(b)[j] == spec_decode_entry(b[j]@),
{
}

/// Decoding keeps every field as written, cut to the width of the field
/// that holds it: the counters and options read back from a decoded record
/// equal those of the entry modulo 2 to the power of the field's width.
pub proof fn lemma_decode_keeps_fields(m: Seq<(String, WireValue)>)
    requires
        spec_decode_fq_codel(m) is Ok,
    ensures
        ({
            let q = spec_decode_fq_codel(m)->Ok_0;
            &&& Some(q.handle) == handle_field(m, "handle"@)
            &&& Some(q.parent) == handle_field(m, "parent"@)
            &&& q.bytes == counter(m, "bytes"@)
            &&& q.packets == counter(m, "packets"@) % 0x1_0000_0000
            &&& q.drops == counter(m, "drops"@) % 0x1_0000_0000
            &&& q.overlimits == counter(m, "overlimits"@) % 0x1_0000_0000
            &&& q.requeues == counter(m, "requeues"@) % 0x1_0000_0000
            &&& q.backlog == counter(m, "backlog"@) % 0x1_0000_0000
            &&& q.qlen == counter(m, "qlen"@) % 0x1_0000_0000
            &&& q.maxpacket == counter(m, "maxpacket"@) % 0x1_0000
            &&& q.drop_overlimit == counter(m, "drop_overlimit"@) % 0x1_0000_0000
            &&& q.new_flow_count == counter(m, "new_flow_count"@) % 0x1_0000_0000
            &&& q.ecn_mark == counter(m, "ecn_mark"@) % 0x1_0000_0000
            &&& q.new_flows_len == counter(m, "new_flows_len"@) % 0x1_0000
            &&& q.old_flows_len == counter(m, "old_flows_len"@) % 0x1_0000
            &&& match lookup(m, "options"@) {
                Some(WireValue::Object(o)) => {
                    &&& q.options.limit == opt_count(o@, "limit"@) % 0x1_0000_0000
                    &&& q.options.flows == opt_count(o@, "flows"@) % 0x1_0000
                    &&& q.options.quantum == opt_count(o@, "quantum"@) % 0x1_0000
                    &&& q.options.target == opt_count(o@, "target"@)
                    &&& q.options.interval == opt_count(o@, "interval"@)
                    &&& q.options.memory_limit == opt_count(o@, "memory_limit"@) % 0x1_0000_0000
                    &&& q.options.drop_batch == opt_count(o@, "drop_batch"@) % 0x1_0000
                },
                _ => true,
            }
        }),
{
}

} // verus!
