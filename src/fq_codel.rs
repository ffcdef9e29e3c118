//! Decoding of `fq_codel` snapshot entries.

use vstd::prelude::*;
use crate::tc_handle::{TcHandle, parse_tc_handle};
use crate::wire::{WireMap, WireScalar, WireValue, find_field, lookup};

verus! {

/// Why a snapshot entry could not be decoded.
#[derive(Clone, Copy, Debug, PartialEq, Eq, Structural)]
pub enum DecodeError {
    /// `handle` or `parent` is missing, not a string, or not a valid handle.
    InvalidHandle,
    /// `options` is present but is not an object.
    InvalidOptionsShape,
    /// A known counter or option holds a value of the wrong type.
    InvalidValue,
}

/// The options block of an `fq_codel` qdisc.
#[derive(Clone, Copy, Debug, PartialEq, Eq, Structural)]
pub struct TcFqCodelOptions {
    pub limit: u32,
    pub flows: u16,
    pub quantum: u16,
    /// In the time scale that the producer writes, unconverted.
    pub target: u64,
    /// In the time scale that the producer writes, unconverted.
    pub interval: u64,
    pub memory_limit: u32,
    pub ecn: bool,
    pub drop_batch: u16,
}

/// The statistics of one `fq_codel` qdisc.
#[derive(Clone, Copy, Debug, PartialEq, Eq, Structural)]
pub struct TcFqCodel {
    pub handle: TcHandle,
    pub parent: TcHandle,
    pub options: TcFqCodelOptions,
    pub bytes: u64,
    pub packets: u32,
    pub drops: u32,
    pub overlimits: u32,
    pub requeues: u32,
    pub backlog: u32,
    pub qlen: u32,
    pub maxpacket: u16,
    pub drop_overlimit: u32,
    pub new_flow_count: u32,
    pub ecn_mark: u32,
    pub new_flows_len: u16,
    pub old_flows_len: u16,
}

/// `n` cut to its low 32 bits.
pub open spec fn low32(n: u64) -> u32 {
    (n % 0x1_0000_0000) as u32
}

/// `n` cut to its low 16 bits.
pub open spec fn low16(n: u64) -> u16 {
    (n % 0x1_0000) as u16
}

/// A counter field may be absent (zero) or an unsigned integer.
pub open spec fn valid_count(v: Option<WireValue>) -> bool {
    match v {
        None => true,
        Some(WireValue::Unsigned(_)) => true,
        _ => false,
    }
}

pub open spec fn count_of(v: Option<WireValue>) -> u64 {
    match v {
        Some(WireValue::Unsigned(n)) => n,
        _ => 0,
    }
}

pub open spec fn valid_scalar_count(v: Option<WireScalar>) -> bool {
    match v {
        None => true,
        Some(WireScalar::Unsigned(_)) => true,
        _ => false,
    }
}

pub open spec fn scalar_count_of(v: Option<WireScalar>) -> u64 {
    match v {
        Some(WireScalar::Unsigned(n)) => n,
        _ => 0,
    }
}

pub open spec fn valid_scalar_flag(v: Option<WireScalar>) -> bool {
    match v {
        None => true,
        Some(WireScalar::Bool(_)) => true,
        _ => false,
    }
}

pub open spec fn scalar_flag_of(v: Option<WireScalar>) -> bool {
    match v {
        Some(WireScalar::Bool(b)) => b,
        _ => false,
    }
}

/// The handle in a required handle field.
pub open spec fn handle_field(m: Seq<(String, WireValue)>, key: Seq<char>) -> Option<TcHandle> {
    match lookup(m, key) {
        Some(WireValue::Text(s)) => parse_tc_handle(s@),
        _ => None,
    }
}

pub open spec fn counter(m: Seq<(String, WireValue)>, key: Seq<char>) -> u64 {
    count_of(lookup(m, key))
}

pub open spec fn opt_count(o: Seq<(String, WireScalar)>, key: Seq<char>) -> u64 {
    scalar_count_of(lookup(o, key))
}

/// The counter fields of an `fq_codel` entry, all of which hold valid values.
pub open spec fn counters_valid(m: Seq<(String, WireValue)>) -> bool {
    &&& valid_count(lookup(m, "bytes"@))
    &&& valid_count(lookup(m, "packets"@))
    &&& valid_count(lookup(m, "drops"@))
    &&& valid_count(lookup(m, "overlimits"@))
    &&& valid_count(lookup(m, "requeues"@))
    &&& valid_count(lookup(m, "backlog"@))
    &&& valid_count(lookup(m, "qlen"@))
    &&& valid_count(lookup(m, "maxpacket"@))
    &&& valid_count(lookup(m, "drop_overlimit"@))
    &&& valid_count(lookup(m, "new_flow_count"@))
    &&& valid_count(lookup(m, "ecn_mark"@))
    &&& valid_count(lookup(m, "new_flows_len"@))
    &&& valid_count(lookup(m, "old_flows_len"@))
}

pub open spec fn options_valid(o: Seq<(String, WireScalar)>) -> bool {
    &&& valid_scalar_count(lookup(o, "limit"@))
    &&& valid_scalar_count(lookup(o, "flows"@))
    &&& valid_scalar_count(lookup(o, "quantum"@))
    &&& valid_scalar_count(lookup(o, "target"@))
    &&& valid_scalar_count(lookup(o, "interval"@))
    &&& valid_scalar_count(lookup(o, "memory_limit"@))
    &&& valid_scalar_flag(lookup(o, "ecn"@))
    &&& valid_scalar_count(lookup(o, "drop_batch"@))
}

/// The options block that the fields `o` describe; absent fields are zero or false.
pub open spec fn options_of(o: Seq<(String, WireScalar)>) -> TcFqCodelOptions {
    TcFqCodelOptions {
        limit: low32(opt_count(o, "limit"@)),
        flows: low16(opt_count(o, "flows"@)),
        quantum: low16(opt_count(o, "quantum"@)),
        target: opt_count(o, "target"@),
        interval: opt_count(o, "interval"@),
        memory_limit: low32(opt_count(o, "memory_limit"@)),
        ecn: scalar_flag_of(lookup(o, "ecn"@)),
        drop_batch: low16(opt_count(o, "drop_batch"@)),
    }
}

pub open spec fn default_options() -> TcFqCodelOptions {
    TcFqCodelOptions {
        limit: 0,
        flows: 0,
        quantum: 0,
        target: 0,
        interval: 0,
        memory_limit: 0,
        ecn: false,
        drop_batch: 0,
    }
}

/// The decoded `options` field of an entry.
pub open spec fn spec_decode_options(v: Option<WireValue>) -> Result<TcFqCodelOptions, DecodeError> {
    match v {
        None => Ok(default_options()),
        Some(WireValue::Object(o)) => if options_valid(o@) {
            Ok(options_of(o@))
        } else {
            Err(DecodeError::InvalidValue)
        },
        Some(_) => Err(DecodeError::InvalidOptionsShape),
    }
}

/// What an `fq_codel` entry decodes to. The handles are checked first, then
/// the options, then the counters. Counters wider than their field keep
/// their low bits; `target` and `interval` are kept as written.
pub open spec fn spec_decode_fq_codel(m: Seq<(String, WireValue)>) -> Result<TcFqCodel, DecodeError> {
    let options = spec_decode_options(lookup(m, "options"@));
    if handle_field(m, "handle"@).is_none() || handle_field(m, "parent"@).is_none() {
        Err(DecodeError::InvalidHandle)
    } else if options is Err {
        Err(options->Err_0)
    } else if !counters_valid(m) {
        Err(DecodeError::InvalidValue)
    } else {
        Ok(TcFqCodel {
            handle: handle_field(m, "handle"@).unwrap(),
            parent: handle_field(m, "parent"@).unwrap(),
            options: options.unwrap(),
            bytes: counter(m, "bytes"@),
            packets: low32(counter(m, "packets"@)),
            drops: low32(counter(m, "drops"@)),
            overlimits: low32(counter(m, "overlimits"@)),
            requeues: low32(counter(m, "requeues"@)),
            backlog: low32(counter(m, "backlog"@)),
            qlen: low32(counter(m, "qlen"@)),
            maxpacket: low16(counter(m, "maxpacket"@)),
            drop_overlimit: low32(counter(m, "drop_overlimit"@)),
            new_flow_count: low32(counter(m, "new_flow_count"@)),
            ecn_mark: low32(counter(m, "ecn_mark"@)),
            new_flows_len: low16(counter(m, "new_flows_len"@)),
            old_flows_len: low16(counter(m, "old_flows_len"@)),
        })
    }
}

/// Reads an optional counter of the entry.
pub fn read_count(m: &WireMap, key: &str) -> (r: Option<u64>)
    ensures
        r.is_some() == valid_count(lookup(m@, key@)),
        r.is_some() ==> r.unwrap() == count_of(lookup(m@, key@)),
{
    match find_field(m, key) {
        None => Some(0),
        Some(i) => match &m[i].1 {
            WireValue::Unsigned(n) => Some(*n),
            _ => None,
        },
    }
}

fn read_scalar_count(o: &Vec<(String, WireScalar)>, key: &str) -> (r: Option<u64>)
    ensures
        r.is_some() == valid_scalar_count(lookup(o@, key@)),
        r.is_some() ==> r.unwrap() == scalar_count_of(lookup(o@, key@)),
{
    match find_field(o, key) {
        None => Some(0),
        Some(i) => match &o[i].1 {
            WireScalar::Unsigned(n) => Some(*n),
            _ => None,
        },
    }
}

fn read_scalar_flag(o: &Vec<(String, WireScalar)>, key: &str) -> (r: Option<bool>)
    ensures
        r.is_some() == valid_scalar_flag(lookup(o@, key@)),
        r.is_some() ==> r.unwrap() == scalar_flag_of(lookup(o@, key@)),
{
    match find_field(o, key) {
        None => Some(false),
        Some(i) => match &o[i].1 {
            WireScalar::Bool(b) => Some(*b),
            _ => None,
        },
    }
}

/// Reads a required handle field of the entry.
pub fn read_handle(m: &WireMap, key: &str) -> (r: Option<TcHandle>)
    ensures
        r == handle_field(m@, key@),
{
    match find_field(m, key) {
        None => None,
        Some(i) => match &m[i].1 {
            WireValue::Text(s) => TcHandle::from_string(s.as_str()),
            _ => None,
        },
    }
}

fn trunc32(n: u64) -> (r: u32)
    ensures
        r == low32(n),
{
    (n % 0x1_0000_0000) as u32
}

fn trunc16(n: u64) -> (r: u16)
    ensures
        r == low16(n),
{
    (n % 0x1_0000) as u16
}

impl TcFqCodelOptions {
    /// Decodes the fields of an `options` object.
    pub fn from_fields(o: &Vec<(String, WireScalar)>) -> (r: Result<TcFqCodelOptions, DecodeError>)
        ensures
            r is Ok == options_valid(o@),
            r is Ok ==> r.unwrap() == options_of(o@),
            r is Err ==> r == Err::<TcFqCodelOptions, DecodeError>(DecodeError::InvalidValue),
    {
        let limit = read_scalar_count(o, "limit");
        let flows = read_scalar_count(o, "flows");
        let quantum = read_scalar_count(o, "quantum");
        let target = read_scalar_count(o, "target");
        let interval = read_scalar_count(o, "interval");
        let memory_limit = read_scalar_count(o, "memory_limit");
        let ecn = read_scalar_flag(o, "ecn");
        let drop_batch = read_scalar_count(o, "drop_batch");
        match (limit, flows, quantum, target, interval, memory_limit, ecn, drop_batch) {
            (Some(limit), Some(flows), Some(quantum), Some(target), Some(interval), Some(memory_limit), Some(ecn), Some(drop_batch)) => {
                Ok(TcFqCodelOptions {
                    limit: trunc32(limit),
                    flows: trunc16(flows),
                    quantum: trunc16(quantum),
                    target,
                    interval,
                    memory_limit: trunc32(memory_limit),
                    ecn,
                    drop_batch: trunc16(drop_batch),
                })
            },
            _ => Err(DecodeError::InvalidValue),
        }
    }

    /// Decodes the `options` field of an entry.
    pub fn from_json(v: Option<&WireValue>) -> (r: Result<TcFqCodelOptions, DecodeError>)
        ensures
            r == spec_decode_options(match v { Some(x) => Some(*x), None => None }),
    {
        match v {
            None => Ok(TcFqCodelOptions {
                limit: 0,
                flows: 0,
                quantum: 0,
                target: 0,
                interval: 0,
                memory_limit: 0,
                ecn: false,
                drop_batch: 0,
            }),
            Some(WireValue::Object(o)) => TcFqCodelOptions::from_fields(o),
            Some(_) => Err(DecodeError::InvalidOptionsShape),
        }
    }
}

impl TcFqCodel {
    /// Decodes one `fq_codel` entry. Unknown fields are ignored.
    pub fn from_json(m: &WireMap) -> (r: Result<TcFqCodel, DecodeError>)
        ensures
            r == spec_decode_fq_codel(m@),
    {
        let handle = read_handle(m, "handle");
        let parent = read_handle(m, "parent");
        let (handle, parent) = match (handle, parent) {
            (Some(h), Some(p)) => (h, p),
            _ => return Err(DecodeError::InvalidHandle),
        };
        let options = match find_field(m, "options") {
            None => TcFqCodelOptions::from_json(None),
            Some(i) => TcFqCodelOptions::from_json(Some(&m[i].1)),
        };
        let options = match options {
            Ok(o) => o,
            Err(e) => return Err(e),
        };
        let bytes = read_count(m, "bytes");
        let packets = read_count(m, "packets");
        let drops = read_count(m, "drops");
        let overlimits = read_count(m, "overlimits");
        let requeues = read_count(m, "requeues");
        let backlog = read_count(m, "backlog");
        let qlen = read_count(m, "qlen");
        let maxpacket = read_count(m, "maxpacket");
        let drop_overlimit = read_count(m, "drop_overlimit");
        let new_flow_count = read_count(m, "new_flow_count");
        let ecn_mark = read_count(m, "ecn_mark");
        let new_flows_len = read_count(m, "new_flows_len");
        let old_flows_len = read_count(m, "old_flows_len");
        if bytes.is_none() || packets.is_none() || drops.is_none() || overlimits.is_none()
            || requeues.is_none() || backlog.is_none() || qlen.is_none() || maxpacket.is_none()
            || drop_overlimit.is_none() || new_flow_count.is_none() || ecn_mark.is_none()
            || new_flows_len.is_none() || old_flows_len.is_none() {
            return Err(DecodeError::InvalidValue);
        }
        Ok(TcFqCodel {
            handle,
            parent,
            options,
            bytes: bytes.unwrap(),
            packets: trunc32(packets.unwrap()),
            drops: trunc32(drops.unwrap()),
            overlimits: trunc32(overlimits.unwrap()),
            requeues: trunc32(requeues.unwrap()),
            backlog: trunc32(backlog.unwrap()),
            qlen: trunc32(qlen.unwrap()),
            maxpacket: trunc16(maxpacket.unwrap()),
            drop_overlimit: trunc32(drop_overlimit.unwrap()),
            new_flow_count: trunc32(new_flow_count.unwrap()),
            ecn_mark: trunc32(ecn_mark.unwrap()),
            new_flows_len: trunc16(new_flows_len.unwrap()),
            old_flows_len: trunc16(old_flows_len.unwrap()),
        })
    }
}

} // verus!
