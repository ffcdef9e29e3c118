//! Traffic-control handles: a `major:minor` pair of hexadecimal numbers, or
//! the literal `none`.

use vstd::prelude::*;

verus! {

/// A traffic-control handle naming a qdisc or a class.
#[derive(Clone, Copy, Debug, PartialEq, Eq, Structural, Hash)]
pub enum TcHandle {
    /// The unspecified handle, written `none`.
    Unspecified,
    /// A `major:minor` pair.
    Class { major: u16, minor: u16 },
}

/// The value of a hexadecimal digit, if `c` is one.
pub open spec fn hex_digit(c: char) -> Option<nat> {
    if '0' <= c && c <= '9' {
        Some((c as nat - '0' as nat) as nat)
    } else if 'a' <= c && c <= 'f' {
        Some((c as nat - 'a' as nat + 10) as nat)
    } else if 'A' <= c && c <= 'F' {
        Some((c as nat - 'A' as nat + 10) as nat)
    } else {
        None
    }
}

pub open spec fn all_hex(s: Seq<char>) -> bool {
    forall|i: int| 0 <= i < s.len() ==> (#[trigger] hex_digit(s[i])).is_some()
}

/// The number that a string of hexadecimal digits spells; the empty string is zero.
pub open spec fn hex_value(s: Seq<char>) -> nat
    decreases s.len(),
{
    if s.len() == 0 {
        0
    } else {
        hex_value(s.drop_last()) * 16 + hex_digit(s.last()).unwrap_or(0)
    }
}

pub open spec fn pow16(n: nat) -> nat
    decreases n,
{
    if n == 0 {
        1
    } else {
        16 * pow16((n - 1) as nat)
    }
}

/// The position of the first `:` in `s`, or `s.len()` when there is none.
pub open spec fn colon_pos(s: Seq<char>) -> nat
    decreases s.len(),
{
    if s.len() == 0 {
        0
    } else if s[0] == ':' {
        0
    } else {
        1 + colon_pos(s.drop_first())
    }
}

/// Whether `s` is a valid field: at most four hex digits, and at least `min_len` of them.
pub open spec fn valid_hex_field(s: Seq<char>, min_len: nat) -> bool {
    min_len <= s.len() <= 4 && all_hex(s)
}

/// The handle that a string denotes: `none`, or a major of one to four hex
/// digits, a `:`, and a minor of up to four hex digits (empty means zero).
pub open spec fn parse_tc_handle(s: Seq<char>) -> Option<TcHandle> {
    if s == "none"@ {
        Some(TcHandle::Unspecified)
    } else {
        let p = colon_pos(s);
        let major = s.subrange(0, p as int);
        let minor = s.subrange(p + 1int, s.len() as int);
        if p < s.len() && valid_hex_field(major, 1) && valid_hex_field(minor, 0) {
            Some(TcHandle::Class { major: hex_value(major) as u16, minor: hex_value(minor) as u16 })
        } else {
            None
        }
    }
}

proof fn lemma_colon_pos(s: Seq<char>)
    ensures
        colon_pos(s) <= s.len(),
        colon_pos(s) < s.len() ==> s[colon_pos(s) as int] == ':',
        forall|j: int| 0 <= j < colon_pos(s) ==> s[j] != ':',
    decreases s.len(),
{
    if s.len() > 0 && s[0] != ':' {
        lemma_colon_pos(s.drop_first());
        assert forall|j: int| 0 <= j < colon_pos(s) implies s[j] != ':' by {
            if j > 0 {
                assert(s[j] == s.drop_first()[j - 1]);
            }
        }
    }
}

proof fn lemma_colon_pos_unique(s: Seq<char>, p: nat)
    requires
        p <= s.len(),
        p < s.len() ==> s[p as int] == ':',
        forall|j: int| 0 <= j < p ==> s[j] != ':',
    ensures
        colon_pos(s) == p,
{
    lemma_colon_pos(s);
    if colon_pos(s) < p {
        assert(s[colon_pos(s) as int] == ':');
    }
}

fn hex_digit_exec(c: char) -> (r: Option<u16>)
    ensures
        r.is_some() == hex_digit(c).is_some(),
        r.is_some() ==> r.unwrap() as nat == hex_digit(c).unwrap() && r.unwrap() < 16,
{
    if '0' <= c && c <= '9' {
        Some((c as u32 - '0' as u32) as u16)
    } else if 'a' <= c && c <= 'f' {
        Some((c as u32 - 'a' as u32 + 10) as u16)
    } else if 'A' <= c && c <= 'F' {
        Some((c as u32 - 'A' as u32 + 10) as u16)
    } else {
        None
    }
}

/// Reads the hex field `s[from..to]`.
fn parse_hex_field(s: &str, from: usize, to: usize, min_len: usize) -> (r: Option<u16>)
    requires
        from <= to <= s@.len(),
    ensures
        r.is_some() == valid_hex_field(s@.subrange(from as int, to as int), min_len as nat),
        r.is_some() ==> r.unwrap() as nat == hex_value(s@.subrange(from as int, to as int)),
{
    let ghost field = s@.subrange(from as int, to as int);
    if to - from > 4 || to - from < min_len {
        return None;
    }
    let mut acc: u32 = 0;
    let mut i: usize = from;
    while i < to
        invariant
            from <= i <= to <= s@.len(),
            to - from <= 4,
            field == s@.subrange(from as int, to as int),
            all_hex(s@.subrange(from as int, i as int)),
            acc as nat == hex_value(s@.subrange(from as int, i as int)),
            acc < pow16((i - from) as nat),
        decreases to - i,
    {
        let c = s.get_char(i);
        let d = hex_digit_exec(c);
        match d {
            None => {
                assert(field[i - from] == c);
                return None;
            },
            Some(d) => {
                let ghost prev = s@.subrange(from as int, i as int);
                let ghost next = s@.subrange(from as int, i + 1);
                assert(next.drop_last() =~= prev);
                assert(next.last() == c);
                let ghost pw = pow16((i - from) as nat);
                assert(pow16((i + 1 - from) as nat) == 16 * pw);
                assert(acc * 16 + d < 16 * pw) by (nonlinear_arith)
                    requires acc < pw, d < 16;
                assert(pw <= 4096) by {
                    reveal_with_fuel(pow16, 4);
                }
                acc = acc * 16 + d as u32;
                i = i + 1;
                assert(all_hex(next)) by {
                    assert forall|j: int| 0 <= j < next.len() implies (#[trigger] hex_digit(next[j])).is_some() by {
                        if j < prev.len() {
                            assert(next[j] == prev[j]);
                        }
                    }
                }
            },
        }
    }
    assert(pow16(4) == 65536) by {
        reveal_with_fuel(pow16, 5);
    }
    assert(pow16((to - from) as nat) <= 65536) by {
        reveal_with_fuel(pow16, 5);
    }
    Some(acc as u16)
}

impl TcHandle {
    /// Parses a handle from its string form.
    pub fn from_string(s: &str) -> (r: Option<TcHandle>)
        ensures
            r == parse_tc_handle(s@),
    {
        if crate::text::str_eq(s, "none") {
            return Some(TcHandle::Unspecified);
        }
        let n = s.unicode_len();
        let mut p: usize = 0;
        while p < n && s.get_char(p) != ':'
            invariant
                n == s@.len(),
                p <= n,
                forall|j: int| 0 <= j < p ==> s@[j] != ':',
            decreases n - p,
        {
            p = p + 1;
        }
        proof {
            lemma_colon_pos_unique(s@, p as nat);
        }
        if p == n {
            return None;
        }
        let major = parse_hex_field(s, 0, p, 1);
        let minor = parse_hex_field(s, p + 1, n, 0);
        match (major, minor) {
            (Some(major), Some(minor)) => Some(TcHandle::Class { major, minor }),
            _ => None,
        }
    }

    /// Whether this is the unspecified handle.
    pub fn is_unspecified(&self) -> (r: bool)
        ensures
            r == (*self == TcHandle::Unspecified),
    {
        match self {
            TcHandle::Unspecified => true,
            _ => false,
        }
    }
}

} // verus!
