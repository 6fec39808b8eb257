//! The hub's address: host and port taken from a `host:port` text.
//!
//! The host is what stands before the first colon; the port text is what
//! stands between the first colon and the next colon or the end, and must be
//! a nonempty digit string whose value fits a port number.

use vstd::prelude::*;
use crate::bytes::copy_range;

verus! {

/// Position of the first `b` in `s`.
pub open spec fn find_byte(s: Seq<u8>, b: u8) -> Option<int>
    decreases s.len(),
{
    if s.len() == 0 {
        None
    } else if s[0] == b {
        Some(0int)
    } else {
        match find_byte(s.drop_first(), b) {
            None => None,
            Some(i) => Some(i + 1),
        }
    }
}

proof fn lemma_find_byte_at(s: Seq<u8>, b: u8, i: int)
    requires
        0 <= i < s.len(),
        s[i] == b,
        forall|j: int| 0 <= j < i ==> s[j] != b,
    ensures
        find_byte(s, b) == Some(i),
    decreases s.len(),
{
    if i > 0 {
        lemma_find_byte_at(s.drop_first(), b, i - 1);
    }
}

proof fn lemma_find_byte_none(s: Seq<u8>, b: u8)
    requires
        forall|j: int| 0 <= j < s.len() ==> s[j] != b,
    ensures
        find_byte(s, b) is None,
    decreases s.len(),
{
    if s.len() > 0 {
        lemma_find_byte_none(s.drop_first(), b);
    }
}

/// Position of the first `b` in `s` at run time.
fn find_byte_exec(s: &[u8], b: u8) -> (r: Option<usize>)
    ensures
        match r {
            Some(i) => i < s@.len() && find_byte(s@, b) == Some(i as int),
            None => find_byte(s@, b) is None,
        },
{
    let mut i: usize = 0;
    while i < s.len()
        invariant
            i <= s@.len(),
            forall|j: int| 0 <= j < i ==> s@[j] != b,
        decreases s@.len() - i,
    {
        if s[i] == b {
            proof {
                lemma_find_byte_at(s@, b, i as int);
            }
            return Some(i);
        }
        i += 1;
    }
    proof {
        lemma_find_byte_none(s@, b);
    }
    None
}

/// The value of a decimal digit string.
pub open spec fn dec_val(s: Seq<u8>) -> nat
    decreases s.len(),
{
    if s.len() == 0 {
        0
    } else {
        (dec_val(s.drop_last()) * 10 + s.last() - 0x30) as nat
    }
}

/// Every byte is a decimal digit.
pub open spec fn all_digits(s: Seq<u8>) -> bool {
    forall|i: int| 0 <= i < s.len() ==> 0x30 <= #[trigger] s[i] <= 0x39
}

/// A longer digit string never has a smaller value.
proof fn lemma_dec_val_prefix(s: Seq<u8>, i: int)
    requires
        all_digits(s),
        0 <= i <= s.len(),
    ensures
        dec_val(s.take(i)) <= dec_val(s),
    decreases s.len(),
{
    if i < s.len() {
        assert(s.drop_last().take(i) =~= s.take(i));
        lemma_dec_val_prefix(s.drop_last(), i);
        assert(dec_val(s) >= dec_val(s.drop_last()));
    } else {
        assert(s.take(i) =~= s);
    }
}

/// The host section: what stands before the first colon.
pub open spec fn host_text(s: Seq<u8>) -> Seq<u8> {
    s.take(find_byte(s, 0x3a)->Some_0)
}

/// The port section: what stands between the first colon and the next colon
/// or the end.
pub open spec fn port_text(s: Seq<u8>) -> Seq<u8> {
    let rest = s.skip(find_byte(s, 0x3a)->Some_0 + 1);
    match find_byte(rest, 0x3a) {
        None => rest,
        Some(j) => rest.take(j),
    }
}

/// The address has a colon and a port section that is a nonempty digit
/// string small enough for a port number.
pub open spec fn valid_addr(s: Seq<u8>) -> bool {
    &&& find_byte(s, 0x3a) is Some
    &&& port_text(s).len() > 0
    &&& all_digits(port_text(s))
    &&& dec_val(port_text(s)) <= 65535
}

/// The hub's address.
pub struct Endpoint {
    pub host: Vec<u8>,
    pub port: u16,
}

impl Endpoint {
    /// Parses a `host:port` text; the result is `Some` exactly for a valid
    /// address, holding its host and port value.
    #[verifier::loop_isolation(false)]
    pub fn parse(addr: &[u8]) -> (r: Option<Endpoint>)
        ensures
            (r is Some) == valid_addr(addr@),
            r matches Some(e) ==> e.host@ == host_text(addr@) && e.port as nat == dec_val(
                port_text(addr@),
            ),
    {
        let ci = match find_byte_exec(addr, 0x3a) {
            Some(i) => i,
            None => {
                return None;
            },
        };
        let n = addr.len();
        assert(ci < n);
        let host = copy_range(addr, 0, ci);
        let rest = copy_range(addr, ci + 1, n);
        proof {
            assert(rest@ =~= addr@.skip(ci as int + 1));
        }
        let ptext = match find_byte_exec(rest.as_slice(), 0x3a) {
            None => rest,
            Some(j) => copy_range(rest.as_slice(), 0, j),
        };
        proof {
            assert(ptext@ =~= port_text(addr@));
        }
        if ptext.len() == 0 {
            return None;
        }
        let mut val: u32 = 0;
        let mut i: usize = 0;
        while i < ptext.len()
            invariant
                i <= ptext@.len(),
                val <= 65535,
                all_digits(ptext@.take(i as int)),
                val as nat == dec_val(ptext@.take(i as int)),
            decreases ptext@.len() - i,
        {
            let b = ptext[i];
            if b < 0x30 || b > 0x39 {
                assert(!all_digits(ptext@));
                return None;
            }
            val = val * 10 + (b - 0x30) as u32;
            proof {
                assert(ptext@.take(i as int + 1).drop_last() =~= ptext@.take(i as int));
                assert(val as nat == dec_val(ptext@.take(i as int + 1)));
            }
            i += 1;
            if val > 65535 {
                proof {
                    if all_digits(ptext@) {
                        lemma_dec_val_prefix(ptext@, i as int);
                    }
                }
                return None;
            }
        }
        proof {
            assert(ptext@.take(ptext@.len() as int) =~= ptext@);
        }
        Some(Endpoint { host, port: val as u16 })
    }
}

} // verus!
