//! Wire framing: building the two request shapes the hub understands, and
//! cutting a raw response at its blank-line delimiters.

use vstd::prelude::*;
use crate::bytes::dec_digits;
use crate::bytes::u64_to_dec;
use crate::bytes::bytes_eq;
use crate::bytes::copy_range;
use crate::consts::post_prefix_bytes;
use crate::consts::get_prefix_bytes;
use crate::consts::host_header_bytes;
use crate::consts::post_headers_bytes;
use crate::consts::get_headers_bytes;
use crate::consts::delim_bytes;
use crate::consts::make_post_prefix;
use crate::consts::make_get_prefix;
use crate::consts::make_host_header;
use crate::consts::make_post_headers;
use crate::consts::make_get_headers;
use crate::consts::make_delim;

verus! {

/// The full text of a synchronous request: request line, Host header, the
/// fixed content headers with the body's byte length, a blank line, the body.
pub open spec fn post_request_bytes(host: Seq<u8>, path: Seq<u8>, body: Seq<u8>) -> Seq<u8> {
    post_prefix_bytes() + path + host_header_bytes() + host + post_headers_bytes() + dec_digits(
        body.len(),
    ) + delim_bytes() + body
}

/// The full text of a streaming request: request line, Host header, the
/// event-stream Accept header, a blank line.
pub open spec fn get_request_bytes(host: Seq<u8>, path: Seq<u8>) -> Seq<u8> {
    get_prefix_bytes() + path + host_header_bytes() + host + get_headers_bytes()
}

/// Builds the synchronous request for `body` posted to `path`.
pub fn post_request(host: &[u8], path: &[u8], body: &[u8]) -> (r: Vec<u8>)
    ensures
        r@ == post_request_bytes(host@, path@, body@),
{
    let mut out = make_post_prefix();
    out.extend_from_slice(path);
    let mut piece = make_host_header();
    out.append(&mut piece);
    out.extend_from_slice(host);
    let mut headers = make_post_headers();
    out.append(&mut headers);
    let mut len_digits = u64_to_dec(body.len() as u64);
    out.append(&mut len_digits);
    let mut blank = make_delim();
    out.append(&mut blank);
    out.extend_from_slice(body);
    assert(out@ =~= post_request_bytes(host@, path@, body@));
    out
}

/// Builds the streaming request for `path`.
pub fn get_request(host: &[u8], path: &[u8]) -> (r: Vec<u8>)
    ensures
        r@ == get_request_bytes(host@, path@),
{
    let mut out = make_get_prefix();
    out.extend_from_slice(path);
    let mut piece = make_host_header();
    out.append(&mut piece);
    out.extend_from_slice(host);
    let mut headers = make_get_headers();
    out.append(&mut headers);
    assert(out@ =~= get_request_bytes(host@, path@));
    out
}

/// A synchronous request ends with the blank-line delimiter followed by the
/// body verbatim, so the bytes after the last delimiter are exactly the body
/// that was given.
pub proof fn lemma_post_request_carries_body(host: Seq<u8>, path: Seq<u8>, body: Seq<u8>)
    ensures
        ({
            let req = post_request_bytes(host, path, body);
            &&& req.len() >= body.len() + 4
            &&& req.skip(req.len() - body.len()) == body
            &&& req.subrange(req.len() - body.len() - 4, req.len() - body.len()) == delim_bytes()
        }),
{
    let req = post_request_bytes(host, path, body);
    assert(req.skip(req.len() - body.len()) =~= body);
    assert(req.subrange(req.len() - body.len() - 4, req.len() - body.len()) =~= delim_bytes());
}

/// The blank-line delimiter stands at position `i` of `s`.
pub open spec fn match_at(s: Seq<u8>, i: int) -> bool {
    0 <= i && i + 4 <= s.len() && s.subrange(i, i + 4) == delim_bytes()
}

/// The sections of `s` when cut at every blank-line delimiter, scanning left
/// to right; one delimiter yields exactly two sections.
pub open spec fn split_parts(s: Seq<u8>) -> Seq<Seq<u8>>
    decreases s.len(),
{
    if s.len() < 4 {
        seq![s]
    } else if s.take(4) == delim_bytes() {
        seq![Seq::<u8>::empty()] + split_parts(s.skip(4))
    } else {
        let rest = split_parts(s.drop_first());
        seq![seq![s[0]] + rest[0]] + rest.drop_first()
    }
}

proof fn lemma_split_at_least_one(s: Seq<u8>)
    ensures
        split_parts(s).len() >= 1,
    decreases s.len(),
{
    if s.len() < 4 {
    } else if s.take(4) == delim_bytes() {
        lemma_split_at_least_one(s.skip(4));
    } else {
        lemma_split_at_least_one(s.drop_first());
    }
}

proof fn lemma_split_no_match(s: Seq<u8>)
    requires
        forall|j: int| !match_at(s, j),
    ensures
        split_parts(s) == seq![s],
    decreases s.len(),
{
    if s.len() < 4 {
    } else if s.take(4) == delim_bytes() {
        assert(s.subrange(0, 4) =~= s.take(4));
        assert(match_at(s, 0));
    } else {
        let d = s.drop_first();
        assert forall|j: int| !match_at(d, j) by {
            if 0 <= j && j + 4 <= d.len() {
                assert(d.subrange(j, j + 4) =~= s.subrange(j + 1, j + 5));
                assert(!match_at(s, j + 1));
            }
        }
        lemma_split_no_match(d);
        assert(seq![s[0]] + split_parts(d)[0] =~= s);
        assert(split_parts(s) =~= seq![s]);
    }
}

proof fn lemma_split_first_match(s: Seq<u8>, i: int)
    requires
        match_at(s, i),
        forall|j: int| 0 <= j < i ==> !match_at(s, j),
    ensures
        split_parts(s) == seq![s.take(i)] + split_parts(s.skip(i + 4)),
    decreases s.len(),
{
    if i == 0 {
        assert(s.take(4) =~= s.subrange(0, 4));
        assert(s.take(0) =~= Seq::<u8>::empty());
        assert(split_parts(s) =~= seq![s.take(0)] + split_parts(s.skip(4)));
    } else {
        assert(!match_at(s, 0));
        assert(s.subrange(0, 4) =~= s.take(4));
        assert(s.take(4) != delim_bytes());
        let d = s.drop_first();
        assert(d.subrange(i - 1, i + 3) =~= s.subrange(i, i + 4));
        assert(match_at(d, i - 1));
        assert forall|j: int| 0 <= j < i - 1 implies !match_at(d, j) by {
            assert(d.subrange(j, j + 4) =~= s.subrange(j + 1, j + 5));
            assert(!match_at(s, j + 1));
        }
        lemma_split_first_match(d, i - 1);
        let rest = split_parts(d);
        assert(rest[0] == d.take(i - 1));
        assert(rest.drop_first() =~= split_parts(d.skip(i + 3)));
        assert(d.skip(i + 3) =~= s.skip(i + 4));
        assert(seq![s[0]] + d.take(i - 1) =~= s.take(i));
        assert(split_parts(s) =~= seq![s.take(i)] + split_parts(s.skip(i + 4)));
    }
}

proof fn lemma_split_two_with_match(s: Seq<u8>, i: int)
    requires
        match_at(s, i),
    ensures
        split_parts(s).len() >= 2,
    decreases s.len(),
{
    if s.take(4) == delim_bytes() {
        lemma_split_at_least_one(s.skip(4));
    } else {
        assert(s.subrange(0, 4) =~= s.take(4));
        assert(i != 0);
        let d = s.drop_first();
        assert(d.subrange(i - 1, i + 3) =~= s.subrange(i, i + 4));
        assert(match_at(d, i - 1));
        lemma_split_two_with_match(d, i - 1);
    }
}

/// Position of the first blank-line delimiter of `s` at or after `from`.
fn find_delim_from(s: &[u8], from: usize) -> (r: Option<usize>)
    requires
        from <= s@.len(),
    ensures
        match r {
            Some(i) => from <= i && match_at(s@, i as int) && (forall|j: int|
                from <= j < i ==> !match_at(s@, j)),
            None => forall|j: int| from <= j ==> !match_at(s@, j),
        },
{
    let delim = make_delim();
    let mut i: usize = from;
    while i < s.len() && s.len() - i >= 4
        invariant
            from <= i <= s@.len(),
            delim@ == delim_bytes(),
            forall|j: int| from <= j < i ==> !match_at(s@, j),
        decreases s@.len() - i,
    {
        let window = vstd::slice::slice_subrange(s, i, i + 4);
        if bytes_eq(window, delim.as_slice()) {
            assert(match_at(s@, i as int));
            return Some(i);
        }
        assert(!match_at(s@, i as int));
        i += 1;
    }
    assert forall|j: int| from <= j implies !match_at(s@, j) by {
        if j + 4 <= s@.len() {
            assert(j < i);
        }
    }
    None
}

/// Cuts a raw response into its header and body sections. The result is
/// `Some` exactly when the blank-line delimiter occurs exactly once, that is
/// when the response has exactly two sections.
pub fn split_two(raw: &[u8]) -> (r: Option<(Vec<u8>, Vec<u8>)>)
    ensures
        match r {
            Some(p) => split_parts(raw@).len() == 2 && p.0@ == split_parts(raw@)[0] && p.1@
                == split_parts(raw@)[1],
            None => split_parts(raw@).len() != 2,
        },
{
    match find_delim_from(raw, 0) {
        None => {
            proof {
                lemma_split_no_match(raw@);
            }
            None
        },
        Some(i) => {
            let n = raw.len();
            assert(i as int + 4 <= n as int);
            proof {
                lemma_split_first_match(raw@, i as int);
            }
            match find_delim_from(raw, i + 4) {
                Some(j) => {
                    proof {
                        let tail = raw@.skip(i + 4);
                        assert(tail.subrange(j - i - 4, j - i) =~= raw@.subrange(
                            j as int,
                            j as int + 4,
                        ));
                        assert(match_at(tail, j - i - 4));
                        lemma_split_two_with_match(tail, j - i - 4);
                    }
                    None
                },
                None => {
                    let head = copy_range(raw, 0, i);
                    let body = copy_range(raw, i + 4, raw.len());
                    proof {
                        let tail = raw@.skip(i + 4);
                        assert forall|j: int| !match_at(tail, j) by {
                            if 0 <= j && j + 4 <= tail.len() {
                                assert(tail.subrange(j, j + 4) =~= raw@.subrange(
                                    j + i + 4,
                                    j + i + 8,
                                ));
                                assert(!match_at(raw@, j + i + 4));
                            }
                        }
                        lemma_split_no_match(tail);
                        assert(head@ =~= raw@.take(i as int));
                        assert(body@ =~= tail);
                    }
                    Some((head, body))
                },
            }
        },
    }
}

} // verus!
