//! Interpreting the raw text of a synchronous response as a result document.
//!
//! The response is cut at its blank-line delimiters; with anything but
//! exactly two sections the result is the fixed bad-format failure document.
//! Otherwise the body section is handed to serde_json, and the result starts
//! from `sended: true`: a parse failure adds the fixed failure fields, an
//! object's top-level fields are merged in (overriding on a shared key), and
//! any other JSON value adds nothing.

use vstd::prelude::*;
use crate::consts::sended_bytes;
use crate::consts::success_bytes;
use crate::consts::error_field_bytes;
use crate::consts::true_lit_bytes;
use crate::consts::false_lit_bytes;
use crate::consts::bad_http_bytes;
use crate::consts::bad_json_bytes;
use crate::consts::make_sended;
use crate::consts::make_success;
use crate::consts::make_error_field;
use crate::consts::make_true_lit;
use crate::consts::make_false_lit;
use crate::consts::make_bad_http;
use crate::consts::make_bad_json;
use crate::doc::Doc;
use crate::doc::map_of;
use crate::doc::pairs_view;
use crate::doc::lemma_map_of_push;
use crate::hub_json::json_top_entries;
use crate::json::Json;
use crate::json::JsonModel;
use crate::json::json_bytes;
use crate::wire::post_request;
use crate::wire::post_request_bytes;
use crate::hub_json::parse_top;
use crate::hub_json::TopParse;
use crate::wire::split_parts;
use crate::wire::split_two;

verus! {

/// The full request of a synchronous call of `command` with `payload`:
/// posted to `/command`, the body being the payload's compact serialization
/// and the Content-Length its byte count.
pub open spec fn call_request_bytes(host: Seq<u8>, command: Seq<u8>, payload: JsonModel) -> Seq<
    u8,
> {
    post_request_bytes(host, seq![0x2fu8] + command, json_bytes(payload))
}

/// Builds the request of a synchronous call.
pub fn call_request(host: &[u8], command: &[u8], payload: &Json) -> (r: Vec<u8>)
    ensures
        r@ == call_request_bytes(host@, command@, payload@),
{
    let mut path: Vec<u8> = Vec::new();
    path.push(0x2f);
    path.extend_from_slice(command);
    assert(path@ =~= seq![0x2fu8] + command@);
    let body = payload.to_bytes();
    post_request(host, path.as_slice(), body.as_slice())
}

/// A call's request carries exactly the payload's compact serialization as
/// its body: the bytes after the request's last blank-line delimiter are
/// that serialization, and the Content-Length digits count those bytes.
pub proof fn lemma_call_request_carries_payload(host: Seq<u8>, command: Seq<u8>, payload: JsonModel)
    ensures
        ({
            let req = call_request_bytes(host, command, payload);
            let body = json_bytes(payload);
            &&& req.len() >= body.len() + 4
            &&& req.skip(req.len() - body.len()) == body
            &&& req.subrange(req.len() - body.len() - 4, req.len() - body.len())
                == crate::consts::delim_bytes()
        }),
{
    crate::wire::lemma_post_request_carries_body(
        host,
        seq![0x2fu8] + command,
        json_bytes(payload),
    );
}

/// The fields of a response without exactly two sections.
pub open spec fn bad_format_map() -> Map<Seq<u8>, Seq<u8>> {
    map![success_bytes() => false_lit_bytes(), error_field_bytes() => bad_http_bytes()]
}

/// The fields of a response whose body section is not JSON.
pub open spec fn bad_body_map() -> Map<Seq<u8>, Seq<u8>> {
    map![
        sended_bytes() => true_lit_bytes(),
        success_bytes() => false_lit_bytes(),
        error_field_bytes() => bad_json_bytes(),
    ]
}

/// The result mapping of a raw response.
pub open spec fn response_map(raw: Seq<u8>) -> Map<Seq<u8>, Seq<u8>> {
    if split_parts(raw).len() != 2 {
        bad_format_map()
    } else {
        match json_top_entries(split_parts(raw)[1]) {
            None => bad_body_map(),
            Some(None) => map![sended_bytes() => true_lit_bytes()],
            Some(Some(es)) => map![sended_bytes() => true_lit_bytes()].union_prefer_right(
                map_of(es),
            ),
        }
    }
}

/// Turns a raw response into its result document.
#[verifier::loop_isolation(false)]
pub fn interpret_response(raw: &[u8]) -> (r: Doc)
    ensures
        r.wf(),
        r.as_map() == response_map(raw@),
{
    match split_two(raw) {
        None => {
            let mut d = Doc::empty();
            d.set(make_success(), make_false_lit());
            d.set(make_error_field(), make_bad_http());
            proof {
                assert(d.as_map() =~= bad_format_map());
            }
            d
        },
        Some((_head, body)) => {
            let mut d = Doc::empty();
            d.set(make_sended(), make_true_lit());
            assert(d.as_map() =~= map![sended_bytes() => true_lit_bytes()]);
            match parse_top(body.as_slice()) {
                TopParse::Invalid => {
                    d.set(make_success(), make_false_lit());
                    d.set(make_error_field(), make_bad_json());
                    proof {
                        assert(d.as_map() =~= bad_body_map());
                    }
                    d
                },
                TopParse::NonObject => d,
                TopParse::Object(mut entries) => {
                    let ghost base = map![sended_bytes() => true_lit_bytes()];
                    let ghost orig = pairs_view(entries@);
                    let ghost mut taken: int = 0;
                    proof {
                        assert(pairs_view(entries@) =~= orig.skip(0));
                        assert(map_of(orig.take(0)) =~= Map::<Seq<u8>, Seq<u8>>::empty());
                        assert(d.as_map() =~= base.union_prefer_right(map_of(orig.take(0))));
                    }
                    while entries.len() > 0
                        invariant
                            d.wf(),
                            0 <= taken <= orig.len(),
                            pairs_view(entries@) == orig.skip(taken),
                            d.as_map() == base.union_prefer_right(map_of(orig.take(taken))),
                        decreases entries@.len(),
                    {
                        let ghost before = pairs_view(entries@);
                        let ghost prev_entries = entries@;
                        let (k, v) = entries.remove(0);
                        proof {
                            assert(before[0] == orig[taken]);
                            assert((k@, v@) == orig[taken]);
                            assert(entries@ =~= prev_entries.drop_first());
                            assert forall|j: int| 0 <= j < entries@.len() implies pairs_view(
                                entries@,
                            )[j] == orig.skip(taken + 1)[j] by {
                                assert(entries@[j] == prev_entries[j + 1]);
                                assert(pairs_view(prev_entries)[j + 1] == orig.skip(taken)[j + 1]);
                            }
                            assert(pairs_view(entries@) =~= orig.skip(taken + 1));
                        }
                        d.set(k, v);
                        proof {
                            assert(orig.take(taken + 1) =~= orig.take(taken).push(orig[taken]));
                            lemma_map_of_push(orig.take(taken), orig[taken].0, orig[taken].1);
                            assert(map_of(orig.take(taken + 1)) == map_of(orig.take(taken)).insert(
                                orig[taken].0,
                                orig[taken].1,
                            ));
                            assert(d.as_map() =~= base.union_prefer_right(
                                map_of(orig.take(taken + 1)),
                            ));
                            taken = taken + 1;
                        }
                    }
                    proof {
                        assert(orig.take(taken) =~= orig);
                    }
                    d
                },
            }
        },
    }
}

} // verus!
