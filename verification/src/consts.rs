//! The byte strings of the wire protocol and of result documents, each as a
//! spec-level sequence beside a builder that produces it at run time.

use vstd::prelude::*;

verus! {

/// Bytes of the result field recording that the request went out.
pub open spec fn sended_bytes() -> Seq<u8> {
    seq![0x73u8, 0x65u8, 0x6eu8, 0x64u8, 0x65u8, 0x64u8]
}

/// Builds `sended_bytes` at run time.
pub fn make_sended() -> (r: Vec<u8>)
    ensures
        r@ == sended_bytes(),
{
    let mut v: Vec<u8> = Vec::new();
    v.push(0x73);
    v.push(0x65);
    v.push(0x6e);
    v.push(0x64);
    v.push(0x65);
    v.push(0x64);
    assert(v@ =~= sended_bytes());
    v
}

/// Bytes of the result field recording protocol-level success.
pub open spec fn success_bytes() -> Seq<u8> {
    seq![0x73u8, 0x75u8, 0x63u8, 0x63u8, 0x65u8, 0x73u8, 0x73u8]
}

/// Builds `success_bytes` at run time.
pub fn make_success() -> (r: Vec<u8>)
    ensures
        r@ == success_bytes(),
{
    let mut v: Vec<u8> = Vec::new();
    v.push(0x73);
    v.push(0x75);
    v.push(0x63);
    v.push(0x63);
    v.push(0x65);
    v.push(0x73);
    v.push(0x73);
    assert(v@ =~= success_bytes());
    v
}

/// Bytes of the result field carrying an error message.
pub open spec fn error_field_bytes() -> Seq<u8> {
    seq![0x65u8, 0x72u8, 0x72u8, 0x6fu8, 0x72u8]
}

/// Builds `error_field_bytes` at run time.
pub fn make_error_field() -> (r: Vec<u8>)
    ensures
        r@ == error_field_bytes(),
{
    let mut v: Vec<u8> = Vec::new();
    v.push(0x65);
    v.push(0x72);
    v.push(0x72);
    v.push(0x6f);
    v.push(0x72);
    assert(v@ =~= error_field_bytes());
    v
}

/// Bytes of the JSON literal `true`.
pub open spec fn true_lit_bytes() -> Seq<u8> {
    seq![0x74u8, 0x72u8, 0x75u8, 0x65u8]
}

/// Builds `true_lit_bytes` at run time.
pub fn make_true_lit() -> (r: Vec<u8>)
    ensures
        r@ == true_lit_bytes(),
{
    let mut v: Vec<u8> = Vec::new();
    v.push(0x74);
    v.push(0x72);
    v.push(0x75);
    v.push(0x65);
    assert(v@ =~= true_lit_bytes());
    v
}

/// Bytes of the JSON literal `false`.
pub open spec fn false_lit_bytes() -> Seq<u8> {
    seq![0x66u8, 0x61u8, 0x6cu8, 0x73u8, 0x65u8]
}

/// Builds `false_lit_bytes` at run time.
pub fn make_false_lit() -> (r: Vec<u8>)
    ensures
        r@ == false_lit_bytes(),
{
    let mut v: Vec<u8> = Vec::new();
    v.push(0x66);
    v.push(0x61);
    v.push(0x6c);
    v.push(0x73);
    v.push(0x65);
    assert(v@ =~= false_lit_bytes());
    v
}

/// Bytes of the JSON literal `null`.
pub open spec fn null_lit_bytes() -> Seq<u8> {
    seq![0x6eu8, 0x75u8, 0x6cu8, 0x6cu8]
}

/// Builds `null_lit_bytes` at run time.
pub fn make_null_lit() -> (r: Vec<u8>)
    ensures
        r@ == null_lit_bytes(),
{
    let mut v: Vec<u8> = Vec::new();
    v.push(0x6e);
    v.push(0x75);
    v.push(0x6c);
    v.push(0x6c);
    assert(v@ =~= null_lit_bytes());
    v
}

/// Bytes of the error value for a response without exactly one blank-line delimiter.
pub open spec fn bad_http_bytes() -> Seq<u8> {
    seq![0x22u8, 0x42u8, 0x61u8, 0x64u8, 0x20u8, 0x48u8, 0x54u8, 0x54u8, 0x50u8, 0x20u8, 0x66u8, 0x6fu8, 0x72u8, 0x6du8, 0x61u8, 0x74u8, 0x22u8]
}

/// Builds `bad_http_bytes` at run time.
pub fn make_bad_http() -> (r: Vec<u8>)
    ensures
        r@ == bad_http_bytes(),
{
    let mut v: Vec<u8> = Vec::new();
    v.push(0x22);
    v.push(0x42);
    v.push(0x61);
    v.push(0x64);
    v.push(0x20);
    v.push(0x48);
    v.push(0x54);
    v.push(0x54);
    v.push(0x50);
    v.push(0x20);
    v.push(0x66);
    v.push(0x6f);
    v.push(0x72);
    v.push(0x6d);
    v.push(0x61);
    v.push(0x74);
    v.push(0x22);
    assert(v@ =~= bad_http_bytes());
    v
}

/// Bytes of the error value for a response body that is not JSON.
pub open spec fn bad_json_bytes() -> Seq<u8> {
    seq![0x22u8, 0x43u8, 0x6fu8, 0x75u8, 0x6cu8, 0x64u8, 0x6eu8, 0x27u8, 0x74u8, 0x20u8, 0x70u8, 0x61u8, 0x72u8, 0x73u8, 0x65u8, 0x20u8, 0x4au8, 0x53u8, 0x4fu8, 0x4eu8, 0x22u8]
}

/// Builds `bad_json_bytes` at run time.
pub fn make_bad_json() -> (r: Vec<u8>)
    ensures
        r@ == bad_json_bytes(),
{
    let mut v: Vec<u8> = Vec::new();
    v.push(0x22);
    v.push(0x43);
    v.push(0x6f);
    v.push(0x75);
    v.push(0x6c);
    v.push(0x64);
    v.push(0x6e);
    v.push(0x27);
    v.push(0x74);
    v.push(0x20);
    v.push(0x70);
    v.push(0x61);
    v.push(0x72);
    v.push(0x73);
    v.push(0x65);
    v.push(0x20);
    v.push(0x4a);
    v.push(0x53);
    v.push(0x4f);
    v.push(0x4e);
    v.push(0x22);
    assert(v@ =~= bad_json_bytes());
    v
}

/// Bytes of the blank-line delimiter between header and body sections.
pub open spec fn delim_bytes() -> Seq<u8> {
    seq![0x0du8, 0x0au8, 0x0du8, 0x0au8]
}

/// Builds `delim_bytes` at run time.
pub fn make_delim() -> (r: Vec<u8>)
    ensures
        r@ == delim_bytes(),
{
    let mut v: Vec<u8> = Vec::new();
    v.push(0x0d);
    v.push(0x0a);
    v.push(0x0d);
    v.push(0x0a);
    assert(v@ =~= delim_bytes());
    v
}

/// Bytes of the prefix of stream lines that carry an event.
pub open spec fn data_prefix_bytes() -> Seq<u8> {
    seq![0x64u8, 0x61u8, 0x74u8, 0x61u8, 0x3au8]
}

/// Builds `data_prefix_bytes` at run time.
pub fn make_data_prefix() -> (r: Vec<u8>)
    ensures
        r@ == data_prefix_bytes(),
{
    let mut v: Vec<u8> = Vec::new();
    v.push(0x64);
    v.push(0x61);
    v.push(0x74);
    v.push(0x61);
    v.push(0x3a);
    assert(v@ =~= data_prefix_bytes());
    v
}

/// Bytes of the event field naming the application.
pub open spec fn app_id_key_bytes() -> Seq<u8> {
    seq![0x61u8, 0x70u8, 0x70u8, 0x2du8, 0x69u8, 0x64u8]
}

/// Builds `app_id_key_bytes` at run time.
pub fn make_app_id_key() -> (r: Vec<u8>)
    ensures
        r@ == app_id_key_bytes(),
{
    let mut v: Vec<u8> = Vec::new();
    v.push(0x61);
    v.push(0x70);
    v.push(0x70);
    v.push(0x2d);
    v.push(0x69);
    v.push(0x64);
    assert(v@ =~= app_id_key_bytes());
    v
}

/// Bytes of the event field naming the event type.
pub open spec fn type_key_bytes() -> Seq<u8> {
    seq![0x74u8, 0x79u8, 0x70u8, 0x65u8]
}

/// Builds `type_key_bytes` at run time.
pub fn make_type_key() -> (r: Vec<u8>)
    ensures
        r@ == type_key_bytes(),
{
    let mut v: Vec<u8> = Vec::new();
    v.push(0x74);
    v.push(0x79);
    v.push(0x70);
    v.push(0x65);
    assert(v@ =~= type_key_bytes());
    v
}

/// Bytes of the start of a synchronous request line.
pub open spec fn post_prefix_bytes() -> Seq<u8> {
    seq![0x50u8, 0x4fu8, 0x53u8, 0x54u8, 0x20u8]
}

/// Builds `post_prefix_bytes` at run time.
pub fn make_post_prefix() -> (r: Vec<u8>)
    ensures
        r@ == post_prefix_bytes(),
{
    let mut v: Vec<u8> = Vec::new();
    v.push(0x50);
    v.push(0x4f);
    v.push(0x53);
    v.push(0x54);
    v.push(0x20);
    assert(v@ =~= post_prefix_bytes());
    v
}

/// Bytes of the start of a streaming request line.
pub open spec fn get_prefix_bytes() -> Seq<u8> {
    seq![0x47u8, 0x45u8, 0x54u8, 0x20u8]
}

/// Builds `get_prefix_bytes` at run time.
pub fn make_get_prefix() -> (r: Vec<u8>)
    ensures
        r@ == get_prefix_bytes(),
{
    let mut v: Vec<u8> = Vec::new();
    v.push(0x47);
    v.push(0x45);
    v.push(0x54);
    v.push(0x20);
    assert(v@ =~= get_prefix_bytes());
    v
}

/// Bytes of the end of the request line and the Host header name.
pub open spec fn host_header_bytes() -> Seq<u8> {
    seq![0x20u8, 0x48u8, 0x54u8, 0x54u8, 0x50u8, 0x2fu8, 0x31u8, 0x2eu8, 0x31u8, 0x0du8, 0x0au8, 0x48u8, 0x6fu8, 0x73u8, 0x74u8, 0x3au8, 0x20u8]
}

/// Builds `host_header_bytes` at run time.
pub fn make_host_header() -> (r: Vec<u8>)
    ensures
        r@ == host_header_bytes(),
{
    let mut v: Vec<u8> = Vec::new();
    v.push(0x20);
    v.push(0x48);
    v.push(0x54);
    v.push(0x54);
    v.push(0x50);
    v.push(0x2f);
    v.push(0x31);
    v.push(0x2e);
    v.push(0x31);
    v.push(0x0d);
    v.push(0x0a);
    v.push(0x48);
    v.push(0x6f);
    v.push(0x73);
    v.push(0x74);
    v.push(0x3a);
    v.push(0x20);
    assert(v@ =~= host_header_bytes());
    v
}

/// Bytes of the fixed headers of a synchronous request.
pub open spec fn post_headers_bytes() -> Seq<u8> {
    seq![0x0du8, 0x0au8, 0x43u8, 0x6fu8, 0x6eu8, 0x74u8, 0x65u8, 0x6eu8, 0x74u8, 0x2du8, 0x54u8, 0x79u8, 0x70u8, 0x65u8, 0x3au8, 0x20u8, 0x61u8, 0x70u8, 0x70u8, 0x6cu8, 0x69u8, 0x63u8, 0x61u8, 0x74u8, 0x69u8, 0x6fu8, 0x6eu8, 0x2fu8, 0x6au8, 0x73u8, 0x6fu8, 0x6eu8, 0x0du8, 0x0au8, 0x43u8, 0x6fu8, 0x6eu8, 0x74u8, 0x65u8, 0x6eu8, 0x74u8, 0x2du8, 0x4cu8, 0x65u8, 0x6eu8, 0x67u8, 0x74u8, 0x68u8, 0x3au8, 0x20u8]
}

/// Builds `post_headers_bytes` at run time.
pub fn make_post_headers() -> (r: Vec<u8>)
    ensures
        r@ == post_headers_bytes(),
{
    let mut v: Vec<u8> = Vec::new();
    v.push(0x0d);
    v.push(0x0a);
    v.push(0x43);
    v.push(0x6f);
    v.push(0x6e);
    v.push(0x74);
    v.push(0x65);
    v.push(0x6e);
    v.push(0x74);
    v.push(0x2d);
    v.push(0x54);
    v.push(0x79);
    v.push(0x70);
    v.push(0x65);
    v.push(0x3a);
    v.push(0x20);
    v.push(0x61);
    v.push(0x70);
    v.push(0x70);
    v.push(0x6c);
    v.push(0x69);
    v.push(0x63);
    v.push(0x61);
    v.push(0x74);
    v.push(0x69);
    v.push(0x6f);
    v.push(0x6e);
    v.push(0x2f);
    v.push(0x6a);
    v.push(0x73);
    v.push(0x6f);
    v.push(0x6e);
    v.push(0x0d);
    v.push(0x0a);
    v.push(0x43);
    v.push(0x6f);
    v.push(0x6e);
    v.push(0x74);
    v.push(0x65);
    v.push(0x6e);
    v.push(0x74);
    v.push(0x2d);
    v.push(0x4c);
    v.push(0x65);
    v.push(0x6e);
    v.push(0x67);
    v.push(0x74);
    v.push(0x68);
    v.push(0x3a);
    v.push(0x20);
    assert(v@ =~= post_headers_bytes());
    v
}

/// Bytes of the fixed headers of a streaming request.
pub open spec fn get_headers_bytes() -> Seq<u8> {
    seq![0x0du8, 0x0au8, 0x41u8, 0x63u8, 0x63u8, 0x65u8, 0x70u8, 0x74u8, 0x3au8, 0x20u8, 0x74u8, 0x65u8, 0x78u8, 0x74u8, 0x2fu8, 0x65u8, 0x76u8, 0x65u8, 0x6eu8, 0x74u8, 0x2du8, 0x73u8, 0x74u8, 0x72u8, 0x65u8, 0x61u8, 0x6du8, 0x0du8, 0x0au8, 0x0du8, 0x0au8]
}

/// Builds `get_headers_bytes` at run time.
pub fn make_get_headers() -> (r: Vec<u8>)
    ensures
        r@ == get_headers_bytes(),
{
    let mut v: Vec<u8> = Vec::new();
    v.push(0x0d);
    v.push(0x0a);
    v.push(0x41);
    v.push(0x63);
    v.push(0x63);
    v.push(0x65);
    v.push(0x70);
    v.push(0x74);
    v.push(0x3a);
    v.push(0x20);
    v.push(0x74);
    v.push(0x65);
    v.push(0x78);
    v.push(0x74);
    v.push(0x2f);
    v.push(0x65);
    v.push(0x76);
    v.push(0x65);
    v.push(0x6e);
    v.push(0x74);
    v.push(0x2d);
    v.push(0x73);
    v.push(0x74);
    v.push(0x72);
    v.push(0x65);
    v.push(0x61);
    v.push(0x6d);
    v.push(0x0d);
    v.push(0x0a);
    v.push(0x0d);
    v.push(0x0a);
    assert(v@ =~= get_headers_bytes());
    v
}

} // verus!
