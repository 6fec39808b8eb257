//! The library's JSON documents and their compact serialization.
//!
//! A document holds strings as unescaped UTF-8 bytes and numbers as integers.
//! `json_bytes` states, byte for byte, what the compact serialization of a
//! document is; `Json::to_bytes` produces exactly that.

use vstd::prelude::*;
use crate::bytes::dec_digits;
use crate::bytes::u64_to_dec;
use crate::consts::null_lit_bytes;
use crate::consts::true_lit_bytes;
use crate::consts::false_lit_bytes;
use crate::consts::make_null_lit;
use crate::consts::make_true_lit;
use crate::consts::make_false_lit;

verus! {

/// A JSON document as the library's callers build it.
pub enum Json {
    Null,
    Bool(bool),
    Int(i64),
    Str(Vec<u8>),
    Arr(Vec<Json>),
    Obj(Vec<(Vec<u8>, Json)>),
}

/// The mathematical shape of a JSON document.
pub enum JsonModel {
    Null,
    Bool(bool),
    Int(int),
    Str(Seq<u8>),
    Arr(Seq<JsonModel>),
    Obj(Seq<(Seq<u8>, JsonModel)>),
}

/// The shape of a document.
pub open spec fn json_view(j: Json) -> JsonModel
    decreases j,
{
    match j {
        Json::Null => JsonModel::Null,
        Json::Bool(b) => JsonModel::Bool(b),
        Json::Int(i) => JsonModel::Int(i as int),
        Json::Str(s) => JsonModel::Str(s@),
        Json::Arr(items) => JsonModel::Arr(arr_view(items@)),
        Json::Obj(fields) => JsonModel::Obj(obj_view(fields@)),
    }
}

/// The shapes of the items of an array.
pub open spec fn arr_view(items: Seq<Json>) -> Seq<JsonModel>
    decreases items,
{
    if items.len() == 0 {
        Seq::empty()
    } else {
        seq![json_view(items[0])] + arr_view(items.drop_first())
    }
}

/// The shapes of the fields of an object.
pub open spec fn obj_view(fields: Seq<(Vec<u8>, Json)>) -> Seq<(Seq<u8>, JsonModel)>
    decreases fields,
{
    if fields.len() == 0 {
        Seq::empty()
    } else {
        seq![(fields[0].0@, json_view(fields[0].1))] + obj_view(fields.drop_first())
    }
}

impl View for Json {
    type V = JsonModel;

    open spec fn view(&self) -> JsonModel {
        json_view(*self)
    }
}

/// The lowercase hexadecimal digit of `n < 16`.
pub open spec fn hex_digit(n: u8) -> u8 {
    if n < 10 {
        (0x30 + n) as u8
    } else {
        (0x57 + n) as u8
    }
}

/// How one byte of string content appears inside a JSON string literal:
/// quote, backslash and the named control characters get a two-byte escape,
/// other control bytes a `\u00..` escape, everything else stands as it is.
pub open spec fn esc_byte(b: u8) -> Seq<u8> {
    if b == 0x22 {
        seq![0x5cu8, 0x22u8]
    } else if b == 0x5c {
        seq![0x5cu8, 0x5cu8]
    } else if b == 0x08 {
        seq![0x5cu8, 0x62u8]
    } else if b == 0x09 {
        seq![0x5cu8, 0x74u8]
    } else if b == 0x0a {
        seq![0x5cu8, 0x6eu8]
    } else if b == 0x0c {
        seq![0x5cu8, 0x66u8]
    } else if b == 0x0d {
        seq![0x5cu8, 0x72u8]
    } else if b < 0x20 {
        seq![0x5cu8, 0x75u8, 0x30u8, 0x30u8, hex_digit(b / 16), hex_digit(b % 16)]
    } else {
        seq![b]
    }
}

/// String content with every byte escaped as `esc_byte` says.
pub open spec fn esc_bytes(s: Seq<u8>) -> Seq<u8>
    decreases s.len(),
{
    if s.len() == 0 {
        Seq::empty()
    } else {
        esc_byte(s[0]) + esc_bytes(s.drop_first())
    }
}

/// A JSON string literal: quoted, escaped content.
pub open spec fn str_lit_bytes(s: Seq<u8>) -> Seq<u8> {
    seq![0x22u8] + esc_bytes(s) + seq![0x22u8]
}

/// An integer in decimal, with a leading minus sign when negative.
pub open spec fn int_bytes(i: int) -> Seq<u8> {
    if i < 0 {
        seq![0x2du8] + dec_digits((-i) as nat)
    } else {
        dec_digits(i as nat)
    }
}

/// The compact serialization of a document.
pub open spec fn json_bytes(j: JsonModel) -> Seq<u8>
    decreases j,
{
    match j {
        JsonModel::Null => null_lit_bytes(),
        JsonModel::Bool(b) => if b {
            true_lit_bytes()
        } else {
            false_lit_bytes()
        },
        JsonModel::Int(i) => int_bytes(i),
        JsonModel::Str(s) => str_lit_bytes(s),
        JsonModel::Arr(items) => seq![0x5bu8] + arr_bytes(items) + seq![0x5du8],
        JsonModel::Obj(fields) => seq![0x7bu8] + obj_bytes(fields) + seq![0x7du8],
    }
}

/// Array items serialized and joined by commas.
pub open spec fn arr_bytes(items: Seq<JsonModel>) -> Seq<u8>
    decreases items,
{
    if items.len() == 0 {
        Seq::empty()
    } else if items.len() == 1 {
        json_bytes(items[0])
    } else {
        json_bytes(items[0]) + seq![0x2cu8] + arr_bytes(items.drop_first())
    }
}

/// One object field: quoted key, colon, value.
pub open spec fn field_bytes(f: (Seq<u8>, JsonModel)) -> Seq<u8>
    decreases f,
{
    str_lit_bytes(f.0) + seq![0x3au8] + json_bytes(f.1)
}

/// Object fields serialized and joined by commas.
pub open spec fn obj_bytes(fields: Seq<(Seq<u8>, JsonModel)>) -> Seq<u8>
    decreases fields,
{
    if fields.len() == 0 {
        Seq::empty()
    } else if fields.len() == 1 {
        field_bytes(fields[0])
    } else {
        field_bytes(fields[0]) + seq![0x2cu8] + obj_bytes(fields.drop_first())
    }
}

proof fn lemma_esc_snoc(s: Seq<u8>, b: u8)
    ensures
        esc_bytes(s.push(b)) == esc_bytes(s) + esc_byte(b),
    decreases s.len(),
{
    if s.len() == 0 {
        assert(s.push(b).drop_first() =~= Seq::<u8>::empty());
        assert(s.push(b)[0] == b);
        assert(esc_bytes(s.push(b).drop_first()) == Seq::<u8>::empty());
        assert(esc_bytes(s) == Seq::<u8>::empty());
        assert(esc_bytes(s.push(b)) =~= esc_bytes(s) + esc_byte(b));
    } else {
        assert(s.push(b).drop_first() =~= s.drop_first().push(b));
        assert(s.push(b)[0] == s[0]);
        lemma_esc_snoc(s.drop_first(), b);
        assert(esc_bytes(s.push(b)) == esc_byte(s[0]) + (esc_bytes(s.drop_first()) + esc_byte(b)));
        assert(esc_byte(s[0]) + (esc_bytes(s.drop_first()) + esc_byte(b)) =~= (esc_byte(s[0])
            + esc_bytes(s.drop_first())) + esc_byte(b));
    }
}

proof fn lemma_arr_view_snoc(items: Seq<Json>, x: Json)
    ensures
        arr_view(items.push(x)) == arr_view(items).push(json_view(x)),
    decreases items.len(),
{
    if items.len() == 0 {
        assert(items.push(x).drop_first() =~= Seq::<Json>::empty());
        assert(items.push(x)[0] == x);
        assert(arr_view(items.push(x).drop_first()) == Seq::<JsonModel>::empty());
        assert(arr_view(items) == Seq::<JsonModel>::empty());
        assert(arr_view(items.push(x)) =~= arr_view(items).push(json_view(x)));
    } else {
        assert(items.push(x).drop_first() =~= items.drop_first().push(x));
        assert(items.push(x)[0] == items[0]);
        lemma_arr_view_snoc(items.drop_first(), x);
        assert(arr_view(items.push(x)) == seq![json_view(items[0])] + arr_view(
            items.drop_first(),
        ).push(json_view(x)));
        assert(seq![json_view(items[0])] + arr_view(items.drop_first()).push(json_view(x))
            =~= (seq![json_view(items[0])] + arr_view(items.drop_first())).push(json_view(x)));
    }
}

proof fn lemma_obj_view_snoc(fields: Seq<(Vec<u8>, Json)>, x: (Vec<u8>, Json))
    ensures
        obj_view(fields.push(x)) == obj_view(fields).push((x.0@, json_view(x.1))),
    decreases fields.len(),
{
    if fields.len() == 0 {
        assert(fields.push(x).drop_first() =~= Seq::<(Vec<u8>, Json)>::empty());
        assert(fields.push(x)[0] == x);
        assert(obj_view(fields.push(x).drop_first()) == Seq::<(Seq<u8>, JsonModel)>::empty());
        assert(obj_view(fields) == Seq::<(Seq<u8>, JsonModel)>::empty());
        assert(obj_view(fields.push(x)) =~= obj_view(fields).push((x.0@, json_view(x.1))));
    } else {
        assert(fields.push(x).drop_first() =~= fields.drop_first().push(x));
        assert(fields.push(x)[0] == fields[0]);
        lemma_obj_view_snoc(fields.drop_first(), x);
        assert(obj_view(fields.push(x)) == seq![(fields[0].0@, json_view(fields[0].1))] + obj_view(
            fields.drop_first(),
        ).push((x.0@, json_view(x.1))));
        assert(seq![(fields[0].0@, json_view(fields[0].1))] + obj_view(fields.drop_first()).push(
            (x.0@, json_view(x.1)),
        ) =~= (seq![(fields[0].0@, json_view(fields[0].1))] + obj_view(fields.drop_first())).push(
            (x.0@, json_view(x.1)),
        ));
    }
}

proof fn lemma_arr_snoc(items: Seq<JsonModel>, x: JsonModel)
    requires
        items.len() >= 1,
    ensures
        arr_bytes(items.push(x)) == arr_bytes(items) + seq![0x2cu8] + json_bytes(x),
    decreases items.len(),
{
    if items.len() == 1 {
        assert(items.push(x).drop_first() =~= seq![x]);
        assert(items.push(x)[0] == items[0]);
        assert(arr_bytes(items.push(x).drop_first()) == json_bytes(x));
        assert(arr_bytes(items) == json_bytes(items[0]));
        assert(arr_bytes(items.push(x)) =~= arr_bytes(items) + seq![0x2cu8] + json_bytes(x));
    } else {
        assert(items.push(x).drop_first() =~= items.drop_first().push(x));
        assert(items.push(x)[0] == items[0]);
        lemma_arr_snoc(items.drop_first(), x);
        assert(arr_bytes(items.push(x)) == json_bytes(items[0]) + seq![0x2cu8] + (arr_bytes(
            items.drop_first(),
        ) + seq![0x2cu8] + json_bytes(x)));
        assert(json_bytes(items[0]) + seq![0x2cu8] + (arr_bytes(items.drop_first()) + seq![0x2cu8]
            + json_bytes(x)) =~= (json_bytes(items[0]) + seq![0x2cu8] + arr_bytes(
            items.drop_first(),
        )) + seq![0x2cu8] + json_bytes(x));
    }
}

proof fn lemma_obj_snoc(fields: Seq<(Seq<u8>, JsonModel)>, x: (Seq<u8>, JsonModel))
    requires
        fields.len() >= 1,
    ensures
        obj_bytes(fields.push(x)) == obj_bytes(fields) + seq![0x2cu8] + field_bytes(x),
    decreases fields.len(),
{
    if fields.len() == 1 {
        assert(fields.push(x).drop_first() =~= seq![x]);
        assert(fields.push(x)[0] == fields[0]);
        assert(obj_bytes(fields.push(x).drop_first()) == field_bytes(x));
        assert(obj_bytes(fields) == field_bytes(fields[0]));
        assert(obj_bytes(fields.push(x)) =~= obj_bytes(fields) + seq![0x2cu8] + field_bytes(x));
    } else {
        assert(fields.push(x).drop_first() =~= fields.drop_first().push(x));
        assert(fields.push(x)[0] == fields[0]);
        lemma_obj_snoc(fields.drop_first(), x);
        assert(obj_bytes(fields.push(x)) == field_bytes(fields[0]) + seq![0x2cu8] + (obj_bytes(
            fields.drop_first(),
        ) + seq![0x2cu8] + field_bytes(x)));
        assert(field_bytes(fields[0]) + seq![0x2cu8] + (obj_bytes(fields.drop_first())
            + seq![0x2cu8] + field_bytes(x)) =~= (field_bytes(fields[0]) + seq![0x2cu8] + obj_bytes(
            fields.drop_first(),
        )) + seq![0x2cu8] + field_bytes(x));
    }
}

/// The lowercase hexadecimal digit of `n < 16` at run time.
fn hex_digit_exec(n: u8) -> (r: u8)
    requires
        n < 16,
    ensures
        r == hex_digit(n),
{
    if n < 10 {
        0x30 + n
    } else {
        0x57 + n
    }
}

/// Appends the escaped content of `s` to `out`.
fn push_escaped(out: &mut Vec<u8>, s: &[u8])
    ensures
        final(out)@ == old(out)@ + esc_bytes(s@),
{
    let ghost start = out@;
    let mut i: usize = 0;
    while i < s.len()
        invariant
            i <= s@.len(),
            out@ == start + esc_bytes(s@.take(i as int)),
        decreases s@.len() - i,
    {
        let b = s[i];
        if b == 0x22 {
            out.push(0x5c);
            out.push(0x22);
        } else if b == 0x5c {
            out.push(0x5c);
            out.push(0x5c);
        } else if b == 0x08 {
            out.push(0x5c);
            out.push(0x62);
        } else if b == 0x09 {
            out.push(0x5c);
            out.push(0x74);
        } else if b == 0x0a {
            out.push(0x5c);
            out.push(0x6e);
        } else if b == 0x0c {
            out.push(0x5c);
            out.push(0x66);
        } else if b == 0x0d {
            out.push(0x5c);
            out.push(0x72);
        } else if b < 0x20 {
            out.push(0x5c);
            out.push(0x75);
            out.push(0x30);
            out.push(0x30);
            out.push(hex_digit_exec(b / 16));
            out.push(hex_digit_exec(b % 16));
        } else {
            out.push(b);
        }
        proof {
            assert(s@.take(i as int + 1) =~= s@.take(i as int).push(b));
            lemma_esc_snoc(s@.take(i as int), b);
            assert(out@ =~= start + esc_bytes(s@.take(i as int + 1)));
        }
        i += 1;
    }
    proof {
        assert(s@.take(s@.len() as int) =~= s@);
    }
}

/// Appends a JSON string literal holding `s` to `out`.
fn push_str_lit(out: &mut Vec<u8>, s: &[u8])
    ensures
        final(out)@ == old(out)@ + str_lit_bytes(s@),
{
    out.push(0x22);
    push_escaped(out, s);
    out.push(0x22);
    assert(out@ =~= old(out)@ + str_lit_bytes(s@));
}

/// `i` rendered in decimal ASCII, with a minus sign when negative.
pub fn int_to_dec(i: i64) -> (r: Vec<u8>)
    ensures
        r@ == int_bytes(i as int),
{
    if i >= 0 {
        u64_to_dec(i as u64)
    } else {
        let mag: u64 = ((-(i + 1)) as u64) + 1;
        assert(mag as nat == (-(i as int)) as nat);
        let mut v: Vec<u8> = Vec::new();
        v.push(0x2d);
        let mut digits = u64_to_dec(mag);
        v.append(&mut digits);
        assert(v@ =~= int_bytes(i as int));
        v
    }
}

impl Json {
    /// The document's compact serialization.
    #[verifier::loop_isolation(false)]
    pub fn to_bytes(&self) -> (r: Vec<u8>)
        ensures
            r@ == json_bytes(self@),
        decreases *self,
    {
        match self {
            Json::Null => make_null_lit(),
            Json::Bool(b) => if *b {
                make_true_lit()
            } else {
                make_false_lit()
            },
            Json::Int(i) => int_to_dec(*i),
            Json::Str(s) => {
                let mut out: Vec<u8> = Vec::new();
                push_str_lit(&mut out, s.as_slice());
                assert(out@ =~= json_bytes(self@));
                out
            },
            Json::Arr(items) => {
                let mut out: Vec<u8> = Vec::new();
                out.push(0x5b);
                let mut i: usize = 0;
                while i < items.len()
                    invariant
                        i <= items@.len(),
                        out@ == seq![0x5bu8] + arr_bytes(arr_view(items@.take(i as int))),
                    decreases items@.len() - i,
                {
                    if i > 0 {
                        out.push(0x2c);
                    }
                    let mut piece = items[i].to_bytes();
                    out.append(&mut piece);
                    proof {
                        let pre = items@.take(i as int);
                        assert(items@.take(i as int + 1) =~= pre.push(items@[i as int]));
                        lemma_arr_view_snoc(pre, items@[i as int]);
                        if i > 0 {
                            lemma_arr_snoc(arr_view(pre), json_view(items@[i as int]));
                        } else {
                            assert(arr_view(pre).push(json_view(items@[i as int])) =~= seq![
                                json_view(items@[i as int]),
                            ]);
                        }
                        assert(out@ =~= seq![0x5bu8] + arr_bytes(arr_view(items@.take(i as int + 1))));
                    }
                    i += 1;
                }
                out.push(0x5d);
                proof {
                    assert(items@.take(items@.len() as int) =~= items@);
                    assert(out@ =~= json_bytes(self@));
                }
                out
            },
            Json::Obj(fields) => {
                let mut out: Vec<u8> = Vec::new();
                out.push(0x7b);
                let mut i: usize = 0;
                while i < fields.len()
                    invariant
                        i <= fields@.len(),
                        out@ == seq![0x7bu8] + obj_bytes(obj_view(fields@.take(i as int))),
                    decreases fields@.len() - i,
                {
                    if i > 0 {
                        out.push(0x2c);
                    }
                    push_str_lit(&mut out, fields[i].0.as_slice());
                    out.push(0x3a);
                    let mut piece = fields[i].1.to_bytes();
                    out.append(&mut piece);
                    proof {
                        let pre = fields@.take(i as int);
                        let x = fields@[i as int];
                        assert(fields@.take(i as int + 1) =~= pre.push(x));
                        assert(field_bytes((x.0@, json_view(x.1))) == str_lit_bytes(x.0@)
                            + seq![0x3au8] + json_bytes(json_view(x.1)));
                        lemma_obj_view_snoc(pre, x);
                        if i > 0 {
                            lemma_obj_snoc(obj_view(pre), (x.0@, json_view(x.1)));
                        } else {
                            assert(obj_view(pre).push((x.0@, json_view(x.1))) =~= seq![
                                (x.0@, json_view(x.1)),
                            ]);
                        }
                        assert(out@ =~= seq![0x7bu8] + obj_bytes(obj_view(fields@.take(i as int + 1))));
                    }
                    i += 1;
                }
                out.push(0x7d);
                proof {
                    assert(fields@.take(fields@.len() as int) =~= fields@);
                    assert(out@ =~= json_bytes(self@));
                }
                out
            },
        }
    }
}

} // verus!
