use vstd::prelude::*;

use crate::scalar::{type_of, values_view, well_typed, Scalar, ScalarType, ScalarView};

verus! {

/// The bytes of a `u32` under bincode's standard configuration.
pub uninterp spec fn bincode_u32(v: u32) -> Seq<u8>;

/// The bytes of a `u64` under bincode's standard configuration.
pub uninterp spec fn bincode_u64(v: u64) -> Seq<u8>;

/// The bytes of a `bool` under bincode's standard configuration.
pub uninterp spec fn bincode_bool(v: bool) -> Seq<u8>;

/// The bytes of a string under bincode's standard configuration.
pub uninterp spec fn bincode_text(s: Seq<char>) -> Seq<u8>;

/// The suffix of `b` that starts at `at`.
pub open spec fn from_offset(b: Seq<u8>, at: int) -> Seq<u8> {
    b.subrange(at, b.len() as int)
}

/// Relies on bincode::encode_to_vec for a `u32` (the standard configuration
/// sets no limit, so writing into a vector cannot fail; a value below 251 is
/// one byte).
#[verifier::external_body]
fn encode_u32(v: u32) -> (r: Vec<u8>)
    ensures
        r@ == bincode_u32(v),
        v < 251 ==> r@ == seq![v as u8],
{
    bincode::encode_to_vec(v, bincode::config::standard()).unwrap_or_default()
}

/// Relies on bincode::encode_to_vec for a `u64` (cannot fail, and a value
/// below 251 is one byte, as above).
#[verifier::external_body]
pub(crate) fn encode_u64(v: u64) -> (r: Vec<u8>)
    ensures
        r@ == bincode_u64(v),
        v < 251 ==> r@ == seq![v as u8],
{
    bincode::encode_to_vec(v, bincode::config::standard()).unwrap_or_default()
}

/// Relies on bincode::encode_to_vec for a `bool`: one byte, 1 or 0.
#[verifier::external_body]
fn encode_bool(v: bool) -> (r: Vec<u8>)
    ensures
        r@ == bincode_bool(v),
        r@ == seq![if v { 1u8 } else { 0u8 }],
{
    bincode::encode_to_vec(v, bincode::config::standard()).unwrap_or_default()
}

/// Relies on bincode::encode_to_vec for a `&str` (cannot fail, as above).
#[verifier::external_body]
fn encode_text(s: &str) -> (r: Vec<u8>)
    ensures
        r@ == bincode_text(s@),
{
    bincode::encode_to_vec(s, bincode::config::standard()).unwrap_or_default()
}

/// Relies on bincode::decode_from_slice for a `u32`: it reads back what
/// encode_to_vec wrote, ignores what follows, and reports the bytes it read.
#[verifier::external_body]
fn decode_u32_at(b: &[u8], at: usize) -> (r: Option<(u32, usize)>)
    requires
        at <= b@.len(),
    ensures
        forall|v: u32, rest: Seq<u8>|
            from_offset(b@, at as int) == #[trigger] (bincode_u32(v) + rest) ==> r == Some(
                (v, bincode_u32(v).len() as usize),
            ),
        r matches Some((_, n)) ==> at + n <= b@.len(),
{
    bincode::decode_from_slice::<u32, _>(&b[at..], bincode::config::standard()).ok()
}

/// Relies on bincode::decode_from_slice for a `u64` (as for `u32`).
#[verifier::external_body]
pub(crate) fn decode_u64_at(b: &[u8], at: usize) -> (r: Option<(u64, usize)>)
    requires
        at <= b@.len(),
    ensures
        forall|v: u64, rest: Seq<u8>|
            from_offset(b@, at as int) == #[trigger] (bincode_u64(v) + rest) ==> r == Some(
                (v, bincode_u64(v).len() as usize),
            ),
        r matches Some((_, n)) ==> at + n <= b@.len(),
{
    bincode::decode_from_slice::<u64, _>(&b[at..], bincode::config::standard()).ok()
}

/// Relies on bincode::decode_from_slice for a `bool` (as for `u32`).
#[verifier::external_body]
fn decode_bool_at(b: &[u8], at: usize) -> (r: Option<(bool, usize)>)
    requires
        at <= b@.len(),
    ensures
        forall|v: bool, rest: Seq<u8>|
            from_offset(b@, at as int) == #[trigger] (bincode_bool(v) + rest) ==> r == Some(
                (v, bincode_bool(v).len() as usize),
            ),
        r matches Some((_, n)) ==> at + n <= b@.len(),
{
    bincode::decode_from_slice::<bool, _>(&b[at..], bincode::config::standard()).ok()
}

/// Relies on bincode::borrow_decode_from_slice for a `&str` (as for `u32`),
/// which checks the announced length against the bytes left before reading.
#[verifier::external_body]
fn decode_text_at(b: &[u8], at: usize) -> (r: Option<(String, usize)>)
    requires
        at <= b@.len(),
    ensures
        forall|t: Seq<char>, rest: Seq<u8>|
            from_offset(b@, at as int) == #[trigger] (bincode_text(t) + rest) ==> r.is_some()
                && r.unwrap().0@ == t && r.unwrap().1 == bincode_text(t).len(),
        r matches Some((_, n)) ==> at + n <= b@.len(),
{
    match bincode::borrow_decode_from_slice::<&str, _>(&b[at..], bincode::config::standard()) {
        Ok((t, n)) => Some((t.to_owned(), n)),
        Err(_) => None,
    }
}

/// The bytes of one value.
pub open spec fn value_bytes(v: ScalarView) -> Seq<u8> {
    match v {
        ScalarView::Bool(b) => bincode_bool(b),
        ScalarView::U64(n) => bincode_u64(n),
        ScalarView::Text(s) => bincode_text(s),
    }
}

/// The bytes of a sequence of values: each value's bytes, in order.
pub open spec fn values_bytes(vals: Seq<ScalarView>) -> Seq<u8>
    decreases vals.len(),
{
    if vals.len() == 0 {
        Seq::empty()
    } else {
        values_bytes(vals.drop_last()) + value_bytes(vals.last())
    }
}

/// The bytes of a call: the operation's index, then its arguments in order.
pub open spec fn activation_bytes(op: u32, args: Seq<ScalarView>) -> Seq<u8> {
    bincode_u32(op) + values_bytes(args)
}

/// Encodes one value.
pub fn encode_value(v: &Scalar) -> (r: Vec<u8>)
    ensures
        r@ == value_bytes(v@),
{
    match v {
        Scalar::Bool(b) => encode_bool(*b),
        Scalar::U64(n) => encode_u64(*n),
        Scalar::Text(s) => encode_text(s.as_str()),
    }
}

/// Encodes a call to operation `op` with `args`.
pub fn encode_activation(op: u32, args: &Vec<Scalar>) -> (r: Vec<u8>)
    ensures
        r@ == activation_bytes(op, values_view(args@)),
{
    let mut out = encode_u32(op);
    let mut i: usize = 0;
    while i < args.len()
        invariant
            i <= args@.len(),
            out@ == bincode_u32(op) + values_bytes(values_view(args@.take(i as int))),
        decreases args@.len() - i,
    {
        let mut bytes = encode_value(&args[i]);
        proof {
            let next = values_view(args@.take(i as int + 1));
            assert(next.drop_last() =~= values_view(args@.take(i as int)));
            assert(next.last() == args@[i as int]@);
        }
        out.append(&mut bytes);
        proof {
            vstd::seq_lib::lemma_concat_associative(
                bincode_u32(op),
                values_bytes(values_view(args@.take(i as int))),
                value_bytes(args@[i as int]@),
            );
        }
        i = i + 1;
    }
    assert(args@.take(args@.len() as int) =~= args@);
    out
}

/// Decodes one value of type `ty` that starts at `at`.
pub fn decode_value_at(b: &[u8], at: usize, ty: ScalarType) -> (r: Option<(Scalar, usize)>)
    requires
        at <= b@.len(),
    ensures
        forall|v: ScalarView, rest: Seq<u8>|
            type_of(v) == ty && from_offset(b@, at as int) == #[trigger] (value_bytes(v) + rest)
                ==> (r matches Some((w, n)) && w@ == v && n == value_bytes(v).len()),
        r matches Some((w, n)) ==> type_of(w@) == ty && at + n <= b@.len(),
{
    let total: usize = b.len();
    assert(b@.len() == total);
    match ty {
        ScalarType::Bool => {
            let d = decode_bool_at(b, at);
            proof {
                assert forall|v: ScalarView, rest: Seq<u8>|
                    type_of(v) == ty && from_offset(b@, at as int) == #[trigger] (value_bytes(v)
                        + rest) implies value_bytes(v).len() <= b@.len() && d == Some(
                    (v->Bool_0, value_bytes(v).len() as usize),
                ) by {
                    assert(from_offset(b@, at as int) == bincode_bool(v->Bool_0) + rest);
                    assert(value_bytes(v).len() <= b@.len());
                }
            }
            match d {
                Some((x, n)) => Some((Scalar::Bool(x), n)),
                None => None,
            }
        },
        ScalarType::U64 => {
            let d = decode_u64_at(b, at);
            proof {
                assert forall|v: ScalarView, rest: Seq<u8>|
                    type_of(v) == ty && from_offset(b@, at as int) == #[trigger] (value_bytes(v)
                        + rest) implies value_bytes(v).len() <= b@.len() && d == Some((v->U64_0, value_bytes(v).len() as usize)) by {
                    assert(from_offset(b@, at as int) == bincode_u64(v->U64_0) + rest);
                    assert(value_bytes(v).len() <= b@.len());
                }
            }
            match d {
                Some((x, n)) => Some((Scalar::U64(x), n)),
                None => None,
            }
        },
        ScalarType::Text => {
            let d = decode_text_at(b, at);
            proof {
                assert forall|v: ScalarView, rest: Seq<u8>|
                    type_of(v) == ty && from_offset(b@, at as int) == #[trigger] (value_bytes(v)
                        + rest) implies d.is_some() && d.unwrap().0@ == v->Text_0 && d.unwrap().1
                    == value_bytes(v).len() by {
                    assert(from_offset(b@, at as int) == bincode_text(v->Text_0) + rest);
                    assert(value_bytes(v).len() <= b@.len());
                }
            }
            match d {
                Some((x, n)) => Some((Scalar::Text(x), n)),
                None => None,
            }
        },
    }
}

/// The bytes of two sequences of values, one after the other, are the bytes
/// of the two sequences joined.
pub proof fn lemma_values_bytes_append(a: Seq<ScalarView>, b: Seq<ScalarView>)
    ensures
        values_bytes(a + b) == values_bytes(a) + values_bytes(b),
    decreases b.len(),
{
    if b.len() == 0 {
        assert(a + b =~= a);
        assert(values_bytes(b) =~= Seq::<u8>::empty());
        assert(values_bytes(a) + values_bytes(b) =~= values_bytes(a));
    } else {
        lemma_values_bytes_append(a, b.drop_last());
        assert((a + b).drop_last() =~= a + b.drop_last());
        assert((a + b).last() == b.last());
        vstd::seq_lib::lemma_concat_associative(
            values_bytes(a),
            values_bytes(b.drop_last()),
            value_bytes(b.last()),
        );
    }
}

/// The bytes of a one-value sequence are that value's bytes.
proof fn lemma_values_bytes_single(x: ScalarView)
    ensures
        values_bytes(seq![x]) == value_bytes(x),
{
    let one = seq![x];
    assert(one.drop_last() =~= Seq::<ScalarView>::empty());
    assert(values_bytes(one.drop_last()) =~= Seq::<u8>::empty());
    assert(values_bytes(one) =~= value_bytes(x));
}

/// Splits the bytes of `vals` at the value of index `i`.
proof fn lemma_values_bytes_at(vals: Seq<ScalarView>, i: int)
    requires
        0 <= i < vals.len(),
    ensures
        values_bytes(vals) == values_bytes(vals.take(i)) + (value_bytes(vals[i]) + values_bytes(
            vals.skip(i + 1),
        )),
{
    let one = seq![vals[i]];
    lemma_values_bytes_single(vals[i]);
    lemma_values_bytes_append(one, vals.skip(i + 1));
    assert(one + vals.skip(i + 1) =~= vals.skip(i));
    lemma_values_bytes_append(vals.take(i), vals.skip(i));
    assert(vals.take(i) + vals.skip(i) =~= vals);
}

/// Decodes values of the types `tys`, in order, starting at `at`.
pub fn decode_values_at(b: &[u8], at: usize, tys: &Vec<ScalarType>) -> (r: Option<(Vec<Scalar>, usize)>)
    requires
        at <= b@.len(),
    ensures
        forall|vals: Seq<ScalarView>, rest: Seq<u8>|
            well_typed(tys@, vals) && from_offset(b@, at as int) == #[trigger] (values_bytes(vals)
                + rest) ==> (r matches Some((ws, n)) && values_view(ws@) == vals && n
                == values_bytes(vals).len()),
        r matches Some((ws, n)) ==> well_typed(tys@, values_view(ws@)) && at + n <= b@.len(),
{
    let total: usize = b.len();
    let mut out: Vec<Scalar> = Vec::new();
    let mut pos: usize = at;
    let mut i: usize = 0;
    while i < tys.len()
        invariant
            total == b@.len(),
            at <= pos <= total,
            i <= tys@.len(),
            out@.len() == i,
            forall|j: int| 0 <= j < i ==> type_of(#[trigger] out@[j]@) == tys@[j],
            forall|vals: Seq<ScalarView>, rest: Seq<u8>|
                well_typed(tys@, vals) && from_offset(b@, at as int) == #[trigger] (values_bytes(
                    vals,
                ) + rest) ==> values_view(out@) == vals.take(i as int) && pos == at + values_bytes(
                    vals.take(i as int),
                ).len(),
        decreases tys@.len() - i,
    {
        let d = decode_value_at(b, pos, tys[i]);
        proof {
            assert forall|vals: Seq<ScalarView>, rest: Seq<u8>|
                well_typed(tys@, vals) && from_offset(b@, at as int) == #[trigger] (values_bytes(
                    vals,
                ) + rest) implies d matches Some((w, n)) && w@ == vals[i as int] && n
                == value_bytes(vals[i as int]).len() by {
                let tail = values_bytes(vals.skip(i as int + 1)) + rest;
                lemma_values_bytes_at(vals, i as int);
                let pre = values_bytes(vals.take(i as int));
                vstd::seq_lib::lemma_concat_associative(
                    pre,
                    value_bytes(vals[i as int]) + values_bytes(vals.skip(i as int + 1)),
                    rest,
                );
                vstd::seq_lib::lemma_concat_associative(
                    value_bytes(vals[i as int]),
                    values_bytes(vals.skip(i as int + 1)),
                    rest,
                );
                assert(from_offset(b@, pos as int) =~= from_offset(b@, at as int).subrange(
                    pre.len() as int,
                    from_offset(b@, at as int).len() as int,
                ));
                assert(from_offset(b@, pos as int) =~= value_bytes(vals[i as int]) + tail);
                assert(type_of(vals[i as int]) == tys@[i as int]);
            }
        }
        match d {
            Some((w, n)) => {
                proof {
                    assert forall|vals: Seq<ScalarView>, rest: Seq<u8>|
                        well_typed(tys@, vals) && from_offset(b@, at as int) == #[trigger] (
                        values_bytes(vals) + rest) implies values_view(out@.push(w)) == vals.take(
                        i as int + 1,
                    ) && pos + n == at + values_bytes(vals.take(i as int + 1)).len() by {
                        let one = seq![vals[i as int]];
                        lemma_values_bytes_single(vals[i as int]);
                        lemma_values_bytes_append(vals.take(i as int), one);
                        assert(vals.take(i as int) + one =~= vals.take(i as int + 1));
                        assert(values_view(out@.push(w)) =~= vals.take(i as int + 1));
                    }
                }
                out.push(w);
                pos = pos + n;
            },
            None => {
                return None;
            },
        }
        i = i + 1;
    }
    proof {
        assert(values_view(out@).len() == tys@.len());
        assert forall|j: int| 0 <= j < values_view(out@).len() implies type_of(
            #[trigger] values_view(out@)[j],
        ) == tys@[j] by {
            assert(type_of(out@[j]@) == tys@[j]);
        }
        assert forall|vals: Seq<ScalarView>, rest: Seq<u8>|
            well_typed(tys@, vals) && from_offset(b@, at as int) == #[trigger] (values_bytes(vals)
                + rest) implies values_view(out@) == vals && pos - at == values_bytes(vals).len() by {
            assert(vals.take(i as int) =~= vals);
        }
    }
    Some((out, pos - at))
}

/// Decodes a call: an operation index below `param_types.len()`, then the
/// arguments of that operation's parameter types.
pub fn decode_activation(b: &[u8], param_types: &Vec<Vec<ScalarType>>) -> (r: Option<(u32, Vec<Scalar>)>)
    ensures
        forall|op: u32, args: Seq<ScalarView>, rest: Seq<u8>|
            op < param_types@.len() && well_typed(param_types@[op as int]@, args) && b@
                == #[trigger] (activation_bytes(op, args) + rest) ==> (r matches Some((o, ws)) && o
                == op && values_view(ws@) == args),
        r matches Some((o, ws)) ==> o < param_types@.len() && well_typed(
            param_types@[o as int]@,
            values_view(ws@),
        ),
{
    let total: usize = b.len();
    let d = decode_u32_at(b, 0);
    proof {
        assert forall|op: u32, args: Seq<ScalarView>, rest: Seq<u8>|
            op < param_types@.len() && well_typed(param_types@[op as int]@, args) && b@
                == #[trigger] (activation_bytes(op, args) + rest) implies bincode_u32(op).len()
            <= total && d == Some(
            (op, bincode_u32(op).len() as usize),
        ) by {
            vstd::seq_lib::lemma_concat_associative(bincode_u32(op), values_bytes(args), rest);
            assert(from_offset(b@, 0) =~= b@);
        }
    }
    match d {
        Some((op, n)) => {
            if op as usize >= param_types.len() {
                return None;
            }
            let v = decode_values_at(b, n, &param_types[op as usize]);
            proof {
                assert forall|o: u32, args: Seq<ScalarView>, rest: Seq<u8>|
                    o < param_types@.len() && well_typed(param_types@[o as int]@, args) && b@
                        == #[trigger] (activation_bytes(o, args) + rest) implies v matches Some(
                    (ws, _),
                ) && o == op && values_view(ws@) == args by {
                    vstd::seq_lib::lemma_concat_associative(
                        bincode_u32(o),
                        values_bytes(args),
                        rest,
                    );
                    assert(from_offset(b@, n as int) =~= values_bytes(args) + rest);
                }
            }
            match v {
                Some((ws, _)) => Some((op, ws)),
                None => None,
            }
        },
        None => None,
    }
}

} // verus!
