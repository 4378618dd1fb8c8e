use vstd::prelude::*;

use crate::schema::Param;
use crate::scalar::{
    field_error, field_error_text, opt_view, type_of, values_view, well_typed, Scalar, ScalarType,
    ScalarView,
};

verus! {

/// A member of a JSON object, as far as arguments are read from it.
#[derive(Clone, Debug)]
pub enum JsonField {
    Bool(bool),
    /// A number that fits a `u64`.
    U64(u64),
    Text(String),
    /// Any other value: null, another number, an array or an object.
    Other,
}

/// The model of a [`JsonField`].
pub enum JsonFieldView {
    Bool(bool),
    U64(u64),
    Text(Seq<char>),
    Other,
}

/// The model of an object's members, in order.
pub open spec fn fields_view(m: Seq<(String, JsonField)>) -> Seq<(Seq<char>, JsonFieldView)> {
    m.map_values(
        |x: (String, JsonField)|
            (x.0@, match x.1 {
                JsonField::Bool(b) => JsonFieldView::Bool(b),
                JsonField::U64(n) => JsonFieldView::U64(n),
                JsonField::Text(t) => JsonFieldView::Text(t@),
                JsonField::Other => JsonFieldView::Other,
            }),
    )
}

/// The members serde_json reads from `b` as a JSON object, or the debug text
/// of its error.
pub uninterp spec fn json_object_of(b: Seq<u8>) -> Result<Seq<(Seq<char>, JsonFieldView)>, Seq<char>>;

/// The pretty-printed JSON text of a value, as serde_json writes it.
pub uninterp spec fn json_bytes_of(v: ScalarView) -> Seq<u8>;

/// Relies on serde_json::from_slice into a map of JSON values: reads an
/// object's members (each key once), or gives the error's debug text, which
/// starts with `Error(`.
#[verifier::external_body]
fn parse_json_object(body: &[u8]) -> (r: Result<Vec<(String, JsonField)>, String>)
    ensures
        match r {
            Ok(m) => json_object_of(body@) == Ok::<_, Seq<char>>(fields_view(m@)),
            Err(e) => json_object_of(body@) == Err::<Seq<(Seq<char>, JsonFieldView)>, _>(e@)
                && e@.len() > 0,
        },
{
    match serde_json::from_slice::<std::collections::BTreeMap<String, serde_json::Value>>(body) {
        Ok(m) => Ok(m.into_iter().map(|(k, v)| (k, match v {
            serde_json::Value::Bool(b) => JsonField::Bool(b),
            serde_json::Value::Number(n) => n.as_u64().map_or(JsonField::Other, JsonField::U64),
            serde_json::Value::String(t) => JsonField::Text(t),
            _ => JsonField::Other,
        })).collect()),
        Err(e) => Err(format!("{:?}", e)),
    }
}

/// Relies on serde_json::to_vec_pretty, which cannot fail on a boolean, a
/// number or a string.
#[verifier::external_body]
fn write_json(v: &Scalar) -> (r: Vec<u8>)
    ensures
        r@ == json_bytes_of(v@),
{
    let j = match v {
        Scalar::Bool(b) => serde_json::Value::from(*b),
        Scalar::U64(n) => serde_json::Value::from(*n),
        Scalar::Text(s) => serde_json::Value::from(s.as_str()),
    };
    serde_json::to_vec_pretty(&j).unwrap_or_default()
}

/// The JSON text of a result value.
pub fn result_json(v: &Scalar) -> (r: Vec<u8>)
    ensures
        r@ == json_bytes_of(v@),
{
    write_json(v)
}

/// The last member named `key`, if any.
pub open spec fn json_lookup(fields: Seq<(Seq<char>, JsonFieldView)>, key: Seq<char>) -> Option<JsonFieldView>
    decreases fields.len(),
{
    if fields.len() == 0 {
        None
    } else if fields.last().0 == key {
        Some(fields.last().1)
    } else {
        json_lookup(fields.drop_last(), key)
    }
}

/// The argument that member `name` gives for a parameter of type `ty`.
pub open spec fn json_member(fields: Seq<(Seq<char>, JsonFieldView)>, name: Seq<char>, ty: ScalarType) -> Option<ScalarView> {
    match (json_lookup(fields, name), ty) {
        (Some(JsonFieldView::Bool(b)), ScalarType::Bool) => Some(ScalarView::Bool(b)),
        (Some(JsonFieldView::U64(n)), ScalarType::U64) => Some(ScalarView::U64(n)),
        (Some(JsonFieldView::Text(t)), ScalarType::Text) => Some(ScalarView::Text(t)),
        _ => None,
    }
}

/// Every parameter has a readable member.
pub open spec fn json_complete(fields: Seq<(Seq<char>, JsonFieldView)>, params: Seq<Param>) -> bool {
    forall|i: int| 0 <= i < params.len() ==> (#[trigger] json_member(fields, params[i].name@, params[i].ty)) is Some
}

/// `args` holds, in order, each parameter's member.
pub open spec fn json_args(fields: Seq<(Seq<char>, JsonFieldView)>, params: Seq<Param>, args: Seq<ScalarView>) -> bool {
    &&& args.len() == params.len()
    &&& forall|i: int| 0 <= i < params.len() ==> Some(#[trigger] args[i]) == json_member(fields, params[i].name@, params[i].ty)
}

/// `msg` names the first parameter without a readable member.
pub open spec fn json_missing(fields: Seq<(Seq<char>, JsonFieldView)>, params: Seq<Param>, msg: Seq<char>) -> bool {
    exists|k: int|
        0 <= k < params.len() && json_member(fields, params[k].name@, params[k].ty) is None && (forall|j: int|
            0 <= j < k ==> (#[trigger] json_member(fields, params[j].name@, params[j].ty)) is Some) && msg
            == #[trigger] field_error_text(params[k].name@)
}

/// Arguments read from an object have the parameters' types.
pub proof fn lemma_json_args_typed(fields: Seq<(Seq<char>, JsonFieldView)>, params: Seq<Param>, args: Seq<ScalarView>)
    requires
        json_args(fields, params, args),
    ensures
        well_typed(params.map_values(|p: Param| p.ty), args),
{
    assert forall|i: int| 0 <= i < args.len() implies type_of(#[trigger] args[i]) == params.map_values(|p: Param| p.ty)[i] by {
        assert(Some(args[i]) == json_member(fields, params[i].name@, params[i].ty));
    }
}

/// An object gives at most one argument list.
pub proof fn lemma_json_args_unique(
    fields: Seq<(Seq<char>, JsonFieldView)>,
    params: Seq<Param>,
    a: Seq<ScalarView>,
    b: Seq<ScalarView>,
)
    requires
        json_args(fields, params, a),
        json_args(fields, params, b),
    ensures
        a == b,
{
    assert forall|i: int| 0 <= i < a.len() implies a[i] == b[i] by {
        assert(Some(a[i]) == json_member(fields, params[i].name@, params[i].ty));
        assert(Some(b[i]) == json_member(fields, params[i].name@, params[i].ty));
    }
    assert(a =~= b);
}

/// Reads member `name` of an object as a value of type `ty`.
fn member_value(fields: &Vec<(String, JsonField)>, name: &String, ty: ScalarType) -> (r: Option<Scalar>)
    ensures
        opt_view(r) == json_member(fields_view(fields@), name@, ty),
{
    let ghost fv = fields_view(fields@);
    let mut found: Option<usize> = None;
    let mut i: usize = 0;
    while i < fields.len()
        invariant
            i <= fields@.len(),
            fv == fields_view(fields@),
            match found {
                Some(k) => k < i && json_lookup(fv.take(i as int), name@) == Some(fv[k as int].1)
                    && fv[k as int].1 == fields_view(seq![fields@[k as int]])[0].1,
                None => json_lookup(fv.take(i as int), name@) is None,
            },
        decreases fields@.len() - i,
    {
        proof {
            assert(fv.take(i as int + 1).drop_last() =~= fv.take(i as int));
            assert(fv.take(i as int + 1).last() == fv[i as int]);
        }
        if fields[i].0 == *name {
            found = Some(i);
        }
        i = i + 1;
    }
    proof {
        assert(fv.take(fields@.len() as int) =~= fv);
    }
    match found {
        Some(k) => match (&fields[k].1, ty) {
            (JsonField::Bool(b), ScalarType::Bool) => Some(Scalar::Bool(*b)),
            (JsonField::U64(n), ScalarType::U64) => Some(Scalar::U64(*n)),
            (JsonField::Text(t), ScalarType::Text) => Some(Scalar::Text(t.clone())),
            _ => None,
        },
        None => None,
    }
}

/// Decodes the arguments of a POST route from a JSON object whose members
/// are named after the parameters. A body that is no JSON object is refused
/// with serde_json's message; one that lacks a parameter's member, or gives
/// it another type, is refused with a message naming the first such one.
pub fn decode_json_body(params: &Vec<Param>, body: &[u8]) -> (r: Result<Vec<Scalar>, String>)
    ensures
        match json_object_of(body@) {
            Err(e) => r matches Err(m) && m@ == e,
            Ok(fields) => (r is Ok == json_complete(fields, params@)) && match r {
                Ok(a) => json_args(fields, params@, values_view(a@)),
                Err(m) => json_missing(fields, params@, m@),
            },
        },
        r matches Err(m) ==> m@.len() > 0,
{
    let fields = match parse_json_object(body) {
        Ok(f) => f,
        Err(e) => {
            return Err(e);
        },
    };
    let ghost fv = fields_view(fields@);
    let mut args: Vec<Scalar> = Vec::new();
    let mut i: usize = 0;
    while i < params.len()
        invariant
            i <= params@.len(),
            args@.len() == i,
            json_object_of(body@) == Ok::<_, Seq<char>>(fv),
            fv == fields_view(fields@),
            forall|j: int| 0 <= j < i ==> Some(#[trigger] args@[j]@) == json_member(fv, params@[j].name@, params@[j].ty),
        decreases params@.len() - i,
    {
        match member_value(&fields, &params[i].name, params[i].ty) {
            Some(v) => {
                args.push(v);
            },
            None => {
                let m = field_error(&params[i].name);
                proof {
                    assert(!json_complete(fv, params@));
                    assert forall|j: int| 0 <= j < i implies (#[trigger] json_member(fv, params@[j].name@, params@[j].ty)) is Some by {
                        assert(Some(args@[j]@) == json_member(fv, params@[j].name@, params@[j].ty));
                    }
                    assert(json_missing(fv, params@, m@));
                }
                return Err(m);
            },
        }
        i = i + 1;
    }
    proof {
        let a = values_view(args@);
        assert forall|j: int| 0 <= j < params@.len() implies Some(#[trigger] a[j]) == json_member(fv, params@[j].name@, params@[j].ty) by {
            assert(a[j] == args@[j]@);
        }
        assert forall|j: int| 0 <= j < params@.len() implies (#[trigger] json_member(fv, params@[j].name@, params@[j].ty)) is Some by {
            assert(Some(args@[j]@) == json_member(fv, params@[j].name@, params@[j].ty));
        }
    }
    Ok(args)
}

} // verus!
