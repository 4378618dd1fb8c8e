use vstd::prelude::*;

use crate::schema::Param;
use crate::scalar::{
    field_error, field_error_text, type_of, well_typed, Scalar, ScalarType, ScalarView,
};

verus! {

/// The pairs that serde_urlencoded reads from a query string, or `None`
/// where it refuses the string.
pub uninterp spec fn form_pairs_of(q: Seq<char>) -> Option<Seq<(Seq<char>, Seq<char>)>>;

/// The number that `str::parse::<u64>` reads from a text, or `None` where it
/// refuses it.
pub uninterp spec fn decimal_u64_of(t: Seq<char>) -> Option<u64>;

/// The models of decoded pairs.
pub open spec fn pairs_view(p: Seq<(String, String)>) -> Seq<(Seq<char>, Seq<char>)> {
    p.map_values(|x: (String, String)| (x.0@, x.1@))
}

/// Relies on serde_urlencoded::from_str: splits a query string into its
/// percent-decoded name/value pairs, in order.
#[verifier::external_body]
fn parse_form(q: &str) -> (r: Option<Vec<(String, String)>>)
    ensures
        match r {
            Some(p) => form_pairs_of(q@) == Some(pairs_view(p@)),
            None => form_pairs_of(q@) is None,
        },
{
    serde_urlencoded::from_str::<Vec<(String, String)>>(q).ok()
}

/// Relies on `str::parse::<u64>`, the parse serde_urlencoded applies to a
/// numeric field.
#[verifier::external_body]
fn parse_u64(t: &str) -> (r: Option<u64>)
    ensures
        r == decimal_u64_of(t@),
{
    t.parse::<u64>().ok()
}

/// The number of pairs named `key`.
pub open spec fn key_count(pairs: Seq<(Seq<char>, Seq<char>)>, key: Seq<char>) -> nat
    decreases pairs.len(),
{
    if pairs.len() == 0 {
        0
    } else {
        key_count(pairs.drop_last(), key) + if pairs.last().0 == key {
            1nat
        } else {
            0nat
        }
    }
}

/// The value of the last pair named `key`.
pub open spec fn key_value(pairs: Seq<(Seq<char>, Seq<char>)>, key: Seq<char>) -> Seq<char>
    decreases pairs.len(),
{
    if pairs.len() == 0 {
        Seq::empty()
    } else if pairs.last().0 == key {
        pairs.last().1
    } else {
        key_value(pairs.drop_last(), key)
    }
}

/// The text `true`.
pub open spec fn true_text() -> Seq<char> {
    seq!['t', 'r', 'u', 'e']
}

/// The text `false`.
pub open spec fn false_text() -> Seq<char> {
    seq!['f', 'a', 'l', 's', 'e']
}

/// The value a form text gives for a field of type `ty`.
pub open spec fn field_from_text(t: Seq<char>, ty: ScalarType) -> Option<ScalarView> {
    match ty {
        ScalarType::Bool => if t == true_text() {
            Some(ScalarView::Bool(true))
        } else if t == false_text() {
            Some(ScalarView::Bool(false))
        } else {
            None
        },
        ScalarType::U64 => match decimal_u64_of(t) {
            Some(n) => Some(ScalarView::U64(n)),
            None => None,
        },
        ScalarType::Text => Some(ScalarView::Text(t)),
    }
}

/// The value of field `name` of type `ty`: the field must occur exactly once.
pub open spec fn form_field(pairs: Seq<(Seq<char>, Seq<char>)>, name: Seq<char>, ty: ScalarType) -> Option<ScalarView> {
    if key_count(pairs, name) == 1 {
        field_from_text(key_value(pairs, name), ty)
    } else {
        None
    }
}

/// Reads a field from its text.
fn text_field(t: &String, ty: ScalarType) -> (r: Option<Scalar>)
    ensures
        match field_from_text(t@, ty) {
            Some(v) => r matches Some(x) && x@ == v,
            None => r is None,
        },
{
    match ty {
        ScalarType::Bool => {
            let yes = "true".to_owned();
            let no = "false".to_owned();
            proof {
                reveal_strlit("true");
                reveal_strlit("false");
                assert(yes@ =~= true_text());
                assert(no@ =~= false_text());
            }
            if *t == yes {
                Some(Scalar::Bool(true))
            } else if *t == no {
                Some(Scalar::Bool(false))
            } else {
                None
            }
        },
        ScalarType::U64 => match parse_u64(t.as_str()) {
            Some(n) => Some(Scalar::U64(n)),
            None => None,
        },
        ScalarType::Text => Some(Scalar::Text(t.clone())),
    }
}

/// Finds field `name` among `pairs` and reads it as `ty`.
pub fn find_field(pairs: &Vec<(String, String)>, name: &String, ty: ScalarType) -> (r: Option<Scalar>)
    ensures
        match form_field(pairs_view(pairs@), name@, ty) {
            Some(v) => r matches Some(x) && x@ == v,
            None => r is None,
        },
{
    let mut count: usize = 0;
    let mut last: Option<usize> = None;
    let mut i: usize = 0;
    while i < pairs.len()
        invariant
            i <= pairs@.len(),
            count == key_count(pairs_view(pairs@).take(i as int), name@),
            count <= i,
            match last {
                Some(k) => k < i && key_value(pairs_view(pairs@).take(i as int), name@)
                    == pairs@[k as int].1@,
                None => key_value(pairs_view(pairs@).take(i as int), name@) == Seq::<char>::empty(),
            },
        decreases pairs@.len() - i,
    {
        proof {
            let pv = pairs_view(pairs@);
            assert(pv.take(i as int + 1).drop_last() =~= pv.take(i as int));
            assert(pv.take(i as int + 1).last() == (pairs@[i as int].0@, pairs@[i as int].1@));
        }
        if pairs[i].0 == *name {
            count = count + 1;
            last = Some(i);
        }
        i = i + 1;
    }
    proof {
        assert(pairs_view(pairs@).take(pairs@.len() as int) =~= pairs_view(pairs@));
    }
    if count != 1 {
        return None;
    }
    match last {
        Some(k) => text_field(&pairs[k].1, ty),
        None => {
            proof {
                reveal_strlit("");
            }
            let empty = String::new();
            text_field(&empty, ty)
        },
    }
}

/// Every parameter has a readable field among `pairs`.
pub open spec fn form_complete(pairs: Seq<(Seq<char>, Seq<char>)>, params: Seq<Param>) -> bool {
    forall|i: int| 0 <= i < params.len() ==> (#[trigger] form_field(pairs, params[i].name@, params[i].ty)) is Some
}

/// `args` holds, in order, each parameter's field among `pairs`.
pub open spec fn form_args(pairs: Seq<(Seq<char>, Seq<char>)>, params: Seq<Param>, args: Seq<ScalarView>) -> bool {
    &&& args.len() == params.len()
    &&& forall|i: int| 0 <= i < params.len() ==> Some(#[trigger] args[i]) == form_field(pairs, params[i].name@, params[i].ty)
}

/// Arguments read from a form have the parameters' types.
pub proof fn lemma_form_args_typed(pairs: Seq<(Seq<char>, Seq<char>)>, params: Seq<Param>, args: Seq<ScalarView>)
    requires
        form_args(pairs, params, args),
    ensures
        well_typed(params.map_values(|p: Param| p.ty), args),
{
    assert forall|i: int| 0 <= i < args.len() implies type_of(#[trigger] args[i]) == params.map_values(|p: Param| p.ty)[i] by {
        assert(Some(args[i]) == form_field(pairs, params[i].name@, params[i].ty));
    }
}

/// A form gives at most one argument list.
pub proof fn lemma_form_args_unique(
    pairs: Seq<(Seq<char>, Seq<char>)>,
    params: Seq<Param>,
    a: Seq<ScalarView>,
    b: Seq<ScalarView>,
)
    requires
        form_args(pairs, params, a),
        form_args(pairs, params, b),
    ensures
        a == b,
{
    assert forall|i: int| 0 <= i < a.len() implies a[i] == b[i] by {
        assert(Some(a[i]) == form_field(pairs, params[i].name@, params[i].ty));
        assert(Some(b[i]) == form_field(pairs, params[i].name@, params[i].ty));
    }
    assert(a =~= b);
}

/// The message for a query string that does not decode.
pub open spec fn bad_query_text() -> Seq<char> {
    "invalid query string"@
}

/// `msg` names the first parameter without a readable field.
pub open spec fn form_missing(pairs: Seq<(Seq<char>, Seq<char>)>, params: Seq<Param>, msg: Seq<char>) -> bool {
    exists|k: int|
        0 <= k < params.len() && form_field(pairs, params[k].name@, params[k].ty) is None && (forall|j: int|
            0 <= j < k ==> (#[trigger] form_field(pairs, params[j].name@, params[j].ty)) is Some) && msg
            == #[trigger] field_error_text(params[k].name@)
}

/// Decodes the arguments of a GET route from its query string.
pub fn decode_query(params: &Vec<Param>, query: &str) -> (r: Result<Vec<Scalar>, String>)
    ensures
        match form_pairs_of(query@) {
            None => r matches Err(m) && m@ == bad_query_text(),
            Some(pairs) => (r is Ok == form_complete(pairs, params@)) && match r {
                Ok(a) => form_args(pairs, params@, crate::scalar::values_view(a@)),
                Err(m) => form_missing(pairs, params@, m@),
            },
        },
        r matches Err(m) ==> m@.len() > 0,
{
    let pairs = match parse_form(query) {
        Some(p) => p,
        None => {
            proof {
                reveal_strlit("invalid query string");
            }
            return Err("invalid query string".to_owned());
        },
    };
    let mut args: Vec<Scalar> = Vec::new();
    let mut i: usize = 0;
    while i < params.len()
        invariant
            i <= params@.len(),
            args@.len() == i,
            form_pairs_of(query@) == Some(pairs_view(pairs@)),
            forall|j: int| 0 <= j < i ==> Some(#[trigger] args@[j]@) == form_field(
                pairs_view(pairs@),
                params@[j].name@,
                params@[j].ty,
            ),
        decreases params@.len() - i,
    {
        match find_field(&pairs, &params[i].name, params[i].ty) {
            Some(v) => {
                args.push(v);
            },
            None => {
                let m = field_error(&params[i].name);
                proof {
                    let pv = pairs_view(pairs@);
                    assert(!form_complete(pv, params@));
                    assert forall|j: int| 0 <= j < i implies (#[trigger] form_field(pv, params@[j].name@, params@[j].ty)) is Some by {
                        assert(Some(args@[j]@) == form_field(pv, params@[j].name@, params@[j].ty));
                    }
                    assert(form_missing(pv, params@, m@));
                }
                return Err(m);
            },
        }
        i = i + 1;
    }
    proof {
        let a = crate::scalar::values_view(args@);
        assert forall|j: int| 0 <= j < params@.len() implies Some(#[trigger] a[j]) == form_field(
            pairs_view(pairs@),
            params@[j].name@,
            params@[j].ty,
        ) by {
            assert(a[j] == args@[j]@);
        }
        assert forall|j: int| 0 <= j < params@.len() implies (#[trigger] form_field(
            pairs_view(pairs@),
            params@[j].name@,
            params@[j].ty,
        )) is Some by {
            assert(Some(args@[j]@) == form_field(pairs_view(pairs@), params@[j].name@, params@[j].ty));
        }
    }
    Ok(args)
}

} // verus!
