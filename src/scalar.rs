use vstd::prelude::*;

verus! {

/// The types an operation parameter or result may have.
#[derive(PartialEq, Eq, Structural, Clone, Copy, Debug)]
pub enum ScalarType {
    Bool,
    U64,
    Text,
}

/// A single argument or result value.
#[derive(Clone, Debug)]
pub enum Scalar {
    Bool(bool),
    U64(u64),
    Text(String),
}

/// The mathematical model of a [`Scalar`].
pub enum ScalarView {
    Bool(bool),
    U64(u64),
    Text(Seq<char>),
}

impl View for Scalar {
    type V = ScalarView;

    open spec fn view(&self) -> ScalarView {
        match self {
            Scalar::Bool(b) => ScalarView::Bool(*b),
            Scalar::U64(n) => ScalarView::U64(*n),
            Scalar::Text(s) => ScalarView::Text(s@),
        }
    }
}

/// The type of a modelled value.
pub open spec fn type_of(v: ScalarView) -> ScalarType {
    match v {
        ScalarView::Bool(_) => ScalarType::Bool,
        ScalarView::U64(_) => ScalarType::U64,
        ScalarView::Text(_) => ScalarType::Text,
    }
}

/// `vals` holds one value of each type of `tys`, in order.
pub open spec fn well_typed(tys: Seq<ScalarType>, vals: Seq<ScalarView>) -> bool {
    &&& vals.len() == tys.len()
    &&& forall|i: int| 0 <= i < vals.len() ==> type_of(#[trigger] vals[i]) == tys[i]
}

/// The models of a sequence of values.
pub open spec fn values_view(vals: Seq<Scalar>) -> Seq<ScalarView> {
    vals.map_values(|v: Scalar| v@)
}

/// The model of an optional value.
pub open spec fn opt_view(v: Option<Scalar>) -> Option<ScalarView> {
    match v {
        Some(x) => Some(x@),
        None => None,
    }
}

impl Scalar {
    /// The type of this value.
    pub fn value_type(&self) -> (r: ScalarType)
        ensures
            r == type_of(self@),
    {
        match self {
            Scalar::Bool(_) => ScalarType::Bool,
            Scalar::U64(_) => ScalarType::U64,
            Scalar::Text(_) => ScalarType::Text,
        }
    }
}

/// The message for a parameter whose field is missing or has another type.
pub open spec fn field_error_text(name: Seq<char>) -> Seq<char> {
    "missing or invalid field `"@ + name + "`"@
}

/// The message for a parameter whose field is missing or has another type.
pub fn field_error(name: &String) -> (r: String)
    ensures
        r@ == field_error_text(name@),
        r@.len() > 0,
{
    proof {
        reveal_strlit("missing or invalid field `");
    }
    "missing or invalid field `".to_owned().concat(name.as_str()).concat("`")
}

} // verus!
