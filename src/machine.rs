use vstd::prelude::*;

use crate::codec::{activation_bytes, decode_activation, encode_value, value_bytes};
use crate::schema::{param_types, schema_param_types, Operation};
use crate::scalar::{opt_view, type_of, values_view, well_typed, Scalar, ScalarType, ScalarView};

verus! {

/// Proof that the current call came in through direct activation. Only this
/// library makes one, so only code it hands one to can run an operation.
pub struct ActivateCap {
    _private: (),
}

/// `v` is a result that an operation declared to return `t` may give.
pub open spec fn returns_match(t: Option<ScalarType>, v: Option<ScalarView>) -> bool {
    match (t, v) {
        (None, None) => true,
        (Some(t), Some(v)) => type_of(v) == t,
        _ => false,
    }
}

/// The bytes of an operation's result; an operation without one gives none.
pub open spec fn output_bytes(v: Option<ScalarView>) -> Seq<u8> {
    match v {
        Some(x) => value_bytes(x),
        None => Seq::empty(),
    }
}

/// A stateful object whose operations can be called through this library.
pub trait Machine: Sized {
    /// The number of operations.
    spec fn spec_op_count() -> nat;

    /// The parameter types of operation `op`.
    spec fn spec_param_types(op: int) -> Seq<ScalarType>;

    /// The result type of operation `op`, if it has one.
    spec fn spec_returns(op: int) -> Option<ScalarType>;

    /// The bytes that encode a state.
    spec fn state_bytes(&self) -> Seq<u8>;

    /// The state after operation `op` on `args`, and its result.
    spec fn spec_call(&self, op: int, args: Seq<ScalarView>) -> (Self, Option<ScalarView>);

    /// Each operation's result has the declared result type.
    proof fn lemma_result_type(&self, op: int, args: Seq<ScalarView>)
        requires
            0 <= op < Self::spec_op_count(),
            well_typed(Self::spec_param_types(op), args),
        ensures
            returns_match(Self::spec_returns(op), self.spec_call(op, args).1),
    ;

    /// The operations, in declaration order.
    fn operations() -> (r: Vec<Operation>)
        ensures
            r@.len() == Self::spec_op_count(),
            forall|i: int|
                0 <= i < r@.len() ==> param_types(#[trigger] r@[i]) == Self::spec_param_types(i)
                    && r@[i].returns == Self::spec_returns(i),
    ;

    /// Encodes the state.
    fn encode_state(&self) -> (r: Vec<u8>)
        ensures
            r@ == self.state_bytes(),
    ;

    /// Decodes a state; bytes that start with the encoding of a state give
    /// that state.
    fn decode_state(b: &[u8]) -> (r: Option<Self>)
        ensures
            forall|s: Self, rest: Seq<u8>| b@ == #[trigger] (s.state_bytes() + rest) ==> r == Some(s),
    ;

    /// Runs operation `op` on `args`.
    fn call(&mut self, cap: &ActivateCap, op: usize, args: &Vec<Scalar>) -> (r: Option<Scalar>)
        requires
            op < Self::spec_op_count(),
            well_typed(Self::spec_param_types(op as int), values_view(args@)),
        ensures
            (*final(self), opt_view(r)) == old(self).spec_call(op as int, values_view(args@)),
            returns_match(Self::spec_returns(op as int), opt_view(r)),
    ;
}

/// What a direct call leaves: the encoded state after it, and its encoded
/// result.
pub struct Activated {
    pub state: Vec<u8>,
    pub output: Vec<u8>,
}

/// Direct activation: decodes the state and the call, runs the operation,
/// and encodes the new state and the result. `None` is a protocol error:
/// state or call bytes that do not decode, which aborts the call.
pub fn activate<M: Machine>(state: &[u8], input: &[u8]) -> (r: Option<Activated>)
    ensures
        forall|s: M, rest_s: Seq<u8>, op: u32, args: Seq<ScalarView>, rest_i: Seq<u8>|
            state@ == #[trigger] (s.state_bytes() + rest_s) && op < M::spec_op_count()
                && well_typed(M::spec_param_types(op as int), args) && input@ == #[trigger] (
            activation_bytes(op, args) + rest_i) ==> (r matches Some(a) && a.state@ == s.spec_call(
                op as int,
                args,
            ).0.state_bytes() && a.output@ == output_bytes(s.spec_call(op as int, args).1)),
        forall|op: u32, args: Seq<ScalarView>, rest_i: Seq<u8>|
            op < M::spec_op_count() && well_typed(M::spec_param_types(op as int), args) && input@
                == #[trigger] (activation_bytes(op, args) + rest_i) ==> (r matches Some(a) ==> exists|
                s: M,
            |
                a.state@ == s.spec_call(op as int, args).0.state_bytes() && a.output@ == output_bytes(
                    #[trigger] s.spec_call(op as int, args).1,
                )),
        r matches Some(a) ==> exists|s: M, op: int, args: Seq<ScalarView>|
            0 <= op < M::spec_op_count() && well_typed(M::spec_param_types(op), args)
                && a.state@ == s.spec_call(op, args).0.state_bytes() && a.output@ == output_bytes(
                #[trigger] s.spec_call(op, args).1,
            ),
{
    let ops = M::operations();
    let tys = schema_param_types(&ops);
    let decoded = M::decode_state(state);
    let mut machine = match decoded {
        Some(m) => m,
        None => {
            return None;
        },
    };
    let call = decode_activation(input, &tys);
    let (op, args) = match call {
        Some(c) => c,
        None => {
            return None;
        },
    };
    let ghost before = machine;
    let cap = ActivateCap { _private: () };
    let out = machine.call(&cap, op as usize, &args);
    let output = match &out {
        Some(v) => encode_value(v),
        None => Vec::new(),
    };
    let new_state = machine.encode_state();
    proof {
        assert(output@ == output_bytes(opt_view(out)));
        assert(tys@[op as int]@ == param_types(ops@[op as int]));
        assert(0 <= op < M::spec_op_count() && well_typed(
            M::spec_param_types(op as int),
            values_view(args@),
        ));
        let called = before.spec_call(op as int, values_view(args@));
        assert(new_state@ == called.0.state_bytes() && output@ == output_bytes(called.1));
        assert forall|o: u32, a: Seq<ScalarView>, rest_i: Seq<u8>|
            o < M::spec_op_count() && well_typed(M::spec_param_types(o as int), a) && input@
                == #[trigger] (activation_bytes(o, a) + rest_i) implies exists|s: M|
            new_state@ == s.spec_call(o as int, a).0.state_bytes() && output@ == output_bytes(
                #[trigger] s.spec_call(o as int, a).1,
            ) by {
            assert(tys@[o as int]@ == param_types(ops@[o as int]));
            assert(o == op && values_view(args@) == a);
            assert(new_state@ == before.spec_call(o as int, a).0.state_bytes());
        }
    }
    Some(Activated { state: new_state, output })
}

} // verus!
