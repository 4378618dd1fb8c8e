use vstd::prelude::*;

use crate::codec::{bincode_u64, decode_u64_at, encode_u64, from_offset};
use crate::machine::{ActivateCap, Machine};
use crate::scalar::{values_view, well_typed, Scalar, ScalarType, ScalarView};
use crate::schema::{param_types, Operation, Param, Route};
use crate::HttpMethod;

verus! {

/// A machine that holds one counter, set by POST "/set" and read by
/// GET "/get".
#[derive(Clone, Copy, Debug)]
pub struct Counter {
    pub value: u64,
}

/// Index of `set_counter`.
pub const SET_COUNTER: usize = 0;

/// Index of `get_counter`.
pub const GET_COUNTER: usize = 1;

impl Machine for Counter {
    open spec fn spec_op_count() -> nat {
        2
    }

    open spec fn spec_param_types(op: int) -> Seq<ScalarType> {
        if op == 0 {
            seq![ScalarType::U64]
        } else {
            Seq::empty()
        }
    }

    open spec fn spec_returns(op: int) -> Option<ScalarType> {
        if op == 0 {
            None
        } else {
            Some(ScalarType::U64)
        }
    }

    open spec fn state_bytes(&self) -> Seq<u8> {
        bincode_u64(self.value)
    }

    open spec fn spec_call(&self, op: int, args: Seq<ScalarView>) -> (Counter, Option<ScalarView>) {
        if op == 0 {
            match args[0] {
                ScalarView::U64(n) => (Counter { value: n }, None),
                _ => (*self, None),
            }
        } else {
            (*self, Some(ScalarView::U64(self.value)))
        }
    }

    proof fn lemma_result_type(&self, op: int, args: Seq<ScalarView>) {
    }

    fn operations() -> (r: Vec<Operation>) {
        let set_params = vec![Param { name: "value".to_owned(), ty: ScalarType::U64, structured: false }];
        let set = Operation {
            name: "set_counter".to_owned(),
            variant: "SetCounter".to_owned(),
            params: set_params,
            returns: None,
            docs: Some("Sets the counter.".to_owned()),
            route: Some(Route { method: HttpMethod::Post, path: "/set".to_owned() }),
        };
        let get = Operation {
            name: "get_counter".to_owned(),
            variant: "GetCounter".to_owned(),
            params: Vec::new(),
            returns: Some(ScalarType::U64),
            docs: Some("Reads the counter.".to_owned()),
            route: Some(Route { method: HttpMethod::Get, path: "/get".to_owned() }),
        };
        let r = vec![set, get];
        assert(param_types(r@[0]) =~= seq![ScalarType::U64]);
        assert(param_types(r@[1]) =~= Seq::<ScalarType>::empty());
        r
    }

    fn encode_state(&self) -> (r: Vec<u8>) {
        encode_u64(self.value)
    }

    fn decode_state(b: &[u8]) -> (r: Option<Counter>) {
        let d = decode_u64_at(b, 0);
        proof {
            assert(from_offset(b@, 0) =~= b@);
        }
        match d {
            Some((n, _)) => Some(Counter { value: n }),
            None => None,
        }
    }

    fn call(&mut self, cap: &ActivateCap, op: usize, args: &Vec<Scalar>) -> (r: Option<Scalar>) {
        if op == SET_COUNTER {
            assert(well_typed(seq![ScalarType::U64], values_view(args@)));
            assert(values_view(args@)[0] == args@[0]@);
            match &args[0] {
                Scalar::U64(n) => {
                    self.value = *n;
                },
                _ => {},
            }
            None
        } else {
            Some(Scalar::U64(self.value))
        }
    }
}

} // verus!
