use vstd::prelude::*;

pub mod codec;
pub mod counter;
pub mod docs;
pub mod form;
pub mod http;
pub mod interface;
pub mod json;
pub mod machine;
pub mod routes;
pub mod schema;
pub mod scalar;

verus! {

/// HTTP verbs that a route can be declared for.
#[derive(PartialEq, Eq, Structural, Clone, Copy, Debug)]
pub enum HttpMethod {
    Get,
    Post,
}

} // verus!
