use vstd::prelude::*;

use crate::docs::{page_text, render_docs};
use crate::routes::{routes_of, RouteTable};
use crate::schema::{
    activated, describes_decl, docs_text, extract_docs, extract_schema, first_schema_error,
    MethodDecl, Operation, SchemaError,
};

verus! {

/// Everything both call surfaces need of a machine: its operations, its
/// route table and its documentation page.
pub struct MachineInterface {
    pub operations: Vec<Operation>,
    pub routes: RouteTable,
    pub docs_page: Vec<u8>,
}

/// Builds the interface of a machine from the documentation lines of the
/// machine, its declared methods, and the name and version of its package.
/// The first malformed method marked for activation fails the whole build,
/// as do more operations than a call's tag can number.
pub fn machine(doc_lines: &Vec<String>, decls: &Vec<MethodDecl>, name: &str, version: &str) -> (r: Result<MachineInterface, SchemaError>)
    ensures
        match first_schema_error(decls@, decls@.len() as int) {
            Some(e) => r matches Err(x) && x == e,
            None => if activated(decls@, decls@.len() as int).len() > u32::MAX {
                r matches Err(x) && x == SchemaError::TooManyOperations
            } else {
                r matches Ok(m) && m.operations@.len() <= u32::MAX && m.operations@.len() == activated(
                decls@,
                decls@.len() as int,
            ).len() && (forall|j: int|
                0 <= j < m.operations@.len() ==> describes_decl(
                    #[trigger] m.operations@[j],
                    activated(decls@, decls@.len() as int)[j],
                )) && m.routes.view_entries() == routes_of(m.operations@) && m.docs_page@
                == vstd::utf8::encode_utf8(
                page_text(name@, version@, docs_text(doc_lines@), m.operations@),
            )
            },
        },
{
    let description = extract_docs(doc_lines);
    let operations = match extract_schema(decls) {
        Ok(ops) => ops,
        Err(e) => {
            return Err(e);
        },
    };
    if operations.len() > 0xffff_ffff {
        return Err(SchemaError::TooManyOperations);
    }
    let routes = RouteTable::build(&operations);
    let page = render_docs(name, version, &description, &operations);
    let docs_page = page.as_str().as_bytes_vec();
    proof {
        let d = match description {
            Some(s) => Some(s@),
            None => None,
        };
        assert(d == docs_text(doc_lines@));
    }
    Ok(MachineInterface { operations, routes, docs_page })
}

} // verus!
