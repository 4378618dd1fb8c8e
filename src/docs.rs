use vstd::prelude::*;

use crate::scalar::ScalarType;
use crate::schema::{Operation, Param};
use crate::HttpMethod;

verus! {

/// The name of a type as the page shows it.
pub open spec fn type_text(t: ScalarType) -> Seq<char> {
    match t {
        ScalarType::Bool => "bool"@,
        ScalarType::U64 => "u64"@,
        ScalarType::Text => "String"@,
    }
}

/// The name of an HTTP method as the page shows it.
pub open spec fn method_text(m: HttpMethod) -> Seq<char> {
    match m {
        HttpMethod::Get => "GET"@,
        HttpMethod::Post => "POST"@,
    }
}

/// The list items of parameters, each its name and type.
pub open spec fn params_text(params: Seq<Param>) -> Seq<char>
    decreases params.len(),
{
    if params.len() == 0 {
        Seq::empty()
    } else {
        params_text(params.drop_last()) + "<li><code>"@ + params.last().name@ + ": "@ + type_text(
            params.last().ty,
        ) + "</code></li>"@
    }
}

/// The section of one operation: empty where it has no route.
pub open spec fn entry_text(op: Operation) -> Seq<char> {
    match op.route {
        Some(r) => "<h2><code>"@ + method_text(r.method) + " "@ + r.path@ + "</code></h2>"@ + match op.docs {
            Some(d) => "<p>"@ + d@ + "</p>"@,
            None => Seq::empty(),
        } + "<ul>"@ + params_text(op.params@) + "</ul>"@ + match op.returns {
            Some(t) => "<p>returns <code>"@ + type_text(t) + "</code></p>"@,
            None => Seq::empty(),
        },
        None => Seq::empty(),
    }
}

/// The sections of operations, in order.
pub open spec fn entries_text(ops: Seq<Operation>) -> Seq<char>
    decreases ops.len(),
{
    if ops.len() == 0 {
        Seq::empty()
    } else {
        entries_text(ops.drop_last()) + entry_text(ops.last())
    }
}

/// The documentation page of a machine.
pub open spec fn page_text(name: Seq<char>, version: Seq<char>, description: Option<Seq<char>>, ops: Seq<Operation>) -> Seq<char> {
    "<!DOCTYPE html><html><head><title>"@ + name + " "@ + version + "</title></head><body><h1>"@
        + name + " "@ + version + "</h1>"@ + match description {
        Some(d) => "<p>"@ + d + "</p>"@,
        None => Seq::empty(),
    } + entries_text(ops) + "</body></html>"@
}

fn scalar_type_name(t: ScalarType) -> (r: String)
    ensures
        r@ == type_text(t),
{
    match t {
        ScalarType::Bool => "bool".to_owned(),
        ScalarType::U64 => "u64".to_owned(),
        ScalarType::Text => "String".to_owned(),
    }
}

fn method_name(m: HttpMethod) -> (r: String)
    ensures
        r@ == method_text(m),
{
    match m {
        HttpMethod::Get => "GET".to_owned(),
        HttpMethod::Post => "POST".to_owned(),
    }
}

fn render_params(params: &Vec<Param>) -> (r: String)
    ensures
        r@ == params_text(params@),
{
    let mut text = String::new();
    let mut i: usize = 0;
    proof {
        reveal_strlit("");
        assert(params@.take(0) =~= Seq::<Param>::empty());
    }
    while i < params.len()
        invariant
            i <= params@.len(),
            text@ == params_text(params@.take(i as int)),
        decreases params@.len() - i,
    {
        proof {
            assert(params@.take(i as int + 1).drop_last() =~= params@.take(i as int));
        }
        text = text.concat("<li><code>").concat(params[i].name.as_str()).concat(": ").concat(
            scalar_type_name(params[i].ty).as_str(),
        ).concat("</code></li>");
        i = i + 1;
    }
    assert(params@.take(params@.len() as int) =~= params@);
    text
}

fn render_entry(op: &Operation) -> (r: String)
    ensures
        r@ == entry_text(*op),
{
    match &op.route {
        Some(route) => {
            let docs = match &op.docs {
                Some(d) => "<p>".to_owned().concat(d.as_str()).concat("</p>"),
                None => String::new(),
            };
            let result_part = match op.returns {
                Some(t) => "<p>returns <code>".to_owned().concat(scalar_type_name(t).as_str()).concat(
                    "</code></p>",
                ),
                None => String::new(),
            };
            "<h2><code>".to_owned().concat(method_name(route.method).as_str()).concat(" ").concat(
                route.path.as_str(),
            ).concat("</code></h2>").concat(docs.as_str()).concat("<ul>").concat(
                render_params(&op.params).as_str(),
            ).concat("</ul>").concat(result_part.as_str())
        },
        None => String::new(),
    }
}

/// Renders the documentation page: the machine's name, version and
/// description, then for each routed operation its method, path,
/// documentation, parameters and result type.
pub fn render_docs(name: &str, version: &str, description: &Option<String>, ops: &Vec<Operation>) -> (r: String)
    ensures
        r@ == page_text(
            name@,
            version@,
            match description {
                Some(d) => Some(d@),
                None => None,
            },
            ops@,
        ),
{
    let mut list = String::new();
    let mut i: usize = 0;
    proof {
        assert(ops@.take(0) =~= Seq::<Operation>::empty());
    }
    while i < ops.len()
        invariant
            i <= ops@.len(),
            list@ == entries_text(ops@.take(i as int)),
        decreases ops@.len() - i,
    {
        proof {
            assert(ops@.take(i as int + 1).drop_last() =~= ops@.take(i as int));
        }
        list = list.concat(render_entry(&ops[i]).as_str());
        i = i + 1;
    }
    assert(ops@.take(ops@.len() as int) =~= ops@);
    let desc = match description {
        Some(d) => "<p>".to_owned().concat(d.as_str()).concat("</p>"),
        None => String::new(),
    };
    "<!DOCTYPE html><html><head><title>".to_owned().concat(name).concat(" ").concat(version).concat(
        "</title></head><body><h1>",
    ).concat(name).concat(" ").concat(version).concat("</h1>").concat(desc.as_str()).concat(
        list.as_str(),
    ).concat("</body></html>")
}

/// The names of the operations that direct activation offers, in order.
pub fn activation_names(ops: &Vec<Operation>) -> (r: Vec<String>)
    ensures
        r@.len() == ops@.len(),
        forall|i: int| 0 <= i < ops@.len() ==> (#[trigger] r@[i])@ == ops@[i].name@,
{
    let mut names: Vec<String> = Vec::new();
    let mut i: usize = 0;
    while i < ops.len()
        invariant
            i <= ops@.len(),
            names@.len() == i,
            forall|j: int| 0 <= j < i ==> (#[trigger] names@[j])@ == ops@[j].name@,
        decreases ops@.len() - i,
    {
        names.push(ops[i].name.clone());
        i = i + 1;
    }
    names
}

} // verus!
