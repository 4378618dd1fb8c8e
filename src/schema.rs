use vstd::prelude::*;

use crate::scalar::ScalarType;
use crate::HttpMethod;

verus! {

/// One declared parameter of an operation.
#[derive(Clone, Debug)]
pub struct Param {
    pub name: String,
    pub ty: ScalarType,
    /// Whether the field asks for the alternate, structured decoding.
    pub structured: bool,
}

/// The HTTP route an operation is exposed on.
#[derive(Clone, Debug)]
pub struct Route {
    pub method: HttpMethod,
    pub path: String,
}

/// What is known of one operation: its name, parameters in declaration
/// order, result type, documentation and HTTP route.
#[derive(Clone, Debug)]
pub struct Operation {
    pub name: String,
    /// The name of the operation's call variant: the name in upper camel case.
    pub variant: String,
    pub params: Vec<Param>,
    pub returns: Option<ScalarType>,
    pub docs: Option<String>,
    pub route: Option<Route>,
}

/// The parameter types of an operation, in declaration order.
pub open spec fn param_types(op: Operation) -> Seq<ScalarType> {
    op.params@.map_values(|p: Param| p.ty)
}

impl Operation {
    /// The parameter types, in declaration order.
    pub fn param_types(&self) -> (r: Vec<ScalarType>)
        ensures
            r@ == param_types(*self),
    {
        let mut r: Vec<ScalarType> = Vec::new();
        let mut i: usize = 0;
        while i < self.params.len()
            invariant
                i <= self.params@.len(),
                r@ == self.params@.take(i as int).map_values(|p: Param| p.ty),
            decreases self.params@.len() - i,
        {
            r.push(self.params[i].ty);
            assert(self.params@.take(i as int + 1).map_values(|p: Param| p.ty)
                =~= self.params@.take(i as int).map_values(|p: Param| p.ty).push(self.params@[i as int].ty));
            i = i + 1;
        }
        assert(self.params@.take(self.params@.len() as int) =~= self.params@);
        r
    }
}

impl Operation {
    /// The method of the route, GET where there is none.
    pub fn route_method(&self) -> (r: HttpMethod)
        ensures
            r == match self.route {
                Some(rt) => rt.method,
                None => HttpMethod::Get,
            },
    {
        match &self.route {
            Some(r) => r.method,
            None => HttpMethod::Get,
        }
    }

    /// The path of the route, empty where there is none.
    pub fn route_path(&self) -> (r: String)
        ensures
            r@ == match self.route {
                Some(rt) => rt.path@,
                None => Seq::<char>::empty(),
            },
    {
        match &self.route {
            Some(r) => r.path.clone(),
            None => String::new(),
        }
    }
}

/// The parameter types of each operation, in order.
pub fn schema_param_types(ops: &Vec<Operation>) -> (r: Vec<Vec<ScalarType>>)
    ensures
        r@.len() == ops@.len(),
        forall|i: int| 0 <= i < ops@.len() ==> (#[trigger] r@[i])@ == param_types(ops@[i]),
{
    let mut r: Vec<Vec<ScalarType>> = Vec::new();
    let mut i: usize = 0;
    while i < ops.len()
        invariant
            i <= ops@.len(),
            r@.len() == i,
            forall|j: int| 0 <= j < i ==> (#[trigger] r@[j])@ == param_types(ops@[j]),
        decreases ops@.len() - i,
    {
        r.push(ops[i].param_types());
        i = i + 1;
    }
    r
}

/// The upper camel case form of a name, as heck writes it.
pub uninterp spec fn upper_camel_of(s: Seq<char>) -> Seq<char>;

/// Relies on heck::AsUpperCamelCase: the name of an operation's variant.
#[verifier::external_body]
fn upper_camel(s: &str) -> (r: String)
    ensures
        r@ == upper_camel_of(s@),
{
    heck::AsUpperCamelCase(s).to_string()
}

/// The shape of one declared argument of a method.
#[derive(Clone, Debug)]
pub enum ArgShape {
    /// The receiver, `&self`.
    Receiver,
    /// A plain named argument, its type and the names of its attributes.
    Named { name: String, ty: ScalarType, attrs: Vec<String> },
    /// An argument bound by any other pattern.
    Pattern,
}

/// A method of a machine as declared.
#[derive(Clone, Debug)]
pub struct MethodDecl {
    pub name: String,
    pub args: Vec<ArgShape>,
    pub returns: Option<ScalarType>,
    /// Its documentation, one entry per line.
    pub doc_lines: Vec<String>,
    /// Whether it is marked for activation.
    pub activate: bool,
    /// Its HTTP method and, if given, the explicit path.
    pub http: Option<(HttpMethod, Option<String>)>,
}

/// Why a method cannot be an operation.
#[derive(PartialEq, Eq, Structural, Clone, Copy, Debug)]
pub enum SchemaError {
    /// The first argument is not `&self`.
    MissingReceiver,
    /// The second argument is a plain argument not named `cap` or `_cap`.
    CapabilityExpected,
    /// An argument is not a plain named argument.
    NotPlainArgument,
    /// An argument has an attribute other than `with_serde`.
    UnknownAttribute,
    /// More operations than a call's `u32` tag can number.
    TooManyOperations,
}

/// The attribute that asks for structured decoding.
pub open spec fn with_serde() -> Seq<char> {
    seq!['w', 'i', 't', 'h', '_', 's', 'e', 'r', 'd', 'e']
}

/// A name that marks the capability argument.
pub open spec fn is_cap_name(n: Seq<char>) -> bool {
    n == seq!['c', 'a', 'p'] || n == seq!['_', 'c', 'a', 'p']
}

/// Every attribute asks for structured decoding.
pub open spec fn attrs_ok(attrs: Seq<String>) -> bool {
    forall|j: int| 0 <= j < attrs.len() ==> (#[trigger] attrs[j])@ == with_serde()
}

/// What is wrong with an argument after the capability, if anything.
pub open spec fn arg_error(a: ArgShape) -> Option<SchemaError> {
    match a {
        ArgShape::Named { attrs, .. } => if attrs_ok(attrs@) {
            None
        } else {
            Some(SchemaError::UnknownAttribute)
        },
        _ => Some(SchemaError::NotPlainArgument),
    }
}

/// For a plain argument, whether it is named as the capability.
pub open spec fn second_is_cap(a: ArgShape) -> Option<bool> {
    match a {
        ArgShape::Named { name, .. } => Some(is_cap_name(name@)),
        _ => None,
    }
}

/// The index of the first argument that becomes a parameter.
pub open spec fn first_param(args: Seq<ArgShape>) -> int {
    if args.len() >= 2 && second_is_cap(args[1]) == Some(true) {
        2
    } else {
        1
    }
}

/// The error of the first faulty argument from `k` on.
pub open spec fn first_arg_error(args: Seq<ArgShape>, k: int) -> Option<SchemaError>
    decreases args.len() - k,
{
    if k < 0 || k >= args.len() {
        None
    } else {
        match arg_error(args[k]) {
            Some(e) => Some(e),
            None => first_arg_error(args, k + 1),
        }
    }
}

/// What is wrong with a method's signature, if anything.
pub open spec fn signature_error(args: Seq<ArgShape>) -> Option<SchemaError> {
    if args.len() == 0 || !(args[0] is Receiver) {
        Some(SchemaError::MissingReceiver)
    } else if args.len() >= 2 && second_is_cap(args[1]) == Some(false) {
        Some(SchemaError::CapabilityExpected)
    } else {
        first_arg_error(args, first_param(args))
    }
}

/// Parameter `p` is what argument `a` declares.
pub open spec fn param_of(p: Param, a: ArgShape) -> bool {
    match a {
        ArgShape::Named { name, ty, attrs } => p.name@ == name@ && p.ty == ty && p.structured == (attrs@.len() > 0),
        _ => false,
    }
}

/// The lines of a text, joined with line breaks.
pub open spec fn join_lines(lines: Seq<Seq<char>>) -> Seq<char>
    decreases lines.len(),
{
    if lines.len() <= 1 {
        if lines.len() == 1 { lines[0] } else { Seq::empty() }
    } else {
        join_lines(lines.drop_last()) + seq!['\n'] + lines.last()
    }
}

/// The text of documentation lines: none where there are none.
pub open spec fn docs_text(lines: Seq<String>) -> Option<Seq<char>> {
    if lines.len() == 0 {
        None
    } else {
        Some(join_lines(lines.map_values(|l: String| l@)))
    }
}

/// The path of an operation routed without an explicit one.
pub open spec fn default_path(name: Seq<char>) -> Seq<char> {
    seq!['/', 'a', 'c', 't', 'i', 'v', 'a', 't', 'e', '/'] + name
}

/// `op` is the operation that method `d` declares.
pub open spec fn describes_decl(op: Operation, d: MethodDecl) -> bool {
    &&& op.name@ == d.name@
    &&& op.variant@ == upper_camel_of(d.name@)
    &&& op.params@.len() == d.args@.len() - first_param(d.args@)
    &&& forall|j: int| 0 <= j < op.params@.len() ==> param_of(#[trigger] op.params@[j], d.args@[first_param(d.args@) + j])
    &&& op.returns == d.returns
    &&& match docs_text(d.doc_lines@) {
        Some(t) => match op.docs {
            Some(s) => s@ == t,
            None => false,
        },
        None => op.docs is None,
    }
    &&& match d.http {
        None => op.route is None,
        Some((m, p)) => match op.route {
            Some(r) => r.method == m && r.path@ == match p {
                Some(x) => x@,
                None => default_path(d.name@),
            },
            None => false,
        },
    }
}

/// Joins documentation lines with line breaks; `None` where there are none.
pub fn extract_docs(lines: &Vec<String>) -> (r: Option<String>)
    ensures
        match docs_text(lines@) {
            Some(t) => r matches Some(s) && s@ == t,
            None => r is None,
        },
{
    if lines.len() == 0 {
        return None;
    }
    let mut text = lines[0].clone();
    let mut i: usize = 1;
    proof {
        let ls = lines@.map_values(|l: String| l@);
        assert(ls.take(1) =~= seq![ls[0]]);
    }
    while i < lines.len()
        invariant
            1 <= i <= lines@.len(),
            text@ == join_lines(lines@.map_values(|l: String| l@).take(i as int)),
        decreases lines@.len() - i,
    {
        proof {
            reveal_strlit("\n");
            let ls = lines@.map_values(|l: String| l@);
            assert(ls.take(i as int + 1).drop_last() =~= ls.take(i as int));
        }
        text = text.concat("\n");
        text = text.concat(lines[i].as_str());
        i = i + 1;
    }
    proof {
        let ls = lines@.map_values(|l: String| l@);
        assert(ls.take(lines@.len() as int) =~= ls);
    }
    Some(text)
}

/// Describes a method as an operation, or says what is wrong with its
/// signature.
pub fn describe(d: &MethodDecl) -> (r: Result<Operation, SchemaError>)
    ensures
        match signature_error(d.args@) {
            Some(e) => r == Err::<Operation, SchemaError>(e),
            None => r matches Ok(op) && describes_decl(op, *d),
        },
{
    let n = d.args.len();
    if n == 0 {
        return Err(SchemaError::MissingReceiver);
    }
    match &d.args[0] {
        ArgShape::Receiver => {},
        _ => {
            return Err(SchemaError::MissingReceiver);
        },
    }
    let mut start: usize = 1;
    if n >= 2 {
        match &d.args[1] {
            ArgShape::Named { name, .. } => {
                let cap = "cap".to_owned();
                let under_cap = "_cap".to_owned();
                proof {
                    reveal_strlit("cap");
                    reveal_strlit("_cap");
                    assert(cap@ =~= seq!['c', 'a', 'p']);
                    assert(under_cap@ =~= seq!['_', 'c', 'a', 'p']);
                }
                if *name == cap || *name == under_cap {
                    start = 2;
                } else {
                    return Err(SchemaError::CapabilityExpected);
                }
            },
            _ => {},
        }
    }
    assert(start == first_param(d.args@));
    assert(signature_error(d.args@) == first_arg_error(d.args@, start as int));
    let serde_attr = "with_serde".to_owned();
    proof {
        reveal_strlit("with_serde");
        assert(serde_attr@ =~= with_serde());
    }
    let mut params: Vec<Param> = Vec::new();
    let mut i: usize = start;
    while i < n
        invariant
            n == d.args@.len(),
            start <= i <= n,
            start == first_param(d.args@),
            signature_error(d.args@) == first_arg_error(d.args@, start as int),
            serde_attr@ == with_serde(),
            first_arg_error(d.args@, start as int) == first_arg_error(d.args@, i as int),
            params@.len() == i - start,
            forall|j: int| 0 <= j < params@.len() ==> param_of(#[trigger] params@[j], d.args@[start + j]),
        decreases n - i,
    {
        match &d.args[i] {
            ArgShape::Named { name, ty, attrs } => {
                let mut k: usize = 0;
                while k < attrs.len()
                    invariant
                        k <= attrs@.len(),
                        n == d.args@.len(),
                        start <= i < n,
                        d.args@[i as int] == (ArgShape::Named { name: *name, ty: *ty, attrs: *attrs }),
                        signature_error(d.args@) == first_arg_error(d.args@, start as int),
                        first_arg_error(d.args@, start as int) == first_arg_error(d.args@, i as int),
                        serde_attr@ == with_serde(),
                        forall|j: int| 0 <= j < k ==> (#[trigger] attrs@[j])@ == with_serde(),
                    decreases attrs@.len() - k,
                {
                    if attrs[k] != serde_attr {
                        proof {
                            assert(!((attrs@[k as int])@ == with_serde()));
                            assert(!attrs_ok(attrs@));
                            assert(arg_error(d.args@[i as int]) == Some(SchemaError::UnknownAttribute));
                            assert(first_arg_error(d.args@, i as int) == Some(SchemaError::UnknownAttribute));
                            assert(signature_error(d.args@) == first_arg_error(d.args@, start as int));
                        }
                        return Err(SchemaError::UnknownAttribute);
                    }
                    k = k + 1;
                }
                params.push(Param { name: name.clone(), ty: *ty, structured: attrs.len() > 0 });
            },
            _ => {
                proof {
                    assert(arg_error(d.args@[i as int]) == Some(SchemaError::NotPlainArgument));
                    assert(first_arg_error(d.args@, i as int) == Some(SchemaError::NotPlainArgument));
                    assert(signature_error(d.args@) == first_arg_error(d.args@, start as int));
                }
                return Err(SchemaError::NotPlainArgument);
            },
        }
        i = i + 1;
    }
    let route = match &d.http {
        Some((method, explicit)) => {
            let path = match explicit {
                Some(p) => p.clone(),
                None => {
                    proof {
                        reveal_strlit("/activate/");
                    }
                    let p = "/activate/".to_owned().concat(d.name.as_str());
                    assert(p@ =~= default_path(d.name@));
                    p
                },
            };
            Some(Route { method: *method, path })
        },
        None => None,
    };
    let op = Operation {
        name: d.name.clone(),
        variant: upper_camel(d.name.as_str()),
        params,
        returns: d.returns,
        docs: extract_docs(&d.doc_lines),
        route,
    };
    Ok(op)
}

/// The methods among the first `n` that are marked for activation, in order.
pub open spec fn activated(decls: Seq<MethodDecl>, n: int) -> Seq<MethodDecl>
    decreases n,
{
    if n <= 0 {
        Seq::empty()
    } else if decls[n - 1].activate {
        activated(decls, n - 1).push(decls[n - 1])
    } else {
        activated(decls, n - 1)
    }
}

/// The first signature error among the marked methods of the first `n`.
pub open spec fn first_schema_error(decls: Seq<MethodDecl>, n: int) -> Option<SchemaError>
    decreases n,
{
    if n <= 0 {
        None
    } else {
        match first_schema_error(decls, n - 1) {
            Some(e) => Some(e),
            None => if decls[n - 1].activate {
                signature_error(decls[n - 1].args@)
            } else {
                None
            },
        }
    }
}

/// Describes each method marked for activation, in declaration order. The
/// first malformed one fails the whole schema.
pub fn extract_schema(decls: &Vec<MethodDecl>) -> (r: Result<Vec<Operation>, SchemaError>)
    ensures
        match first_schema_error(decls@, decls@.len() as int) {
            Some(e) => r == Err::<Vec<Operation>, SchemaError>(e),
            None => r matches Ok(ops) && ops@.len() == activated(decls@, decls@.len() as int).len()
                && forall|j: int|
                0 <= j < ops@.len() ==> describes_decl(
                    #[trigger] ops@[j],
                    activated(decls@, decls@.len() as int)[j],
                ),
        },
{
    let mut ops: Vec<Operation> = Vec::new();
    let mut i: usize = 0;
    while i < decls.len()
        invariant
            i <= decls@.len(),
            first_schema_error(decls@, i as int) is None,
            ops@.len() == activated(decls@, i as int).len(),
            forall|j: int| 0 <= j < ops@.len() ==> describes_decl(#[trigger] ops@[j], activated(decls@, i as int)[j]),
        decreases decls@.len() - i,
    {
        if decls[i].activate {
            match describe(&decls[i]) {
                Ok(op) => {
                    ops.push(op);
                    proof {
                        let before = activated(decls@, i as int);
                        let after = activated(decls@, i as int + 1);
                        assert forall|j: int| 0 <= j < ops@.len() implies describes_decl(#[trigger] ops@[j], after[j]) by {
                            if j < before.len() {
                                assert(after[j] == before[j]);
                            }
                        }
                    }
                },
                Err(e) => {
                    proof {
                        lemma_schema_error_stays(decls@, i as int + 1, decls@.len() as int);
                    }
                    return Err(e);
                },
            }
        }
        i = i + 1;
    }
    Ok(ops)
}

/// Once a schema error is found, it stays the first one.
proof fn lemma_schema_error_stays(decls: Seq<MethodDecl>, m: int, n: int)
    requires
        0 <= m <= n,
        first_schema_error(decls, m) is Some,
    ensures
        first_schema_error(decls, n) == first_schema_error(decls, m),
    decreases n - m,
{
    if m < n {
        lemma_schema_error_stays(decls, m, n - 1);
    }
}

} // verus!
