use vstd::prelude::*;

use crate::schema::Operation;
use crate::HttpMethod;

verus! {

/// Where a request goes.
#[derive(PartialEq, Eq, Structural, Clone, Copy, Debug)]
pub enum Target {
    /// The operation of this index.
    Operation(usize),
    /// The documentation page.
    Docs,
    /// The catch-all: nothing matched.
    NotFound,
}

/// One binding of the route table.
#[derive(Clone, Debug)]
pub struct RouteEntry {
    pub method: HttpMethod,
    pub path: String,
    pub target: Target,
}

/// The ordered route table. The catch-all is not stored: it is what
/// [`RouteTable::find`] gives when no entry matches.
#[derive(Clone, Debug)]
pub struct RouteTable {
    pub entries: Vec<RouteEntry>,
}

/// The model of a route entry.
pub open spec fn entry_view(e: RouteEntry) -> (HttpMethod, Seq<char>, Target) {
    (e.method, e.path@, e.target)
}

/// The entries that the routed operations among the first `n` give, in order.
pub open spec fn operation_routes(ops: Seq<Operation>, n: int) -> Seq<(HttpMethod, Seq<char>, Target)>
    decreases n,
{
    if n <= 0 {
        Seq::empty()
    } else {
        let before = operation_routes(ops, n - 1);
        match ops[n - 1].route {
            Some(r) => before.push((r.method, r.path@, Target::Operation((n - 1) as usize))),
            None => before,
        }
    }
}

/// The path of the documentation page.
pub open spec fn docs_path() -> Seq<char> {
    seq!['/']
}

/// The route table of `ops`: each routed operation in declaration order,
/// then the documentation page at GET "/".
pub open spec fn routes_of(ops: Seq<Operation>) -> Seq<(HttpMethod, Seq<char>, Target)> {
    operation_routes(ops, ops.len() as int).push((HttpMethod::Get, docs_path(), Target::Docs))
}

/// Entry `e` matches a request for `method` and `path`.
pub open spec fn entry_matches(e: (HttpMethod, Seq<char>, Target), method: HttpMethod, path: Seq<char>) -> bool {
    e.0 == method && e.1 == path
}

/// The target of the first entry that matches, or the catch-all.
pub open spec fn first_match(
    entries: Seq<(HttpMethod, Seq<char>, Target)>,
    method: HttpMethod,
    path: Seq<char>,
) -> Target
    decreases entries.len(),
{
    if entries.len() == 0 {
        Target::NotFound
    } else if entry_matches(entries[0], method, path) {
        entries[0].2
    } else {
        first_match(entries.drop_first(), method, path)
    }
}

/// First match wins: where entry `i` matches and no earlier entry does, the
/// request goes to entry `i`, whatever later entries match too.
pub proof fn lemma_first_match_wins(
    entries: Seq<(HttpMethod, Seq<char>, Target)>,
    method: HttpMethod,
    path: Seq<char>,
    i: int,
)
    requires
        0 <= i < entries.len(),
        entry_matches(entries[i], method, path),
        forall|k: int| 0 <= k < i ==> !entry_matches(#[trigger] entries[k], method, path),
    ensures
        first_match(entries, method, path) == entries[i].2,
    decreases i,
{
    if i > 0 {
        assert(!entry_matches(entries[0], method, path));
        let rest = entries.drop_first();
        assert forall|k: int| 0 <= k < i - 1 implies !entry_matches(#[trigger] rest[k], method, path) by {
            assert(rest[k] == entries[k + 1]);
        }
        lemma_first_match_wins(rest, method, path, i - 1);
    }
}

/// The catch-all fires exactly when no entry matches, provided no entry is
/// itself a catch-all.
pub proof fn lemma_catch_all_only_when_unmatched(
    entries: Seq<(HttpMethod, Seq<char>, Target)>,
    method: HttpMethod,
    path: Seq<char>,
)
    requires
        forall|k: int| 0 <= k < entries.len() ==> (#[trigger] entries[k]).2 != Target::NotFound,
    ensures
        (first_match(entries, method, path) == Target::NotFound) == (forall|k: int|
            0 <= k < entries.len() ==> !entry_matches(#[trigger] entries[k], method, path)),
    decreases entries.len(),
{
    if entries.len() > 0 {
        let rest = entries.drop_first();
        assert forall|k: int| 0 <= k < rest.len() implies (#[trigger] rest[k]).2 != Target::NotFound by {
            assert(rest[k] == entries[k + 1]);
        }
        lemma_catch_all_only_when_unmatched(rest, method, path);
        if !entry_matches(entries[0], method, path) {
            assert((forall|k: int| 0 <= k < rest.len() ==> !entry_matches(#[trigger] rest[k], method, path))
                == (forall|k: int| 0 <= k < entries.len() ==> !entry_matches(#[trigger] entries[k], method, path))) by {
                if forall|k: int| 0 <= k < rest.len() ==> !entry_matches(#[trigger] rest[k], method, path) {
                    assert forall|k: int| 0 <= k < entries.len() implies !entry_matches(#[trigger] entries[k], method, path) by {
                        if k > 0 {
                            assert(entries[k] == rest[k - 1]);
                        }
                    }
                }
                if forall|k: int| 0 <= k < entries.len() ==> !entry_matches(#[trigger] entries[k], method, path) {
                    assert forall|k: int| 0 <= k < rest.len() implies !entry_matches(#[trigger] rest[k], method, path) by {
                        assert(rest[k] == entries[k + 1]);
                    }
                }
            }
        }
    }
}

/// A request whose method differs from that of every entry for its path goes
/// to the catch-all (a GET on a POST route is not found, and the reverse).
pub proof fn lemma_wrong_method_not_found(
    entries: Seq<(HttpMethod, Seq<char>, Target)>,
    method: HttpMethod,
    path: Seq<char>,
)
    requires
        forall|k: int| 0 <= k < entries.len() && (#[trigger] entries[k]).1 == path ==> entries[k].0 != method,
    ensures
        first_match(entries, method, path) == Target::NotFound,
    decreases entries.len(),
{
    if entries.len() > 0 {
        let rest = entries.drop_first();
        assert(!entry_matches(entries[0], method, path));
        assert forall|k: int| 0 <= k < rest.len() && (#[trigger] rest[k]).1 == path implies rest[k].0 != method by {
            assert(rest[k] == entries[k + 1]);
        }
        lemma_wrong_method_not_found(rest, method, path);
    }
}

/// The models of a table's entries.
pub open spec fn entries_view(entries: Seq<RouteEntry>) -> Seq<(HttpMethod, Seq<char>, Target)> {
    entries.map_values(|e: RouteEntry| entry_view(e))
}

impl RouteTable {
    /// The table's entries, modelled.
    pub open spec fn view_entries(&self) -> Seq<(HttpMethod, Seq<char>, Target)> {
        entries_view(self.entries@)
    }

    /// Builds the route table of `ops`.
    pub fn build(ops: &Vec<Operation>) -> (r: RouteTable)
        ensures
            r.view_entries() == routes_of(ops@),
    {
        let mut entries: Vec<RouteEntry> = Vec::new();
        let mut i: usize = 0;
        while i < ops.len()
            invariant
                i <= ops@.len(),
                entries_view(entries@) == operation_routes(ops@, i as int),
            decreases ops@.len() - i,
        {
            match &ops[i].route {
                Some(route) => {
                    let e = RouteEntry {
                        method: route.method,
                        path: route.path.clone(),
                        target: Target::Operation(i),
                    };
                    entries.push(e);
                    assert(entries_view(entries@) =~= operation_routes(ops@, i as int + 1));
                },
                None => {},
            }
            i = i + 1;
        }
        let docs = RouteEntry { method: HttpMethod::Get, path: "/".to_owned(), target: Target::Docs };
        proof {
            reveal_strlit("/");
            assert(docs.path@ =~= docs_path());
        }
        entries.push(docs);
        assert(entries_view(entries@) =~= routes_of(ops@));
        RouteTable { entries }
    }

    /// Finds where a request for `method` and `path` goes: the first entry
    /// that matches both exactly, else the catch-all.
    pub fn find(&self, method: HttpMethod, path: &str) -> (r: Target)
        ensures
            r == first_match(self.view_entries(), method, path@),
    {
        let wanted: String = path.to_owned();
        let mut i: usize = 0;
        assert(self.view_entries().skip(0) =~= self.view_entries());
        while i < self.entries.len()
            invariant
                i <= self.entries@.len(),
                wanted@ == path@,
                first_match(self.view_entries(), method, path@) == first_match(
                    self.view_entries().skip(i as int),
                    method,
                    path@,
                ),
            decreases self.entries@.len() - i,
        {
            let e = &self.entries[i];
            proof {
                let rest = self.view_entries().skip(i as int);
                assert(rest[0] == entry_view(*e));
                assert(rest.drop_first() =~= self.view_entries().skip(i as int + 1));
            }
            if e.method == method && e.path == wanted {
                return e.target;
            }
            i = i + 1;
        }
        assert(self.view_entries().skip(i as int).len() == 0);
        Target::NotFound
    }
}

} // verus!
