//! Framework routes: linking each route to the file that defines its
//! handler, then ordering and deduplicating the routes.
use vstd::prelude::*;
use crate::codemap::SymbolFact;
use crate::order::{
    compare_str, lemma_lex_asymmetric, lemma_lex_irreflexive, lemma_lex_total, lemma_lex_transitive,
    lex_lt,
};
use crate::text::{owned, str_eq};

verus! {

/// An HTTP route declared through a web framework.
#[derive(Debug, Clone)]
pub struct RouteFact {
    pub id: String,
    pub file: String,
    pub language: String,
    pub method: String,
    pub path: String,
    pub handler: String,
    /// The file that defines the handler, once resolved.
    pub handler_file: Option<String>,
    pub line: usize,
    pub framework: String,
    pub middleware: Vec<String>,
}

/// The mathematical content of a [`RouteFact`].
pub struct RouteView {
    pub id: Seq<char>,
    pub file: Seq<char>,
    pub language: Seq<char>,
    pub method: Seq<char>,
    pub path: Seq<char>,
    pub handler: Seq<char>,
    pub handler_file: Option<Seq<char>>,
    pub line: usize,
    pub framework: Seq<char>,
    pub middleware: Seq<Seq<char>>,
}

impl View for RouteFact {
    type V = RouteView;

    open spec fn view(&self) -> RouteView {
        RouteView {
            id: self.id@,
            file: self.file@,
            language: self.language@,
            method: self.method@,
            path: self.path@,
            handler: self.handler@,
            handler_file: match self.handler_file {
                Some(f) => Some(f@),
                None => None,
            },
            line: self.line,
            framework: self.framework@,
            middleware: self.middleware@.map_values(|m: String| m@),
        }
    }
}

pub open spec fn route_views(routes: Seq<RouteFact>) -> Seq<RouteView> {
    routes.map_values(|r: RouteFact| r@)
}

// ── Handler resolution ─────────────────────────────────────────────────

/// The positions at or after `i` of the symbols named `name`.
pub open spec fn named_from(symbols: Seq<SymbolFact>, name: Seq<char>, i: int) -> Seq<int>
    decreases symbols.len() - i,
{
    if i < 0 || i >= symbols.len() {
        Seq::empty()
    } else if symbols[i].name@ == name {
        seq![i] + named_from(symbols, name, i + 1)
    } else {
        named_from(symbols, name, i + 1)
    }
}

/// The first position at or after `i` of a symbol named `name` defined in
/// `file`.
pub open spec fn same_file_from(symbols: Seq<SymbolFact>, name: Seq<char>, file: Seq<char>, i: int) -> Option<int>
    decreases symbols.len() - i,
{
    if i < 0 || i >= symbols.len() {
        None
    } else if symbols[i].name@ == name && symbols[i].file@ == file {
        Some(i)
    } else {
        same_file_from(symbols, name, file, i + 1)
    }
}

/// The file that defines a route's handler: the route's own file when it
/// defines a symbol of that name, else the file of the only symbol of that
/// name; none where the name is ambiguous or unknown. A route that already
/// names a handler file, or names no handler, keeps what it has.
pub open spec fn handler_file_spec(r: RouteView, symbols: Seq<SymbolFact>) -> Option<Seq<char>> {
    if r.handler_file is Some || r.handler.len() == 0 {
        r.handler_file
    } else {
        match same_file_from(symbols, r.handler, r.file, 0) {
            Some(i) => Some(symbols[i].file@),
            None => {
                let named = named_from(symbols, r.handler, 0);
                if named.len() == 1 {
                    Some(symbols[named[0]].file@)
                } else {
                    None
                }
            },
        }
    }
}

pub open spec fn with_handler_file(r: RouteView, f: Option<Seq<char>>) -> RouteView {
    RouteView { handler_file: f, ..r }
}

fn resolve_handler(route: &RouteFact, symbols: &[SymbolFact]) -> (f: Option<String>)
    ensures
        match f {
            Some(s) => handler_file_spec(route@, symbols@) == Some(s@),
            None => handler_file_spec(route@, symbols@) is None,
        },
{
    if route.handler_file.is_some() || route.handler.as_str().is_empty() {
        return match &route.handler_file {
            Some(s) => Some(owned(s.as_str())),
            None => None,
        };
    }
    let mut same: Option<usize> = None;
    let mut first: Option<usize> = None;
    let mut count: usize = 0;
    let ghost mut seen: Seq<int> = Seq::empty();
    let mut i: usize = 0;
    while i < symbols.len()
        invariant
            i <= symbols.len(),
            count == seen.len(),
            count <= i,
            same matches Some(s) ==> same_file_from(symbols@, route.handler@, route.file@, 0) == Some(s as int) && s < symbols.len(),
            same is None ==> same_file_from(symbols@, route.handler@, route.file@, 0) == same_file_from(symbols@, route.handler@, route.file@, i as int),
            named_from(symbols@, route.handler@, 0) == seen + named_from(symbols@, route.handler@, i as int),
            count >= 1 ==> (first matches Some(fi) && fi < symbols.len() && seen[0] == fi),
        decreases symbols.len() - i,
    {
        let s = &symbols[i];
        let named = str_eq(s.name.as_str(), route.handler.as_str());
        if named && same.is_none() && str_eq(s.file.as_str(), route.file.as_str()) {
            same = Some(i);
        }
        if named {
            if count == 0 {
                first = Some(i);
            }
            count += 1;
            proof {
                assert(seen + named_from(symbols@, route.handler@, i as int) =~= seen.push(i as int)
                    + named_from(symbols@, route.handler@, i + 1));
                seen = seen.push(i as int);
            }
        }
        i += 1;
    }
    assert(named_from(symbols@, route.handler@, i as int) =~= Seq::<int>::empty());
    assert(seen + named_from(symbols@, route.handler@, i as int) =~= seen);
    match same {
        Some(k) => Some(owned(symbols[k].file.as_str())),
        None => {
            if count == 1 {
                match first {
                    Some(k) => Some(owned(symbols[k].file.as_str())),
                    None => None,
                }
            } else {
                None
            }
        },
    }
}


// ── Order and deduplication ────────────────────────────────────────────

/// Two routes have the same key: file, framework, method, path, handler and
/// line.
#[verifier::opaque]
pub open spec fn same_key(a: RouteView, b: RouteView) -> bool {
    a.file == b.file && a.framework == b.framework && a.method == b.method && a.path == b.path
        && a.handler == b.handler && a.line == b.line
}

/// `a`'s key sorts strictly before `b`'s: by file, then framework, method,
/// path, handler and line.
#[verifier::opaque]
pub open spec fn key_lt(a: RouteView, b: RouteView) -> bool {
    if a.file != b.file {
        lex_lt(a.file, b.file)
    } else if a.framework != b.framework {
        lex_lt(a.framework, b.framework)
    } else if a.method != b.method {
        lex_lt(a.method, b.method)
    } else if a.path != b.path {
        lex_lt(a.path, b.path)
    } else if a.handler != b.handler {
        lex_lt(a.handler, b.handler)
    } else {
        a.line < b.line
    }
}

proof fn lemma_lex_facts(a: Seq<char>, b: Seq<char>, c: Seq<char>)
    ensures
        !lex_lt(a, a),
        lex_lt(a, b) ==> !lex_lt(b, a),
        lex_lt(a, b) && lex_lt(b, c) ==> lex_lt(a, c),
        a != b ==> lex_lt(a, b) || lex_lt(b, a),
{
    lemma_lex_irreflexive(a);
    lemma_lex_asymmetric(a, b);
    lemma_lex_transitive(a, b, c);
    lemma_lex_total(a, b);
}

/// The key order is a strict total order on keys.
pub proof fn lemma_key_order(a: RouteView, b: RouteView, c: RouteView)
    ensures
        !key_lt(a, a),
        key_lt(a, b) ==> !key_lt(b, a),
        key_lt(a, b) && key_lt(b, c) ==> key_lt(a, c),
        !same_key(a, b) ==> key_lt(a, b) || key_lt(b, a),
        same_key(a, b) ==> !key_lt(a, b),
        same_key(a, b) && key_lt(b, c) ==> key_lt(a, c),
        key_lt(a, b) && same_key(b, c) ==> key_lt(a, c),
        same_key(a, b) ==> same_key(b, a),
        same_key(a, b) && same_key(b, c) ==> same_key(a, c),
        same_key(a, a),
{
    reveal(key_lt);
    reveal(same_key);
    lemma_lex_facts(a.file, b.file, c.file);
    lemma_lex_facts(a.framework, b.framework, c.framework);
    lemma_lex_facts(a.method, b.method, c.method);
    lemma_lex_facts(a.path, b.path, c.path);
    lemma_lex_facts(a.handler, b.handler, c.handler);
    lemma_lex_facts(b.file, a.file, c.file);
    lemma_lex_facts(b.framework, a.framework, c.framework);
    lemma_lex_facts(b.method, a.method, c.method);
    lemma_lex_facts(b.path, a.path, c.path);
    lemma_lex_facts(b.handler, a.handler, c.handler);
}

/// Compare the keys of two routes: -1, 0 or 1.
fn compare_keys(a: &RouteFact, b: &RouteFact) -> (r: i8)
    ensures
        r == -1 <==> key_lt(a@, b@),
        r == 0 <==> same_key(a@, b@),
        r == 1 <==> key_lt(b@, a@),
        r == -1 || r == 0 || r == 1,
{
    proof {
        lemma_key_order(a@, b@, a@);
        reveal(key_lt);
        reveal(same_key);
    }
    let c = compare_str(a.file.as_str(), b.file.as_str());
    if c != 0 {
        proof { lemma_lex_facts(a.file@, b.file@, a.file@); }
        return c;
    }
    let c = compare_str(a.framework.as_str(), b.framework.as_str());
    if c != 0 {
        proof { lemma_lex_facts(a.framework@, b.framework@, a.framework@); }
        return c;
    }
    let c = compare_str(a.method.as_str(), b.method.as_str());
    if c != 0 {
        proof { lemma_lex_facts(a.method@, b.method@, a.method@); }
        return c;
    }
    let c = compare_str(a.path.as_str(), b.path.as_str());
    if c != 0 {
        proof { lemma_lex_facts(a.path@, b.path@, a.path@); }
        return c;
    }
    let c = compare_str(a.handler.as_str(), b.handler.as_str());
    if c != 0 {
        proof { lemma_lex_facts(a.handler@, b.handler@, a.handler@); }
        return c;
    }
    if a.line < b.line {
        -1
    } else if a.line == b.line {
        0
    } else {
        1
    }
}

/// The keys of `out` strictly increase.
#[verifier::opaque]
pub open spec fn keys_increasing(out: Seq<RouteView>) -> bool {
    forall|i: int, j: int| 0 <= i < j < out.len() ==> key_lt(#[trigger] out[i], #[trigger] out[j])
}

/// `input[k]` is the first route of `input` with its key.
#[verifier::opaque]
pub open spec fn first_with_key(input: Seq<RouteView>, k: int) -> bool {
    forall|k2: int| 0 <= k2 < k ==> !same_key(#[trigger] input[k2], input[k])
}

/// `out` lists, in key order, the first route of `input` for each key that
/// occurs in `input`: each route of `out` is a first route of its key
/// (`src` tells which), and each route of `input` has its key in `out`
/// (`pos` tells where).
pub open spec fn ordered_firsts(input: Seq<RouteView>, out: Seq<RouteView>) -> bool {
    exists|src: Seq<int>, pos: Seq<int>| #[trigger] placed(input, out, input.len() as int, src, pos)
}

fn copy_route(r: &RouteFact) -> (c: RouteFact)
    ensures
        c@ == r@,
{
    let mut middleware: Vec<String> = Vec::new();
    let mut i: usize = 0;
    while i < r.middleware.len()
        invariant
            i <= r.middleware.len(),
            middleware@.map_values(|m: String| m@) == r.middleware@.take(i as int).map_values(|m: String| m@),
        decreases r.middleware.len() - i,
    {
        let ghost before = middleware@;
        middleware.push(owned(r.middleware[i].as_str()));
        assert(middleware@.map_values(|m: String| m@) =~= before.map_values(|m: String| m@).push(r.middleware@[i as int]@));
        assert(r.middleware@.take(i + 1).map_values(|m: String| m@) =~= r.middleware@.take(i as int).map_values(|m: String| m@).push(r.middleware@[i as int]@));
        i += 1;
    }
    assert(r.middleware@.take(r.middleware.len() as int) =~= r.middleware@);
    RouteFact {
        id: owned(r.id.as_str()),
        file: owned(r.file.as_str()),
        language: owned(r.language.as_str()),
        method: owned(r.method.as_str()),
        path: owned(r.path.as_str()),
        handler: owned(r.handler.as_str()),
        handler_file: match &r.handler_file {
            Some(f) => Some(owned(f.as_str())),
            None => None,
        },
        line: r.line,
        framework: owned(r.framework.as_str()),
        middleware,
    }
}

/// `out` orders, with one route per key, the first `n` routes of `input`:
/// `src` gives the route of `input` that each route of `out` is, and `pos`
/// the route of `out` that has the key of each of the first `n` routes.
pub open spec fn placed(input: Seq<RouteView>, out: Seq<RouteView>, n: int, src: Seq<int>, pos: Seq<int>) -> bool {
    &&& keys_increasing(out)
    &&& src.len() == out.len()
    &&& forall|i: int| 0 <= i < out.len() ==> 0 <= #[trigger] src[i] < n && out[i] == input[src[i]] && first_with_key(input, src[i])
    &&& pos.len() == n
    &&& forall|k: int| 0 <= k < n ==> 0 <= #[trigger] pos[k] < out.len() && same_key(out[pos[k]], input[k])
}

/// Where the search for `r`'s position stops short of a route with `r`'s
/// key, no route of the sorted list has that key, and `r` sorts before the
/// route at the stop.
proof fn lemma_key_absent(before: Seq<RouteView>, r: RouteView, j: int)
    requires
        0 <= j <= before.len(),
        keys_increasing(before),
        forall|i: int| 0 <= i < j ==> key_lt(#[trigger] before[i], r),
        j < before.len() ==> !key_lt(before[j], r) && !same_key(before[j], r),
    ensures
        forall|i: int| 0 <= i < before.len() ==> !same_key(#[trigger] before[i], r),
        j < before.len() ==> key_lt(r, before[j]),
{
    reveal(keys_increasing);
    assert forall|i: int| 0 <= i < before.len() implies !same_key(#[trigger] before[i], r) by {
        if same_key(before[i], r) {
            if i < j {
                lemma_key_order(before[i], r, r);
            } else if i > j {
                assert(key_lt(before[j], before[i]));
                lemma_key_order(before[j], before[i], r);
            }
        }
    }
    if j < before.len() {
        lemma_key_order(before[j], r, r);
    }
}

/// Inserting a route at its place keeps the keys increasing.
proof fn lemma_insert_increasing(before: Seq<RouteView>, r: RouteView, j: int)
    requires
        0 <= j <= before.len(),
        keys_increasing(before),
        forall|i: int| 0 <= i < j ==> key_lt(#[trigger] before[i], r),
        j < before.len() ==> key_lt(r, before[j]),
    ensures
        keys_increasing(before.insert(j, r)),
{
    reveal(keys_increasing);
    let after = before.insert(j, r);
    assert forall|i: int, i2: int| 0 <= i < i2 < after.len() implies key_lt(#[trigger] after[i], #[trigger] after[i2]) by {
        if i < j && i2 == j {
        } else if i < j && i2 > j {
            assert(after[i2] == before[i2 - 1]);
        } else if i == j {
            assert(after[i2] == before[i2 - 1]);
            if i2 - 1 > j {
                lemma_key_order(r, before[j], before[i2 - 1]);
            }
        } else if i2 < j {
        } else {
            assert(after[i] == before[i - 1]);
            assert(after[i2] == before[i2 - 1]);
        }
    }
}

/// A route whose key no placed route has is the first with its key.
proof fn lemma_first_new_key(input: Seq<RouteView>, before: Seq<RouteView>, k: int, src: Seq<int>, pos: Seq<int>)
    requires
        0 <= k < input.len(),
        placed(input, before, k, src, pos),
        forall|i: int| 0 <= i < before.len() ==> !same_key(#[trigger] before[i], input[k]),
    ensures
        first_with_key(input, k),
{
    reveal(first_with_key);
    assert forall|k2: int| 0 <= k2 < k implies !same_key(#[trigger] input[k2], input[k]) by {
        if same_key(input[k2], input[k]) {
            let i = pos[k2];
            lemma_key_order(before[i], input[k2], input[k]);
        }
    }
}

/// Inserting the first route of a new key at position `j`.
proof fn lemma_insert_placed(input: Seq<RouteView>, before: Seq<RouteView>, k: int, j: int, src: Seq<int>, pos: Seq<int>)
    requires
        0 <= k < input.len(),
        0 <= j <= before.len(),
        placed(input, before, k, src, pos),
        keys_increasing(before.insert(j, input[k])),
        first_with_key(input, k),
    ensures
        placed(
            input,
            before.insert(j, input[k]),
            k + 1,
            src.insert(j, k),
            pos.map_values(|p: int| if p >= j { p + 1 } else { p }).push(j),
        ),
{
    let after = before.insert(j, input[k]);
    let src2 = src.insert(j, k);
    let pos2 = pos.map_values(|p: int| if p >= j { p + 1 } else { p }).push(j);
    assert forall|i: int| 0 <= i < after.len() implies 0 <= #[trigger] src2[i] < k + 1 && after[i] == input[src2[i]] && first_with_key(input, src2[i]) by {
        if i < j {
            assert(src2[i] == src[i] && after[i] == before[i]);
        } else if i > j {
            assert(src2[i] == src[i - 1] && after[i] == before[i - 1]);
        }
    }
    assert forall|k0: int| 0 <= k0 < k + 1 implies 0 <= #[trigger] pos2[k0] < after.len() && same_key(after[pos2[k0]], input[k0]) by {
        if k0 == k {
            lemma_key_order(input[k], input[k], input[k]);
        } else {
            let p = pos[k0];
            if p >= j {
                assert(pos2[k0] == p + 1);
                assert(after[p + 1] == before[p]);
            } else {
                assert(pos2[k0] == p);
                assert(after[p] == before[p]);
            }
        }
    }
}

/// A route whose key is placed at position `j` already.
proof fn lemma_skip_placed(input: Seq<RouteView>, before: Seq<RouteView>, k: int, j: int, src: Seq<int>, pos: Seq<int>)
    requires
        0 <= k < input.len(),
        0 <= j < before.len(),
        same_key(before[j], input[k]),
        placed(input, before, k, src, pos),
    ensures
        placed(input, before, k + 1, src, pos.push(j)),
{
    let pos2 = pos.push(j);
    assert forall|k0: int| 0 <= k0 < k + 1 implies 0 <= #[trigger] pos2[k0] < before.len() && same_key(before[pos2[k0]], input[k0]) by {
        if k0 < k {
            assert(pos2[k0] == pos[k0]);
        }
    }
}

/// Order routes by key and keep the first route of each key.
pub fn order_routes(routes: &Vec<RouteFact>) -> (out: Vec<RouteFact>)
    ensures
        ordered_firsts(route_views(routes@), route_views(out@)),
{
    let ghost input = route_views(routes@);
    let mut out: Vec<RouteFact> = Vec::new();
    let ghost mut src: Seq<int> = Seq::empty();
    let ghost mut pos: Seq<int> = Seq::empty();
    proof {
        reveal(keys_increasing);
        assert(route_views(out@) =~= Seq::<RouteView>::empty());
    }
    let mut k: usize = 0;
    while k < routes.len()
        invariant
            k <= routes.len(),
            input == route_views(routes@),
            placed(input, route_views(out@), k as int, src, pos),
        decreases routes.len() - k,
    {
        let r = &routes[k];
        assert(input[k as int] == r@);
        let ghost before = route_views(out@);
        let mut j: usize = 0;
        while j < out.len() && compare_keys(&out[j], r) == -1
            invariant
                j <= out@.len(),
                before == route_views(out@),
                forall|i: int| 0 <= i < j ==> key_lt(#[trigger] before[i], r@),
            decreases out.len() - j,
        {
            assert(before[j as int] == out@[j as int]@);
            j += 1;
        }
        if j < out.len() {
            assert(before[j as int] == out@[j as int]@);
        }
        if j < out.len() && compare_keys(&out[j], r) == 0 {
            proof {
                lemma_skip_placed(input, before, k as int, j as int, src, pos);
                pos = pos.push(j as int);
            }
        } else {
            proof {
                lemma_key_absent(before, r@, j as int);
                lemma_first_new_key(input, before, k as int, src, pos);
                lemma_insert_increasing(before, r@, j as int);
                lemma_insert_placed(input, before, k as int, j as int, src, pos);
                src = src.insert(j as int, k as int);
                pos = pos.map_values(|p: int| if p >= j { p + 1 } else { p }).push(j as int);
            }
            let c = copy_route(r);
            out.insert(j, c);
            assert(route_views(out@) =~= before.insert(j as int, r@));
        }
        k += 1;
    }
    proof {
        let ov = route_views(out@);
        assert(input.len() == routes.len());
        assert(placed(input, ov, input.len() as int, src, pos));
    }
    out
}


/// The routes with their handler files resolved against the symbols.
pub open spec fn with_handlers(input: Seq<RouteView>, symbols: Seq<SymbolFact>) -> Seq<RouteView> {
    input.map_values(|r: RouteView| with_handler_file(r, handler_file_spec(r, symbols)))
}

/// Resolve each route's handler to the file that defines it, then order the
/// routes by file, framework, method, path, handler and line, keeping the
/// first route of each such key.
///
/// A same-file definition is always preferred. Another file is taken only
/// when the handler name has one definition; a route that names its handler
/// file already, or names no handler, is left as it is.
pub fn resolve_routes(routes: Vec<RouteFact>, symbols: &[SymbolFact]) -> (out: Vec<RouteFact>)
    ensures
        ordered_firsts(with_handlers(route_views(routes@), symbols@), route_views(out@)),
{
    let ghost target = with_handlers(route_views(routes@), symbols@);
    let mut resolved: Vec<RouteFact> = Vec::new();
    let mut k: usize = 0;
    while k < routes.len()
        invariant
            k <= routes.len(),
            target == with_handlers(route_views(routes@), symbols@),
            route_views(resolved@) == target.take(k as int),
        decreases routes.len() - k,
    {
        let r = &routes[k];
        let handler_file = resolve_handler(r, symbols);
        let mut c = copy_route(r);
        c.handler_file = handler_file;
        let ghost before = route_views(resolved@);
        resolved.push(c);
        assert(route_views(resolved@) =~= before.push(c@));
        assert(target.take(k + 1) =~= target.take(k as int).push(target[k as int]));
        assert(c@ == target[k as int]);
        k += 1;
    }
    assert(target.take(routes.len() as int) =~= target);
    order_routes(&resolved)
}

} // verus!
