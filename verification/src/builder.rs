//! Building the code graph: the facts of each file get their identifiers,
//! imports and calls are resolved, calls learn the symbol that encloses
//! them, relationships and registrations are resolved, and the edges are
//! drawn from the resolved facts.
use vstd::prelude::*;
use crate::code_graph::{CodeGraph, FileParserResult, ParserFact};
use crate::codemap::{
    import_views, symbol_views, CallFact, CallView, CodeEdge, CodeEdgeType, FileNode, ImportFact, ImportView,
    SymbolFact, SymbolView, VariableFact,
};
use crate::code_graph::{lemma_positions_of_file, of_file, files_of};
use crate::codemap::{files_of_symbols, index_positions, paths_of, positions_of, strings_view};
use crate::di_bindings::{di_views, first_bindings, resolve_di_bindings, DIFact, DIView};
use crate::import_resolver::{resolve_imports, resolved_import};
use crate::symbol_resolver::{resolve_calls, resolved_call};
use crate::type_relations::{resolve_type_impls, resolves, views, ImplKind, TypeImplFact, TypeImplView};
use crate::text::{decimal, digit_char, owned, push_decimal, push_str, str_eq, to_lowercase};
use crate::config::ParserBackend;
use crate::syntax_tree::grammar_loads;
use crate::codemap::ParserDiagnostic;
use crate::file_types::{language_name, Language};
use crate::registry::{
    calls_extracted, grammar_of, imports_extracted, indexer_of, registry, symbols_extracted, tree_sitter_extract, Indexer,
};

verus! {

// ── Moving facts ───────────────────────────────────────────────────────

/// The items in reverse order.
pub fn reversed<T>(v: Vec<T>) -> (r: Vec<T>)
    ensures
        r.len() == v.len(),
        forall|j: int| 0 <= j < v.len() ==> #[trigger] r@[j] == v@[v.len() - 1 - j],
{
    let ghost orig = v@;
    let mut v = v;
    let mut r: Vec<T> = Vec::new();
    while v.len() > 0
        invariant
            v@ == orig.take(v.len() as int),
            r.len() + v.len() == orig.len(),
            forall|j: int| 0 <= j < r.len() ==> #[trigger] r@[j] == orig[orig.len() - 1 - j],
        decreases v.len(),
    {
        let x = v.pop().unwrap();
        r.push(x);
        assert(v@ =~= orig.take(v.len() as int));
    }
    r
}

// ── Identifiers ────────────────────────────────────────────────────────

pub open spec fn import_id(rel: Seq<char>, i: int) -> Seq<char> {
    "import:"@ + rel + ":"@ + decimal(i as nat)
}

pub open spec fn symbol_id(rel: Seq<char>, name: Seq<char>, line: usize, i: int) -> Seq<char> {
    "symbol:"@ + rel + ":"@ + name + ":"@ + decimal(line as nat) + ":"@ + decimal(i as nat)
}

pub open spec fn call_id(rel: Seq<char>, line: usize, i: int) -> Seq<char> {
    "call:"@ + rel + ":"@ + decimal(line as nat) + ":"@ + decimal(i as nat)
}

pub open spec fn variable_id(rel: Seq<char>, i: int) -> Seq<char> {
    "var:"@ + rel + ":"@ + decimal(i as nat)
}

/// The imports of a file, numbered in order.
pub open spec fn imports_with_ids(rel: Seq<char>, v: Seq<ImportView>) -> Seq<ImportView> {
    v.map(|i: int, f: ImportView| ImportView { id: import_id(rel, i), ..f })
}

/// The symbols of a file, named after the file, the symbol, its first line
/// and its place in the file, so that overloads of one name stay apart.
pub open spec fn symbols_with_ids(rel: Seq<char>, v: Seq<SymbolView>) -> Seq<SymbolView> {
    v.map(|i: int, f: SymbolView| SymbolView { id: symbol_id(rel, f.name, f.line_start, i), ..f })
}

proof fn lemma_decimal_digits(n: nat)
    ensures
        decimal(n).len() >= 1,
        forall|k: int| 0 <= k < decimal(n).len() ==> decimal(n)[k] != ':',
    decreases n,
{
    if n >= 10 {
        lemma_decimal_digits(n / 10);
        assert forall|k: int| 0 <= k < decimal(n).len() implies decimal(n)[k] != ':' by {
            if k < decimal(n / 10).len() {
                assert(decimal(n)[k] == decimal(n / 10)[k]);
            }
        }
    }
}

proof fn lemma_digit_injective(x: nat, y: nat)
    requires
        x < 10,
        y < 10,
        digit_char(x) == digit_char(y),
    ensures
        x == y,
{
}

proof fn lemma_decimal_injective(a: nat, b: nat)
    requires
        decimal(a) == decimal(b),
    ensures
        a == b,
    decreases a,
{
    lemma_decimal_digits(a);
    lemma_decimal_digits(b);
    if a < 10 && b < 10 {
        assert(decimal(a)[0] == digit_char(a));
        assert(decimal(b)[0] == digit_char(b));
        lemma_digit_injective(a, b);
    } else if a < 10 {
        lemma_decimal_digits(b / 10);
        assert(decimal(b).len() == decimal(b / 10).len() + 1);
    } else if b < 10 {
        lemma_decimal_digits(a / 10);
        assert(decimal(a).len() == decimal(a / 10).len() + 1);
    } else {
        let da = decimal(a);
        assert(da.drop_last() =~= decimal(a / 10));
        assert(decimal(b).drop_last() =~= decimal(b / 10));
        assert(da.last() == digit_char(a % 10));
        assert(decimal(b).last() == digit_char(b % 10));
        lemma_digit_injective(a % 10, b % 10);
        lemma_decimal_injective(a / 10, b / 10);
        assert(a == (a / 10) * 10 + a % 10);
        assert(b == (b / 10) * 10 + b % 10);
    }
}

/// A text ending in `:` and the decimal digits of a number tells the
/// number.
proof fn lemma_decimal_suffix(x: Seq<char>, y: Seq<char>, i: nat, j: nat)
    requires
        x + ":"@ + decimal(i) == y + ":"@ + decimal(j),
    ensures
        i == j,
{
    reveal_strlit(":");
    lemma_decimal_digits(i);
    lemma_decimal_digits(j);
    let s = x + ":"@ + decimal(i);
    let t = y + ":"@ + decimal(j);
    let di = decimal(i);
    let dj = decimal(j);
    let n = s.len();
    if di.len() < dj.len() {
        let k = n - di.len() - 1;
        assert(s[k] == ':');
        assert(t[k] == dj[k - (n - dj.len())]);
    } else if dj.len() < di.len() {
        let k = n - dj.len() - 1;
        assert(t[k] == ':');
        assert(s[k] == di[k - (n - di.len())]);
    } else {
        assert(s.skip(n - di.len()) =~= di);
        assert(t.skip(n - dj.len()) =~= dj);
        lemma_decimal_injective(i, j);
    }
}

/// The symbols of one file get pairwise distinct identifiers, overloads of
/// one name included.
pub proof fn lemma_symbol_ids_distinct(rel: Seq<char>, v: Seq<SymbolView>)
    ensures
        forall|i: int, j: int|
            0 <= i < j < v.len() ==> (#[trigger] symbols_with_ids(rel, v)[i]).id != (#[trigger] symbols_with_ids(
                rel,
                v,
            )[j]).id,
{
    assert forall|i: int, j: int| 0 <= i < j < v.len() implies (#[trigger] symbols_with_ids(rel, v)[i]).id
        != (#[trigger] symbols_with_ids(rel, v)[j]).id by {
        let a = "symbol:"@ + rel + ":"@ + v[i].name + ":"@ + decimal(v[i].line_start as nat);
        let b = "symbol:"@ + rel + ":"@ + v[j].name + ":"@ + decimal(v[j].line_start as nat);
        if symbols_with_ids(rel, v)[i].id == symbols_with_ids(rel, v)[j].id {
            lemma_decimal_suffix(a, b, i as nat, j as nat);
        }
    }
}

/// The calls of a file, keyed on their line and their place in the file.
pub open spec fn calls_with_ids(rel: Seq<char>, v: Seq<CallView>) -> Seq<CallView> {
    v.map(|i: int, f: CallView| CallView { id: call_id(rel, f.line, i), ..f })
}

pub open spec fn call_views(v: Seq<CallFact>) -> Seq<CallView> {
    v.map_values(|f: CallFact| f@)
}

/// Numbers the imports of a file: `import:<file>:<index>`.
pub fn number_imports(rel: &str, v: Vec<ImportFact>) -> (r: Vec<ImportFact>)
    ensures
        import_views(r@) == imports_with_ids(rel@, import_views(v@)),
{
    let ghost orig = v@;
    let mut tmp = reversed(v);
    let mut out: Vec<ImportFact> = Vec::new();
    while tmp.len() > 0
        invariant
            out.len() + tmp.len() == orig.len(),
            forall|j: int| 0 <= j < tmp.len() ==> #[trigger] tmp@[j] == orig[orig.len() - 1 - j],
            import_views(out@) == imports_with_ids(rel@, import_views(orig)).take(out.len() as int),
        decreases tmp.len(),
    {
        let k = out.len();
        let mut f = tmp.pop().unwrap();
        assert(f == orig[k as int]);
        let mut id = owned("import:");
        push_str(&mut id, rel);
        push_str(&mut id, ":");
        push_decimal(&mut id, k);
        f.id = id;
        let ghost before = import_views(out@);
        out.push(f);
        assert(import_views(out@) =~= before.push(f@));
        assert(imports_with_ids(rel@, import_views(orig)).take(k + 1) =~= imports_with_ids(rel@, import_views(orig)).take(
            k as int,
        ).push(f@));
    }
    assert(imports_with_ids(rel@, import_views(orig)).take(out.len() as int) =~= imports_with_ids(rel@, import_views(orig)));
    out
}

/// Names the symbols of a file: `symbol:<file>:<name>:<line>:<index>`.
pub fn number_symbols(rel: &str, v: Vec<SymbolFact>) -> (r: Vec<SymbolFact>)
    ensures
        symbol_views(r@) == symbols_with_ids(rel@, symbol_views(v@)),
{
    let ghost orig = v@;
    let mut tmp = reversed(v);
    let mut out: Vec<SymbolFact> = Vec::new();
    while tmp.len() > 0
        invariant
            out.len() + tmp.len() == orig.len(),
            forall|j: int| 0 <= j < tmp.len() ==> #[trigger] tmp@[j] == orig[orig.len() - 1 - j],
            symbol_views(out@) == symbols_with_ids(rel@, symbol_views(orig)).take(out.len() as int),
        decreases tmp.len(),
    {
        let k = out.len();
        let mut f = tmp.pop().unwrap();
        assert(f == orig[k as int]);
        let mut id = owned("symbol:");
        push_str(&mut id, rel);
        push_str(&mut id, ":");
        push_str(&mut id, f.name.as_str());
        push_str(&mut id, ":");
        push_decimal(&mut id, f.line_start);
        push_str(&mut id, ":");
        push_decimal(&mut id, k);
        f.id = id;
        let ghost before = symbol_views(out@);
        out.push(f);
        assert(symbol_views(out@) =~= before.push(f@));
        assert(symbols_with_ids(rel@, symbol_views(orig)).take(k + 1) =~= symbols_with_ids(rel@, symbol_views(orig)).take(
            k as int,
        ).push(f@));
    }
    assert(symbols_with_ids(rel@, symbol_views(orig)).take(out.len() as int) =~= symbols_with_ids(rel@, symbol_views(orig)));
    out
}

/// Numbers the calls of a file: `call:<file>:<line>:<index>`.
pub fn number_calls(rel: &str, v: Vec<CallFact>) -> (r: Vec<CallFact>)
    ensures
        call_views(r@) == calls_with_ids(rel@, call_views(v@)),
{
    let ghost orig = v@;
    let mut tmp = reversed(v);
    let mut out: Vec<CallFact> = Vec::new();
    while tmp.len() > 0
        invariant
            out.len() + tmp.len() == orig.len(),
            forall|j: int| 0 <= j < tmp.len() ==> #[trigger] tmp@[j] == orig[orig.len() - 1 - j],
            call_views(out@) == calls_with_ids(rel@, call_views(orig)).take(out.len() as int),
        decreases tmp.len(),
    {
        let k = out.len();
        let mut f = tmp.pop().unwrap();
        assert(f == orig[k as int]);
        let mut id = owned("call:");
        push_str(&mut id, rel);
        push_str(&mut id, ":");
        push_decimal(&mut id, f.line);
        push_str(&mut id, ":");
        push_decimal(&mut id, k);
        f.id = id;
        let ghost before = call_views(out@);
        out.push(f);
        assert(call_views(out@) =~= before.push(f@));
        assert(calls_with_ids(rel@, call_views(orig)).take(k + 1) =~= calls_with_ids(rel@, call_views(orig)).take(
            k as int,
        ).push(f@));
    }
    assert(calls_with_ids(rel@, call_views(orig)).take(out.len() as int) =~= calls_with_ids(rel@, call_views(orig)));
    out
}

/// Numbers the variables of a file: `var:<file>:<index>`; all else is
/// kept.
pub fn number_variables(rel: &str, v: Vec<VariableFact>) -> (r: Vec<VariableFact>)
    ensures
        r.len() == v.len(),
        forall|k: int| 0 <= k < v.len() ==> (#[trigger] r@[k]).id@ == variable_id(rel@, k) && r@[k].file == v@[k].file
            && r@[k].language == v@[k].language && r@[k].name == v@[k].name && r@[k].kind == v@[k].kind
            && r@[k].type_annotation == v@[k].type_annotation && r@[k].is_mutable == v@[k].is_mutable
            && r@[k].line_def == v@[k].line_def && r@[k].scope_symbol == v@[k].scope_symbol && r@[k].scope_start
            == v@[k].scope_start && r@[k].scope_end == v@[k].scope_end && r@[k].usage_sites == v@[k].usage_sites,
{
    let ghost orig = v@;
    let mut tmp = reversed(v);
    let mut out: Vec<VariableFact> = Vec::new();
    while tmp.len() > 0
        invariant
            out.len() + tmp.len() == orig.len(),
            forall|j: int| 0 <= j < tmp.len() ==> #[trigger] tmp@[j] == orig[orig.len() - 1 - j],
            forall|k: int| 0 <= k < out.len() ==> (#[trigger] out@[k]).id@ == variable_id(rel@, k) && out@[k].file
                == orig[k].file && out@[k].language == orig[k].language && out@[k].name == orig[k].name && out@[k].kind
                == orig[k].kind && out@[k].type_annotation == orig[k].type_annotation && out@[k].is_mutable
                == orig[k].is_mutable && out@[k].line_def == orig[k].line_def && out@[k].scope_symbol
                == orig[k].scope_symbol && out@[k].scope_start == orig[k].scope_start && out@[k].scope_end
                == orig[k].scope_end && out@[k].usage_sites == orig[k].usage_sites,
        decreases tmp.len(),
    {
        let k = out.len();
        let mut f = tmp.pop().unwrap();
        assert(f == orig[k as int]);
        let mut id = owned("var:");
        push_str(&mut id, rel);
        push_str(&mut id, ":");
        push_decimal(&mut id, k);
        f.id = id;
        out.push(f);
    }
    out
}


// ── Enclosing symbols ──────────────────────────────────────────────────

/// The name of the first of the symbols whose lines hold `line`.
pub open spec fn first_enclosing(syms: Seq<SymbolFact>, line: usize) -> Option<Seq<char>>
    decreases syms.len(),
{
    if syms.len() == 0 {
        None
    } else if syms[0].line_start <= line <= syms[0].line_end {
        Some(syms[0].name@)
    } else {
        first_enclosing(syms.drop_first(), line)
    }
}

/// The call with the symbol of its file that encloses its line, the first
/// such symbol; a call that no symbol encloses keeps what it had.
pub open spec fn with_caller(c: CallView, syms: Seq<SymbolFact>) -> CallView {
    match first_enclosing(of_file(syms, c.file), c.line) {
        Some(n) => CallView { caller_symbol: Some(n), ..c },
        None => c,
    }
}

/// The files of the symbols, as strings.
fn symbol_files(syms: &Vec<SymbolFact>) -> (r: Vec<String>)
    ensures
        strings_view(r@) == files_of_symbols(syms@),
{
    let mut r: Vec<String> = Vec::new();
    let mut i: usize = 0;
    while i < syms.len()
        invariant
            i <= syms.len(),
            strings_view(r@) == files_of_symbols(syms@).take(i as int),
        decreases syms.len() - i,
    {
        let ghost before = strings_view(r@);
        r.push(owned(syms[i].file.as_str()));
        assert(strings_view(r@) =~= before.push(syms@[i as int].file@));
        assert(files_of_symbols(syms@).take(i + 1) =~= files_of_symbols(syms@).take(i as int).push(syms@[i as int].file@));
        i += 1;
    }
    assert(files_of_symbols(syms@).take(syms.len() as int) =~= files_of_symbols(syms@));
    r
}

/// Gives every call the symbol of its file that encloses its line.
pub fn fill_callers(calls: &mut Vec<CallFact>, syms: &Vec<SymbolFact>)
    ensures
        call_views(final(calls)@) == call_views(old(calls)@).map_values(|c: CallView| with_caller(c, syms@)),
{
    let files = symbol_files(syms);
    let ix = index_positions(&files);
    let _n = syms.len();
    assert(files_of(syms@) =~= files_of_symbols(syms@));
    let ghost orig = calls@;
    let mut i: usize = 0;
    while i < calls.len()
        invariant
            i <= calls.len() == orig.len(),
            crate::codemap::indexes_keys(ix@, files_of_symbols(syms@)),
            files_of(syms@) == files_of_symbols(syms@),
            syms@.len() <= usize::MAX,
            forall|k: int| 0 <= k < i ==> #[trigger] calls@[k]@ == with_caller(orig[k]@, syms@),
            forall|k: int| i <= k < calls.len() ==> #[trigger] calls@[k] == orig[k],
        decreases calls.len() - i,
    {
        let file = calls[i].file.as_str();
        let line = calls[i].line;
        let ps: Vec<usize> = match ix.get(file) {
            Some(v) => v.clone(),
            None => Vec::new(),
        };
        let ghost list = of_file(syms@, file@);
        proof {
            lemma_positions_of_file(syms@, file@);
            if !ix@.contains_key(file@) {
                crate::codemap::lemma_positions_absent(files_of_symbols(syms@), file@);
            }
        }
        assert(ps@ == positions_of(files_of(syms@), file@));
        let mut found: Option<String> = None;
        let mut k: usize = 0;
        assert(list.skip(0) =~= list);
        while k < ps.len()
            invariant_except_break
                found is None,
                first_enclosing(list, line) == first_enclosing(list.skip(k as int), line),
            invariant
                k <= ps.len() == list.len(),
                forall|j: int| 0 <= j < list.len() ==> (#[trigger] ps@[j]) < syms@.len() && syms@[ps@[j] as int]
                    == list[j],
            ensures
                match found {
                    Some(n) => first_enclosing(list, line) == Some(n@),
                    None => first_enclosing(list, line) is None,
                },
            decreases ps.len() - k,
        {
            let s = &syms[ps[k]];
            assert(list.skip(k as int)[0] == list[k as int]);
            assert(list.skip(k as int).drop_first() =~= list.skip(k + 1));
            if s.line_start <= line && line <= s.line_end {
                found = Some(owned(s.name.as_str()));
                break;
            }
            k += 1;
        }
        proof {
            if found is None && k == ps.len() {
                assert(list.skip(k as int) =~= Seq::<SymbolFact>::empty());
            }
        }
        match found {
            Some(n) => {
                let c = &calls[i];
                let updated = CallFact {
                    id: owned(c.id.as_str()),
                    file: owned(c.file.as_str()),
                    language: owned(c.language.as_str()),
                    kind: c.kind,
                    caller_symbol: Some(n),
                    callee_text: owned(c.callee_text.as_str()),
                    object: copy_opt(&c.object),
                    resolved_symbol: copy_opt(&c.resolved_symbol),
                    line: c.line,
                    column: c.column,
                    confidence: c.confidence,
                };
                assert(updated@ == with_caller(orig[i as int]@, syms@));
                calls.set(i, updated);
            },
            None => {},
        }
        i += 1;
    }
    assert(call_views(calls@) =~= call_views(orig).map_values(|c: CallView| with_caller(c, syms@)));
}

fn copy_opt(o: &Option<String>) -> (r: Option<String>)
    ensures
        match (r, *o) {
            (Some(a), Some(b)) => a@ == b@,
            (None, None) => true,
            _ => false,
        },
{
    match o {
        Some(s) => Some(owned(s.as_str())),
        None => None,
    }
}


// ── Relationship and registration identifiers ──────────────────────────

pub open spec fn type_impl_id(t: TypeImplView, i: int) -> Seq<char> {
    "type_impl:"@ + t.file + ":"@ + decimal(t.line as nat) + ":"@ + t.implementing_type + ":"@ + decimal(i as nat)
}

pub open spec fn di_id(d: DIView, i: int) -> Seq<char> {
    "di:"@ + d.file + ":"@ + decimal(d.line as nat) + ":"@ + d.abstract_type + ":"@ + decimal(i as nat)
}

pub open spec fn type_impls_with_ids(v: Seq<TypeImplView>) -> Seq<TypeImplView> {
    v.map(|i: int, t: TypeImplView| TypeImplView { id: type_impl_id(t, i), ..t })
}

pub open spec fn di_with_ids(v: Seq<DIView>) -> Seq<DIView> {
    v.map(|i: int, d: DIView| DIView { id: di_id(d, i), ..d })
}

/// Numbers the resolved relationships:
/// `type_impl:<file>:<line>:<type>:<index>`.
pub fn number_type_impls(v: Vec<TypeImplFact>) -> (r: Vec<TypeImplFact>)
    ensures
        views(r@) == type_impls_with_ids(views(v@)),
{
    let ghost orig = v@;
    let mut tmp = reversed(v);
    let mut out: Vec<TypeImplFact> = Vec::new();
    while tmp.len() > 0
        invariant
            out.len() + tmp.len() == orig.len(),
            forall|j: int| 0 <= j < tmp.len() ==> #[trigger] tmp@[j] == orig[orig.len() - 1 - j],
            views(out@) == type_impls_with_ids(views(orig)).take(out.len() as int),
        decreases tmp.len(),
    {
        let k = out.len();
        let mut f = tmp.pop().unwrap();
        assert(f == orig[k as int]);
        let mut id = owned("type_impl:");
        push_str(&mut id, f.file.as_str());
        push_str(&mut id, ":");
        push_decimal(&mut id, f.line);
        push_str(&mut id, ":");
        push_str(&mut id, f.implementing_type.as_str());
        push_str(&mut id, ":");
        push_decimal(&mut id, k);
        f.id = id;
        let ghost before = views(out@);
        out.push(f);
        assert(views(out@) =~= before.push(f@));
        assert(type_impls_with_ids(views(orig)).take(k + 1) =~= type_impls_with_ids(views(orig)).take(k as int).push(f@));
    }
    assert(type_impls_with_ids(views(orig)).take(out.len() as int) =~= type_impls_with_ids(views(orig)));
    out
}

/// Numbers the resolved registrations: `di:<file>:<line>:<type>:<index>`.
pub fn number_di_bindings(v: Vec<DIFact>) -> (r: Vec<DIFact>)
    ensures
        di_views(r@) == di_with_ids(di_views(v@)),
{
    let ghost orig = v@;
    let mut tmp = reversed(v);
    let mut out: Vec<DIFact> = Vec::new();
    while tmp.len() > 0
        invariant
            out.len() + tmp.len() == orig.len(),
            forall|j: int| 0 <= j < tmp.len() ==> #[trigger] tmp@[j] == orig[orig.len() - 1 - j],
            di_views(out@) == di_with_ids(di_views(orig)).take(out.len() as int),
        decreases tmp.len(),
    {
        let k = out.len();
        let mut f = tmp.pop().unwrap();
        assert(f == orig[k as int]);
        let mut id = owned("di:");
        push_str(&mut id, f.file.as_str());
        push_str(&mut id, ":");
        push_decimal(&mut id, f.line);
        push_str(&mut id, ":");
        push_str(&mut id, f.abstract_type.as_str());
        push_str(&mut id, ":");
        push_decimal(&mut id, k);
        f.id = id;
        let ghost before = di_views(out@);
        out.push(f);
        assert(di_views(out@) =~= before.push(f@));
        assert(di_with_ids(di_views(orig)).take(k + 1) =~= di_with_ids(di_views(orig)).take(k as int).push(f@));
    }
    assert(di_with_ids(di_views(orig)).take(out.len() as int) =~= di_with_ids(di_views(orig)));
    out
}

// ── Edges ──────────────────────────────────────────────────────────────

pub struct EdgeView {
    pub from: Seq<char>,
    pub to: Seq<char>,
    pub edge_type: CodeEdgeType,
}

pub open spec fn edge_views(v: Seq<CodeEdge>) -> Seq<EdgeView> {
    v.map_values(|e: CodeEdge| EdgeView { from: e.from@, to: e.to@, edge_type: e.edge_type })
}

/// An edge from each importing file to the file its import resolves to.
pub open spec fn import_edges(v: Seq<ImportView>) -> Seq<EdgeView>
    decreases v.len(),
{
    if v.len() == 0 {
        Seq::empty()
    } else {
        import_edges(v.drop_last()) + match v.last().resolved_file {
            Some(r) => seq![EdgeView { from: v.last().file, to: r, edge_type: CodeEdgeType::Imports }],
            None => Seq::empty(),
        }
    }
}

/// An edge from each symbol (`<file>::<name>`) to its file.
pub open spec fn symbol_edges(v: Seq<SymbolView>) -> Seq<EdgeView> {
    v.map_values(
        |s: SymbolView| EdgeView { from: s.file + "::"@ + s.name, to: s.file, edge_type: CodeEdgeType::DefinedIn },
    )
}

/// An edge from each calling file to the symbol its call resolves to.
pub open spec fn call_edges(v: Seq<CallView>) -> Seq<EdgeView>
    decreases v.len(),
{
    if v.len() == 0 {
        Seq::empty()
    } else {
        call_edges(v.drop_last()) + match v.last().resolved_symbol {
            Some(r) => seq![EdgeView { from: v.last().file, to: r, edge_type: CodeEdgeType::Calls }],
            None => Seq::empty(),
        }
    }
}

/// Trait implementations, interface implementations and derives implement;
/// the inheritances extend.
pub open spec fn impl_edge_type(k: ImplKind) -> CodeEdgeType {
    match k {
        ImplKind::TraitImpl | ImplKind::Implements | ImplKind::Derive => CodeEdgeType::Implements,
        ImplKind::Extends | ImplKind::CSharpInheritance | ImplKind::CppInheritance => CodeEdgeType::Extends,
    }
}

/// An edge from each implementing type (`<file>::<type>`) to what it
/// implements or extends.
pub open spec fn impl_edges(v: Seq<TypeImplView>) -> Seq<EdgeView> {
    v.map_values(
        |t: TypeImplView|
            EdgeView {
                from: t.file + "::"@ + t.implementing_type,
                to: t.trait_or_interface,
                edge_type: impl_edge_type(t.kind),
            },
    )
}

pub open spec fn edges_spec(
    imports: Seq<ImportView>,
    symbols: Seq<SymbolView>,
    calls: Seq<CallView>,
    impls: Seq<TypeImplView>,
) -> Seq<EdgeView> {
    import_edges(imports) + symbol_edges(symbols) + call_edges(calls) + impl_edges(impls)
}

fn push_edge(edges: &mut Vec<CodeEdge>, from: String, to: String, edge_type: CodeEdgeType)
    ensures
        edge_views(final(edges)@) == edge_views(old(edges)@).push(EdgeView { from: from@, to: to@, edge_type }),
{
    let ghost before = edge_views(edges@);
    edges.push(CodeEdge { from, to, edge_type });
    assert(edge_views(edges@) =~= before.push(EdgeView { from: from@, to: to@, edge_type }));
}

fn joined(a: &str, b: &str) -> (r: String)
    ensures
        r@ == a@ + "::"@ + b@,
{
    let mut r = owned(a);
    push_str(&mut r, "::");
    push_str(&mut r, b);
    r
}

/// Draws the edges of the graph from its resolved facts.
pub fn build_edges(
    imports: &Vec<ImportFact>,
    symbols: &Vec<SymbolFact>,
    calls: &Vec<CallFact>,
    impls: &Vec<TypeImplFact>,
) -> (edges: Vec<CodeEdge>)
    ensures
        edge_views(edges@) == edges_spec(import_views(imports@), symbol_views(symbols@), call_views(calls@), views(impls@)),
{
    let mut edges: Vec<CodeEdge> = Vec::new();
    let mut i: usize = 0;
    while i < imports.len()
        invariant
            i <= imports.len(),
            edge_views(edges@) == import_edges(import_views(imports@).take(i as int)),
        decreases imports.len() - i,
    {
        assert(import_views(imports@).take(i + 1).drop_last() =~= import_views(imports@).take(i as int));
        match &imports[i].resolved_file {
            Some(r) => push_edge(&mut edges, owned(imports[i].file.as_str()), owned(r.as_str()), CodeEdgeType::Imports),
            None => {},
        }
        i += 1;
    }
    assert(import_views(imports@).take(imports.len() as int) =~= import_views(imports@));
    let ghost e1 = edge_views(edges@);
    let mut i: usize = 0;
    while i < symbols.len()
        invariant
            i <= symbols.len(),
            edge_views(edges@) == e1 + symbol_edges(symbol_views(symbols@).take(i as int)),
        decreases symbols.len() - i,
    {
        let s = &symbols[i];
        push_edge(&mut edges, joined(s.file.as_str(), s.name.as_str()), owned(s.file.as_str()), CodeEdgeType::DefinedIn);
        assert(symbol_edges(symbol_views(symbols@).take(i + 1)) =~= symbol_edges(symbol_views(symbols@).take(i as int)).push(
            EdgeView { from: s.file@ + "::"@ + s.name@, to: s.file@, edge_type: CodeEdgeType::DefinedIn },
        ));
        i += 1;
    }
    assert(symbol_views(symbols@).take(symbols.len() as int) =~= symbol_views(symbols@));
    let ghost e2 = edge_views(edges@);
    let mut i: usize = 0;
    while i < calls.len()
        invariant
            i <= calls.len(),
            edge_views(edges@) == e2 + call_edges(call_views(calls@).take(i as int)),
        decreases calls.len() - i,
    {
        assert(call_views(calls@).take(i + 1).drop_last() =~= call_views(calls@).take(i as int));
        match &calls[i].resolved_symbol {
            Some(r) => push_edge(&mut edges, owned(calls[i].file.as_str()), owned(r.as_str()), CodeEdgeType::Calls),
            None => {},
        }
        i += 1;
    }
    assert(call_views(calls@).take(calls.len() as int) =~= call_views(calls@));
    let ghost e3 = edge_views(edges@);
    let mut i: usize = 0;
    while i < impls.len()
        invariant
            i <= impls.len(),
            edge_views(edges@) == e3 + impl_edges(views(impls@).take(i as int)),
        decreases impls.len() - i,
    {
        let t = &impls[i];
        let et = match t.kind {
            ImplKind::TraitImpl | ImplKind::Implements | ImplKind::Derive => CodeEdgeType::Implements,
            ImplKind::Extends | ImplKind::CSharpInheritance | ImplKind::CppInheritance => CodeEdgeType::Extends,
        };
        push_edge(&mut edges, joined(t.file.as_str(), t.implementing_type.as_str()), owned(t.trait_or_interface.as_str()), et);
        assert(impl_edges(views(impls@).take(i + 1)) =~= impl_edges(views(impls@).take(i as int)).push(
            EdgeView { from: t.file@ + "::"@ + t.implementing_type@, to: t.trait_or_interface@, edge_type: et },
        ));
        i += 1;
    }
    assert(views(impls@).take(impls.len() as int) =~= views(impls@));
    edges
}


// ── Assembling the graph ───────────────────────────────────────────────

/// The facts extracted from one file, and how its parser ran.
pub struct FileExtraction {
    pub imports: Vec<ImportFact>,
    pub symbols: Vec<SymbolFact>,
    pub calls: Vec<CallFact>,
    pub variables: Vec<VariableFact>,
    pub type_impls: Vec<TypeImplFact>,
    pub parser: FileParserResult,
}

/// One file of the graph: its node, the facts its parser extracted, and
/// the relationships and registrations read from its text.
pub struct FilePart {
    pub node: FileNode,
    pub extraction: FileExtraction,
    pub type_impls: Vec<TypeImplFact>,
    pub di_bindings: Vec<DIFact>,
}

pub open spec fn gathered_imports(parts: Seq<FilePart>) -> Seq<ImportView>
    decreases parts.len(),
{
    if parts.len() == 0 {
        Seq::empty()
    } else {
        gathered_imports(parts.drop_last()) + imports_with_ids(
            parts.last().node.path@,
            import_views(parts.last().extraction.imports@),
        )
    }
}

pub open spec fn gathered_symbols(parts: Seq<FilePart>) -> Seq<SymbolView>
    decreases parts.len(),
{
    if parts.len() == 0 {
        Seq::empty()
    } else {
        gathered_symbols(parts.drop_last()) + symbols_with_ids(
            parts.last().node.path@,
            symbol_views(parts.last().extraction.symbols@),
        )
    }
}

pub open spec fn gathered_calls(parts: Seq<FilePart>) -> Seq<CallView>
    decreases parts.len(),
{
    if parts.len() == 0 {
        Seq::empty()
    } else {
        gathered_calls(parts.drop_last()) + calls_with_ids(parts.last().node.path@, call_views(parts.last().extraction.calls@))
    }
}

/// The relationships of each file: those its parser gave, then those read
/// from its text.
pub open spec fn gathered_type_impls(parts: Seq<FilePart>) -> Seq<TypeImplView>
    decreases parts.len(),
{
    if parts.len() == 0 {
        Seq::empty()
    } else {
        gathered_type_impls(parts.drop_last()) + views(parts.last().extraction.type_impls@) + views(
            parts.last().type_impls@,
        )
    }
}

pub open spec fn gathered_di(parts: Seq<FilePart>) -> Seq<DIView>
    decreases parts.len(),
{
    if parts.len() == 0 {
        Seq::empty()
    } else {
        gathered_di(parts.drop_last()) + di_views(parts.last().di_bindings@)
    }
}

/// The variables of a file numbered: the same variables, each with its
/// identifier.
pub open spec fn variables_numbered(rel: Seq<char>, orig: Seq<VariableFact>, out: Seq<VariableFact>) -> bool {
    &&& out.len() == orig.len()
    &&& forall|k: int| 0 <= k < orig.len() ==> (#[trigger] out[k]).id@ == variable_id(rel, k) && out[k].file
        == orig[k].file && out[k].language == orig[k].language && out[k].name == orig[k].name && out[k].kind
        == orig[k].kind && out[k].type_annotation == orig[k].type_annotation && out[k].is_mutable == orig[k].is_mutable
        && out[k].line_def == orig[k].line_def && out[k].scope_symbol == orig[k].scope_symbol && out[k].scope_start
        == orig[k].scope_start && out[k].scope_end == orig[k].scope_end && out[k].usage_sites == orig[k].usage_sites
}

pub open spec fn variables_gathered(parts: Seq<FilePart>, vars: Seq<VariableFact>) -> bool
    decreases parts.len(),
{
    if parts.len() == 0 {
        vars.len() == 0
    } else {
        let n = parts.last().extraction.variables@.len();
        &&& vars.len() >= n
        &&& variables_gathered(parts.drop_last(), vars.take(vars.len() - n))
        &&& variables_numbered(parts.last().node.path@, parts.last().extraction.variables@, vars.skip(vars.len() - n))
    }
}

/// What the graph assembled from the parts holds: the files and parser
/// results in order; the facts of each file numbered; imports resolved
/// against the files; calls resolved against the symbols and imports and
/// given their enclosing symbols; relationships and registrations
/// resolved and numbered; and the edges drawn from all of these.
pub open spec fn assembled(parts: Seq<FilePart>, g: crate::code_graph::CodeGraphView) -> bool {
    let nodes = parts.map_values(|p: FilePart| p.node);
    let imports = gathered_imports(parts).map_values(|v: ImportView| resolved_import(v, paths_of(nodes)));
    let symbols = gathered_symbols(parts);
    let calls = gathered_calls(parts).map_values(|c: CallView| resolved_call(c, symbols, imports));
    &&& g.files == nodes
    &&& g.parser_results == parts.map_values(|p: FilePart| p.extraction.parser)
    &&& import_views(g.imports) == imports
    &&& symbol_views(g.symbols) == symbols
    &&& call_views(g.calls) == calls.map_values(|c: CallView| with_caller(c, g.symbols))
    &&& variables_gathered(parts, g.variables)
    &&& g.routes.len() == 0
    &&& g.type_hints.len() == 0
    &&& exists|t: Seq<TypeImplView>| resolves(gathered_type_impls(parts), t) && views(g.type_impls) == type_impls_with_ids(t)
    &&& di_views(g.di_bindings) == di_with_ids(first_bindings(gathered_di(parts)))
    &&& edge_views(g.edges) == edges_spec(import_views(g.imports), symbol_views(g.symbols), call_views(g.calls), views(g.type_impls))
}


/// Assembles the graph from the files' parts, in order.
pub fn assemble_graph(parts: Vec<FilePart>) -> (g: CodeGraph)
    ensures
        assembled(parts@, g@),
{
    let ghost orig = parts@;
    let mut tmp = reversed(parts);
    let mut nodes: Vec<FileNode> = Vec::new();
    let mut parsers: Vec<FileParserResult> = Vec::new();
    let mut imports: Vec<ImportFact> = Vec::new();
    let mut symbols: Vec<SymbolFact> = Vec::new();
    let mut calls: Vec<CallFact> = Vec::new();
    let mut variables: Vec<VariableFact> = Vec::new();
    let mut impls: Vec<TypeImplFact> = Vec::new();
    let mut di: Vec<DIFact> = Vec::new();
    assert(orig.take(0) =~= Seq::<FilePart>::empty());
    while tmp.len() > 0
        invariant
            nodes.len() + tmp.len() == orig.len(),
            forall|j: int| 0 <= j < tmp.len() ==> #[trigger] tmp@[j] == orig[orig.len() - 1 - j],
            nodes@ == orig.take(nodes.len() as int).map_values(|p: FilePart| p.node),
            parsers@ == orig.take(nodes.len() as int).map_values(|p: FilePart| p.extraction.parser),
            import_views(imports@) == gathered_imports(orig.take(nodes.len() as int)),
            symbol_views(symbols@) == gathered_symbols(orig.take(nodes.len() as int)),
            call_views(calls@) == gathered_calls(orig.take(nodes.len() as int)),
            variables_gathered(orig.take(nodes.len() as int), variables@),
            views(impls@) == gathered_type_impls(orig.take(nodes.len() as int)),
            di_views(di@) == gathered_di(orig.take(nodes.len() as int)),
        decreases tmp.len(),
    {
        let k = nodes.len();
        let part = tmp.pop().unwrap();
        assert(part == orig[k as int]);
        let ghost pre = orig.take(k as int);
        let ghost cur = orig.take(k + 1);
        assert(cur.drop_last() =~= pre);
        assert(cur.last() == part);
        let FilePart { node, extraction, type_impls, di_bindings } = part;
        let FileExtraction { imports: ex_imports, symbols: ex_symbols, calls: ex_calls, variables: ex_vars, type_impls: ex_impls, parser } =
            extraction;
        let mut ni = number_imports(node.path.as_str(), ex_imports);
        let mut ns = number_symbols(node.path.as_str(), ex_symbols);
        let mut nc = number_calls(node.path.as_str(), ex_calls);
        let mut nv = number_variables(node.path.as_str(), ex_vars);
        let ghost vars_before = variables@;
        let ghost nv_view = nv@;
        imports.append(&mut ni);
        symbols.append(&mut ns);
        calls.append(&mut nc);
        variables.append(&mut nv);
        let mut ei = ex_impls;
        let mut ti = type_impls;
        let ghost impls_before = views(impls@);
        let ghost ei_view = views(ei@);
        let ghost ti_view = views(ti@);
        impls.append(&mut ei);
        impls.append(&mut ti);
        let mut db = di_bindings;
        di.append(&mut db);
        nodes.push(node);
        parsers.push(parser);
        proof {
            assert(nodes@ =~= cur.map_values(|p: FilePart| p.node));
            assert(parsers@ =~= cur.map_values(|p: FilePart| p.extraction.parser));
            assert(import_views(imports@) =~= gathered_imports(cur));
            assert(symbol_views(symbols@) =~= gathered_symbols(cur));
            assert(call_views(calls@) =~= gathered_calls(cur));
            assert(views(impls@) =~= impls_before + ei_view + ti_view);
            assert(views(impls@) =~= gathered_type_impls(cur));
            assert(di_views(di@) =~= gathered_di(cur));
            let n = nv_view.len();
            assert(variables@.take(variables@.len() - n) =~= vars_before);
            assert(variables@.skip(variables@.len() - n) =~= nv_view);
        }
    }
    assert(orig.take(orig.len() as int) =~= orig);
    let ghost imports_g = import_views(imports@);
    let ghost calls_g = call_views(calls@);
    resolve_imports(&mut imports, &nodes);
    let ghost imports_r = imports_g.map_values(|v: ImportView| resolved_import(v, paths_of(nodes@)));
    assert(import_views(imports@) =~= imports_r);
    resolve_calls(&mut calls, &symbols, &imports);
    assert(crate::symbol_resolver::symbol_seq(symbols@) =~= symbol_views(symbols@));
    assert(crate::symbol_resolver::import_seq(imports@) =~= import_views(imports@));
    let ghost calls_r = calls_g.map_values(|c: CallView| resolved_call(c, symbol_views(symbols@), imports_r));
    assert(call_views(calls@) =~= calls_r);
    fill_callers(&mut calls, &symbols);
    let resolved_impls = resolve_type_impls(impls);
    let ghost t = views(resolved_impls@);
    let type_impls = number_type_impls(resolved_impls);
    let di_bindings = number_di_bindings(resolve_di_bindings(di));
    let edges = build_edges(&imports, &symbols, &calls, &type_impls);
    let g = CodeGraph {
        files: nodes,
        symbols,
        imports,
        calls,
        routes: Vec::new(),
        type_impls,
        di_bindings,
        edges,
        type_hints: Vec::new(),
        variables,
        parser_results: parsers,
    };
    assert(resolves(gathered_type_impls(orig), t) && views(g@.type_impls) == type_impls_with_ids(t));
    g
}


// ── The builder ────────────────────────────────────────────────────────

/// What the native parser extracted from one file.
pub struct RipexExtraction {
    pub symbols: Vec<SymbolFact>,
    pub imports: Vec<ImportFact>,
    pub calls: Vec<CallFact>,
    pub variables: Vec<VariableFact>,
    pub type_impls: Vec<TypeImplFact>,
    pub parser_facts: Vec<ParserFact>,
    pub diagnostics: Vec<ParserDiagnostic>,
}

/// A scanned code file as the builder reads it: its path within the
/// project, language, lowercase-able extension, hash and size, its text
/// where it could be read, and the outcome of the native parser where it
/// ran (its failure as a message).
pub struct SourceFile {
    pub path: String,
    pub relative_path: String,
    pub language: Language,
    pub extension: String,
    pub hash: String,
    pub size: u64,
    pub content: Option<String>,
    pub native: Option<Result<RipexExtraction, String>>,
}

/// Builds the code graph of scanned files.
pub struct CodemapBuilder {
    pub files: Vec<SourceFile>,
    pub backend: ParserBackend,
}

/// The reason recorded when the native parser did not run.
pub open spec fn native_missing_reason() -> Seq<char> {
    "ripex support was disabled at compile time"@
}

/// How one file was extracted: where the native parser is asked for and
/// succeeded, its facts; otherwise the facts of tree-sitter, with the
/// native parser's failure as the reason for the fallback.
pub open spec fn extraction_fits(x: FileExtraction, f: SourceFile, ix: Indexer, backend: ParserBackend) -> bool {
    let rel = f.relative_path@;
    let source = f.content->0@;
    let native_asked = backend == ParserBackend::Ripex || backend == ParserBackend::Auto;
    &&& x.parser.file@ == rel
    &&& x.parser.requested_backend == backend
    &&& f.native matches Some(Ok(n)) ==> (native_asked ==> {
        &&& x.parser.used_backend == ParserBackend::Ripex
        &&& x.parser.fallback_reason is None
        &&& x.parser.diagnostics == n.diagnostics
        &&& x.parser.facts == n.parser_facts
        &&& x.imports == n.imports && x.symbols == n.symbols && x.calls == n.calls && x.variables == n.variables
        &&& x.type_impls == n.type_impls
    })
    &&& (!native_asked || !(f.native matches Some(Ok(_)))) ==> {
        &&& x.parser.used_backend == ParserBackend::TreeSitter
        &&& x.parser.diagnostics@.len() == 0 && x.parser.facts@.len() == 0
        &&& x.variables@.len() == 0 && x.type_impls@.len() == 0
        &&& match x.parser.fallback_reason {
            None => !native_asked,
            Some(m) => native_asked && (match f.native {
                Some(Err(e)) => m@ == e@,
                _ => m@ == native_missing_reason(),
            }),
        }
        &&& !grammar_loads(grammar_of(ix)) ==> x.imports@.len() == 0 && x.symbols@.len() == 0 && x.calls@.len() == 0
        &&& grammar_loads(grammar_of(ix)) ==> imports_extracted(ix, grammar_of(ix), source, rel, x.imports@)
        &&& grammar_loads(grammar_of(ix)) ==> symbols_extracted(ix, grammar_of(ix), source, rel, source, x.symbols@)
        &&& grammar_loads(grammar_of(ix)) ==> calls_extracted(ix, grammar_of(ix), source, rel, x.calls@)
    }
}

fn tree_sitter_part(ix: Indexer, f: &SourceFile, source: &str, backend: ParserBackend, reason: Option<String>) -> (x:
    FileExtraction)
    requires
        f.content matches Some(c) && c@ == source@,
    ensures
        x.parser.file@ == f.relative_path@,
        x.parser.requested_backend == backend,
        x.parser.used_backend == ParserBackend::TreeSitter,
        x.parser.fallback_reason == reason,
        x.parser.diagnostics@.len() == 0 && x.parser.facts@.len() == 0,
        x.variables@.len() == 0 && x.type_impls@.len() == 0,
        !grammar_loads(grammar_of(ix)) ==> x.imports@.len() == 0 && x.symbols@.len() == 0 && x.calls@.len() == 0,
        grammar_loads(grammar_of(ix)) ==> imports_extracted(ix, grammar_of(ix), source@, f.relative_path@, x.imports@),
        grammar_loads(grammar_of(ix)) ==> symbols_extracted(ix, grammar_of(ix), source@, f.relative_path@, source@, x.symbols@),
        grammar_loads(grammar_of(ix)) ==> calls_extracted(ix, grammar_of(ix), source@, f.relative_path@, x.calls@),
{
    let (imports, symbols, calls, variables) = tree_sitter_extract(ix, source, f.relative_path.as_str());
    FileExtraction {
        imports,
        symbols,
        calls,
        variables,
        type_impls: Vec::new(),
        parser: FileParserResult {
            file: owned(f.relative_path.as_str()),
            requested_backend: backend,
            used_backend: ParserBackend::TreeSitter,
            fallback_reason: reason,
            diagnostics: Vec::new(),
            facts: Vec::new(),
        },
    }
}

/// Extracts the facts of one file with the backend asked for.
pub fn extract_file(ix: Indexer, f: SourceFile, backend: ParserBackend) -> (x: FileExtraction)
    requires
        f.content is Some,
    ensures
        extraction_fits(x, f, ix, backend),
{
    let ghost fv = f;
    let SourceFile { path, relative_path, language, extension, hash, size, content, native } = f;
    let g = SourceFile { path, relative_path, language, extension, hash, size, content: None, native: None };
    if backend.effective() == ParserBackend::Ripex {
        match native {
            Some(Ok(n)) => {
                let RipexExtraction { symbols, imports, calls, variables, type_impls, parser_facts, diagnostics } = n;
                return FileExtraction {
                    imports,
                    symbols,
                    calls,
                    variables,
                    type_impls,
                    parser: FileParserResult {
                        file: owned(g.relative_path.as_str()),
                        requested_backend: backend,
                        used_backend: ParserBackend::Ripex,
                        fallback_reason: None,
                        diagnostics,
                        facts: parser_facts,
                    },
                };
            },
            Some(Err(e)) => {
                let h = SourceFile { content, ..g };
                return tree_sitter_part(ix, &h, source_of(&h), backend, Some(e));
            },
            None => {
                let h = SourceFile { content, ..g };
                return tree_sitter_part(ix, &h, source_of(&h), backend, Some(owned("ripex support was disabled at compile time")));
            },
        }
    }
    let h = SourceFile { content, ..g };
    tree_sitter_part(ix, &h, source_of(&h), backend, None)
}

fn source_of(f: &SourceFile) -> (s: &str)
    requires
        f.content is Some,
    ensures
        f.content matches Some(c) && c@ == s@,
{
    match &f.content {
        Some(c) => c.as_str(),
        None => "",
    }
}


// ── Grouping by language ───────────────────────────────────────────────

pub open spec fn of_language(files: Seq<SourceFile>, l: Language) -> Seq<SourceFile>
    decreases files.len(),
{
    if files.len() == 0 {
        Seq::empty()
    } else {
        let prev = of_language(files.drop_last(), l);
        if files.last().language == l { prev.push(files.last()) } else { prev }
    }
}

pub open spec fn not_of_language(files: Seq<SourceFile>, l: Language) -> Seq<SourceFile>
    decreases files.len(),
{
    if files.len() == 0 {
        Seq::empty()
    } else {
        let prev = not_of_language(files.drop_last(), l);
        if files.last().language != l { prev.push(files.last()) } else { prev }
    }
}

proof fn lemma_split_len(files: Seq<SourceFile>, l: Language)
    ensures
        of_language(files, l).len() + not_of_language(files, l).len() == files.len(),
    decreases files.len(),
{
    if files.len() > 0 {
        lemma_split_len(files.drop_last(), l);
    }
}

/// The files grouped by language: the languages in the order they first
/// appear, the files of each in their order.
pub open spec fn grouped(files: Seq<SourceFile>) -> Seq<SourceFile>
    decreases files.len(),
{
    if files.len() == 0 {
        Seq::empty()
    } else {
        let l = files[0].language;
        let rest = not_of_language(files, l);
        if rest.len() < files.len() {
            of_language(files, l) + grouped(rest)
        } else {
            Seq::empty()
        }
    }
}

proof fn lemma_first_is_taken(files: Seq<SourceFile>, l: Language)
    requires
        files.len() > 0,
        files[0].language == l,
    ensures
        not_of_language(files, l).len() < files.len(),
    decreases files.len(),
{
    lemma_split_len(files, l);
    if files.len() > 1 {
        lemma_first_is_taken(files.drop_last(), l);
        lemma_split_len(files.drop_last(), l);
    }
}

/// Splits the files into those of the language and the others, each in
/// order.
fn split_language(files: Vec<SourceFile>, l: Language) -> (r: (Vec<SourceFile>, Vec<SourceFile>))
    ensures
        r.0@ == of_language(files@, l),
        r.1@ == not_of_language(files@, l),
{
    let ghost orig = files@;
    let _n = files.len();
    let mut tmp = reversed(files);
    let mut yes: Vec<SourceFile> = Vec::new();
    let mut no: Vec<SourceFile> = Vec::new();
    let mut k: usize = 0;
    assert(orig.take(0) =~= Seq::<SourceFile>::empty());
    while tmp.len() > 0
        invariant
            k + tmp.len() == orig.len(),
            orig.len() <= usize::MAX,
            forall|j: int| 0 <= j < tmp.len() ==> #[trigger] tmp@[j] == orig[orig.len() - 1 - j],
            yes@ == of_language(orig.take(k as int), l),
            no@ == not_of_language(orig.take(k as int), l),
        decreases tmp.len(),
    {
        let f = tmp.pop().unwrap();
        assert(f == orig[k as int]);
        assert(orig.take(k + 1).drop_last() =~= orig.take(k as int));
        if f.language == l {
            yes.push(f);
        } else {
            no.push(f);
        }
        k += 1;
    }
    assert(orig.take(orig.len() as int) =~= orig);
    (yes, no)
}

/// The files grouped by language, languages in order of first appearance.
pub fn group_by_language(files: Vec<SourceFile>) -> (r: Vec<SourceFile>)
    ensures
        r@ == grouped(files@),
    decreases files.len(),
{
    if files.len() == 0 {
        return Vec::new();
    }
    let l = files[0].language;
    let ghost fv = files@;
    proof {
        lemma_first_is_taken(fv, l);
    }
    let (mut yes, no) = split_language(files, l);
    let mut rest = group_by_language(no);
    yes.append(&mut rest);
    yes
}

// ── Building ───────────────────────────────────────────────────────────

/// A file that the build takes: its language has an indexer and its text
/// was read.
pub open spec fn built(f: SourceFile) -> bool {
    indexer_of(language_name(f.language)) is Some && f.content is Some
}

pub open spec fn built_files(files: Seq<SourceFile>) -> Seq<SourceFile>
    decreases files.len(),
{
    if files.len() == 0 {
        Seq::empty()
    } else {
        let prev = built_files(files.drop_last());
        if built(files.last()) { prev.push(files.last()) } else { prev }
    }
}

/// The part of a built file: its node, and its facts extracted as the
/// backend asks.
pub open spec fn part_fits(p: FilePart, f: SourceFile, backend: ParserBackend) -> bool {
    &&& p.node.path@ == f.relative_path@
    &&& p.node.language@ == language_name(f.language)
    &&& p.node.hash@ == f.hash@
    &&& p.node.size == f.size
    &&& extraction_fits(p.extraction, f, indexer_of(language_name(f.language))->0, backend)
    &&& relations_fit(p.type_impls@, f.relative_path@, f.content->0@, language_name(f.language))
    &&& bindings_fit(di_views(p.di_bindings@), f.relative_path@, f.content->0@)
}

/// The type relations of a file: none where its language has no relation
/// grammar, else the resolution of the declarations that the grammar finds.
pub open spec fn relations_fit(
    out: Seq<TypeImplFact>,
    file: Seq<char>,
    text: Seq<char>,
    language: Seq<char>,
) -> bool {
    let lower = crate::text::ascii_lower(language);
    match crate::type_relations::relation_grammar(lower) {
        None => out.len() == 0,
        Some((g, kinds)) => resolves(
            crate::type_relations::declarations_facts(
                file,
                lower,
                crate::type_relations::declarations_of(g, text, kinds),
            ),
            views(out),
        ),
    }
}

/// The injection bindings of a file, by its extension: those of ASP.NET for
/// `.cs`, those of NestJS for `.ts` and `.tsx`, and both, first binding of a
/// key kept, for any other file.
pub open spec fn bindings_fit(out: Seq<DIView>, file: Seq<char>, text: Seq<char>) -> bool {
    let bytes = vstd::utf8::encode_utf8(text);
    if crate::text::is_suffix(".cs"@, file) {
        out == crate::di_bindings::aspnet_facts_of(file, text, bytes)
    } else if crate::text::is_suffix(".ts"@, file) || crate::text::is_suffix(".tsx"@, file) {
        out == crate::di_bindings::nest_facts_of(file, text, bytes)
    } else {
        out == first_bindings(
            crate::di_bindings::aspnet_facts_of(file, text, bytes) + crate::di_bindings::nest_facts_of(file, text, bytes),
        )
    }
}

impl CodemapBuilder {
    /// A builder for the files, with the native parser as its backend.
    pub fn new(files: Vec<SourceFile>) -> (b: CodemapBuilder)
        ensures
            b.files == files,
            b.backend == ParserBackend::Ripex,
    {
        CodemapBuilder { files, backend: ParserBackend::Ripex }
    }

    /// The builder with another backend.
    pub fn with_backend(self, backend: ParserBackend) -> (b: CodemapBuilder)
        ensures
            b.files == self.files,
            b.backend == backend,
    {
        CodemapBuilder { files: self.files, backend }
    }

    /// Builds the code graph: the files grouped by language, those of a
    /// language with an indexer and with a text, each extracted with the
    /// backend, then assembled.
    #[verifier::rlimit(40)]
    pub fn build(self) -> (g: CodeGraph)
        ensures
            exists|parts: Seq<FilePart>| #![trigger assembled(parts, g@)]
                assembled(parts, g@) && parts.len() == built_files(grouped(self.files@)).len() && forall|k: int|
                    0 <= k < parts.len() ==> part_fits(
                        #[trigger] parts[k],
                        built_files(grouped(self.files@))[k],
                        self.backend,
                    ),
    {
        let backend = self.backend;
        let files = group_by_language(self.files);
        let ghost gv = files@;
        let _n = files.len();
        let mut tmp = reversed(files);
        let mut parts: Vec<FilePart> = Vec::new();
        let mut k: usize = 0;
        assert(gv.take(0) =~= Seq::<SourceFile>::empty());
        while tmp.len() > 0
            invariant
                k + tmp.len() == gv.len(),
                gv.len() <= usize::MAX,
                forall|j: int| 0 <= j < tmp.len() ==> #[trigger] tmp@[j] == gv[gv.len() - 1 - j],
                parts.len() == built_files(gv.take(k as int)).len(),
                forall|j: int| 0 <= j < parts.len() ==> part_fits(
                    #[trigger] parts@[j],
                    built_files(gv.take(k as int))[j],
                    backend,
                ),
            decreases tmp.len(),
        {
            let f = tmp.pop().unwrap();
            assert(f == gv[k as int]);
            assert(gv.take(k + 1).drop_last() =~= gv.take(k as int));
            let lang = f.language.as_str();
            match registry(lang) {
                Some(ix) => {
                    if f.content.is_some() {
                        let rel = owned(f.relative_path.as_str());
                        let node = FileNode {
                            path: owned(f.relative_path.as_str()),
                            language: owned(lang),
                            hash: owned(f.hash.as_str()),
                            size: f.size,
                        };
                        let source = match &f.content {
                            Some(c) => owned(c.as_str()),
                            None => String::new(),
                        };
                        let extraction = extract_file(ix, f, backend);
                        let type_impls = crate::type_relations::extract_type_impls(rel.as_str(), source.as_str(), lang);
                        let di_bindings = crate::di_bindings::extract_di_bindings(rel.as_str(), source.as_str());
                        parts.push(FilePart { node, extraction, type_impls, di_bindings });
                    }
                },
                None => {},
            }
            k += 1;
        }
        assert(gv.take(gv.len() as int) =~= gv);
        let ghost pv = parts@;
        let g = assemble_graph(parts);
        assert(assembled(pv, g@));
        g
    }
}


// ── One file ───────────────────────────────────────────────────────────

/// The facts of one file.
pub struct FileAnalysis {
    pub file: String,
    pub language: String,
    pub imports: Vec<ImportFact>,
    pub symbols: Vec<SymbolFact>,
    pub calls: Vec<CallFact>,
    pub routes: Vec<crate::routes::RouteFact>,
    pub type_impls: Vec<TypeImplFact>,
    pub di_bindings: Vec<DIFact>,
    pub variables: Vec<VariableFact>,
    pub parser: FileParserResult,
}

/// Why a single file could not be analysed.
#[derive(Debug, Clone)]
pub enum BuildError {
    /// No scanned file has the path.
    NotFound { path: String },
    /// The file's language has no indexer.
    Unsupported { language: String },
    /// The file's text could not be read.
    Unreadable { path: String },
}

/// Whether two paths have the same components.
fn same_path(a: &str, b: &str) -> (r: bool)
    ensures
        r == (crate::paths::components(a@) == crate::paths::components(b@)),
{
    let x = crate::paths::path_components(a);
    let y = crate::paths::path_components(b);
    if x.len() != y.len() {
        assert(crate::paths::strings_view(x@).len() != crate::paths::strings_view(y@).len());
        return false;
    }
    let mut i: usize = 0;
    while i < x.len()
        invariant
            i <= x.len() == y.len(),
            crate::paths::strings_view(x@) == crate::paths::components(a@),
            crate::paths::strings_view(y@) == crate::paths::components(b@),
            forall|j: int| 0 <= j < i ==> x@[j]@ == y@[j]@,
        decreases x.len() - i,
    {
        if !str_eq(x[i].as_str(), y[i].as_str()) {
            assert(crate::paths::strings_view(x@)[i as int] != crate::paths::strings_view(y@)[i as int]);
            return false;
        }
        i += 1;
    }
    assert(crate::paths::strings_view(x@) =~= crate::paths::strings_view(y@));
    true
}

/// The first file with the same path components.
pub open spec fn first_with_path(files: Seq<SourceFile>, path: Seq<char>) -> Option<int>
    decreases files.len(),
{
    if files.len() == 0 {
        None
    } else if crate::paths::components(files[0].path@) == crate::paths::components(path) {
        Some(0)
    } else {
        match first_with_path(files.drop_first(), path) {
            Some(i) => Some(i + 1),
            None => None,
        }
    }
}

impl CodemapBuilder {
    /// Analyses the scanned file with the path: refused where no scanned
    /// file has it, where its language has no indexer, or where its text
    /// could not be read. Its facts are numbered as in the graph; routes
    /// and registrations are left out.
    pub fn build_for_file(self, path: &str) -> (r: Result<FileAnalysis, BuildError>)
        ensures
            match first_with_path(self.files@, path@) {
                None => r matches Err(BuildError::NotFound { path: p }) && p@ == path@,
                Some(i) => {
                    let f = self.files@[i];
                    let lang = language_name(f.language);
                    match indexer_of(lang) {
                        None => r matches Err(BuildError::Unsupported { language: l }) && l@ == lang,
                        Some(ix) => if f.content is None {
                            r matches Err(BuildError::Unreadable { path: p }) && p@ == f.path@
                        } else {
                            r matches Ok(a) && a.file@ == f.relative_path@ && a.language@ == lang && a.routes@.len() == 0
                                && a.di_bindings@.len() == 0 && exists|x: FileExtraction|
                                extraction_fits(x, f, ix, self.backend) && #[trigger] a.parser == x.parser
                                && import_views(a.imports@) == imports_with_ids(f.relative_path@, import_views(x.imports@))
                                && symbol_views(a.symbols@) == symbols_with_ids(f.relative_path@, symbol_views(x.symbols@))
                                && call_views(a.calls@) == calls_with_ids(f.relative_path@, call_views(x.calls@))
                                && variables_numbered(f.relative_path@, x.variables@, a.variables@) && a.type_impls
                                == x.type_impls
                        },
                    }
                },
            },
    {
        let backend = self.backend;
        let ghost fv = self.files@;
        let mut tmp = reversed(self.files);
        let _n = tmp.len();
        let mut k: usize = 0;
        assert(fv.skip(0) =~= fv);
        while tmp.len() > 0
            invariant
                k + tmp.len() == fv.len(),
                fv.len() <= usize::MAX,
                fv == self.files@,
                backend == self.backend,
                forall|j: int| 0 <= j < tmp.len() ==> #[trigger] tmp@[j] == fv[fv.len() - 1 - j],
                first_with_path(fv, path@) == match first_with_path(fv.skip(k as int), path@) {
                    Some(i) => Some(i + k),
                    None => None,
                },
            decreases tmp.len(),
        {
            let f = tmp.pop().unwrap();
            assert(f == fv[k as int]);
            assert(fv.skip(k as int)[0] == f);
            assert(fv.skip(k as int).drop_first() =~= fv.skip(k + 1));
            if same_path(f.path.as_str(), path) {
                let lang = f.language.as_str();
                let ix = match registry(lang) {
                    Some(ix) => ix,
                    None => return Err(BuildError::Unsupported { language: owned(lang) }),
                };
                if f.content.is_none() {
                    return Err(BuildError::Unreadable { path: f.path });
                }
                let rel = owned(f.relative_path.as_str());
                let ghost fg = f;
                let x = extract_file(ix, f, backend);
                let ghost xv = x;
                let FileExtraction { imports, symbols, calls, variables, type_impls, parser } = x;
                let a = FileAnalysis {
                    file: owned(rel.as_str()),
                    language: owned(lang),
                    imports: number_imports(rel.as_str(), imports),
                    symbols: number_symbols(rel.as_str(), symbols),
                    calls: number_calls(rel.as_str(), calls),
                    routes: Vec::new(),
                    type_impls,
                    di_bindings: Vec::new(),
                    variables: number_variables(rel.as_str(), variables),
                    parser,
                };
                assert(a.parser == xv.parser);
                return Ok(a);
            }
            k += 1;
        }
        assert(fv.skip(k as int) =~= Seq::<SourceFile>::empty());
        Err(BuildError::NotFound { path: owned(path) })
    }
}


// ── Relinking after a merge ────────────────────────────────────────────

/// `edges` with each of `new` added where it is not there yet.
pub open spec fn with_missing(edges: Seq<EdgeView>, new: Seq<EdgeView>) -> Seq<EdgeView>
    decreases new.len(),
{
    if new.len() == 0 {
        edges
    } else {
        let e = with_missing(edges, new.drop_last());
        if e.contains(new.last()) { e } else { e.push(new.last()) }
    }
}

/// The graph after its imports and calls are resolved again against its
/// own files and symbols: each import and call edge that is then missing
/// is added once; all else stays.
pub open spec fn relinked(before: crate::code_graph::CodeGraphView, after: crate::code_graph::CodeGraphView) -> bool {
    let imports = import_views(before.imports).map_values(|v: ImportView| resolved_import(v, paths_of(before.files)));
    let calls = call_views(before.calls).map_values(
        |c: CallView| resolved_call(c, symbol_views(before.symbols), imports),
    );
    &&& after.files == before.files
    &&& after.symbols == before.symbols
    &&& import_views(after.imports) == imports
    &&& call_views(after.calls) == calls
    &&& after.routes == before.routes
    &&& after.type_impls == before.type_impls
    &&& after.di_bindings == before.di_bindings
    &&& edge_views(after.edges) == with_missing(with_missing(edge_views(before.edges), import_edges(imports)), call_edges(calls))
    &&& after.type_hints == before.type_hints
    &&& after.variables == before.variables
    &&& after.parser_results == before.parser_results
}

/// Whether the edge is there.
fn has_edge(edges: &Vec<CodeEdge>, from: &str, to: &str, edge_type: CodeEdgeType) -> (b: bool)
    ensures
        b == edge_views(edges@).contains(EdgeView { from: from@, to: to@, edge_type }),
{
    let ghost target = EdgeView { from: from@, to: to@, edge_type };
    let ghost ev = edge_views(edges@);
    let mut i: usize = 0;
    while i < edges.len()
        invariant
            i <= edges.len(),
            ev == edge_views(edges@),
            target == (EdgeView { from: from@, to: to@, edge_type }),
            forall|j: int| 0 <= j < i ==> ev[j] != target,
        decreases edges.len() - i,
    {
        let e = &edges[i];
        assert(ev[i as int] == EdgeView { from: e.from@, to: e.to@, edge_type: e.edge_type });
        if str_eq(e.from.as_str(), from) && str_eq(e.to.as_str(), to) && e.edge_type == edge_type {
            assert(ev[i as int] == target);
            return true;
        }
        i += 1;
    }
    assert(!ev.contains(target));
    false
}

/// Adds each missing import edge of the imports.
fn add_import_edges(edges: &mut Vec<CodeEdge>, imports: &Vec<ImportFact>)
    ensures
        edge_views(final(edges)@) == with_missing(edge_views(old(edges)@), import_edges(import_views(imports@))),
{
    let ghost e0 = edge_views(edges@);
    let ghost iv = import_views(imports@);
    let mut i: usize = 0;
    while i < imports.len()
        invariant
            i <= imports.len(),
            iv == import_views(imports@),
            edge_views(edges@) == with_missing(e0, import_edges(iv.take(i as int))),
        decreases imports.len() - i,
    {
        let ghost pre = iv.take(i as int);
        assert(iv.take(i + 1).drop_last() =~= pre);
        assert(iv.take(i + 1).last() == imports@[i as int]@);
        let imp = &imports[i];
        match &imp.resolved_file {
            Some(r) => {
                let ghost e = EdgeView { from: imp.file@, to: r@, edge_type: CodeEdgeType::Imports };
                assert(import_edges(iv.take(i + 1)) == import_edges(pre).push(e));
                proof {
                    lemma_with_missing_push(e0, import_edges(pre), e);
                }
                if !has_edge(edges, imp.file.as_str(), r.as_str(), CodeEdgeType::Imports) {
                    push_edge(edges, owned(imp.file.as_str()), owned(r.as_str()), CodeEdgeType::Imports);
                }
            },
            None => {
                assert(import_edges(iv.take(i + 1)) =~= import_edges(pre));
            },
        }
        i += 1;
    }
    assert(iv.take(imports.len() as int) =~= iv);
}

/// Adds each missing call edge of the calls.
fn add_call_edges(edges: &mut Vec<CodeEdge>, calls: &Vec<CallFact>)
    ensures
        edge_views(final(edges)@) == with_missing(edge_views(old(edges)@), call_edges(call_views(calls@))),
{
    let ghost e0 = edge_views(edges@);
    let ghost cv = call_views(calls@);
    let mut i: usize = 0;
    while i < calls.len()
        invariant
            i <= calls.len(),
            cv == call_views(calls@),
            edge_views(edges@) == with_missing(e0, call_edges(cv.take(i as int))),
        decreases calls.len() - i,
    {
        let ghost pre = cv.take(i as int);
        assert(cv.take(i + 1).drop_last() =~= pre);
        assert(cv.take(i + 1).last() == calls@[i as int]@);
        let c = &calls[i];
        match &c.resolved_symbol {
            Some(r) => {
                let ghost e = EdgeView { from: c.file@, to: r@, edge_type: CodeEdgeType::Calls };
                assert(call_edges(cv.take(i + 1)) == call_edges(pre).push(e));
                proof {
                    lemma_with_missing_push(e0, call_edges(pre), e);
                }
                if !has_edge(edges, c.file.as_str(), r.as_str(), CodeEdgeType::Calls) {
                    push_edge(edges, owned(c.file.as_str()), owned(r.as_str()), CodeEdgeType::Calls);
                }
            },
            None => {
                assert(call_edges(cv.take(i + 1)) =~= call_edges(pre));
            },
        }
        i += 1;
    }
    assert(cv.take(calls.len() as int) =~= cv);
}

/// Resolves the imports and calls of the graph again and adds the edges
/// that are then missing.
pub fn relink(g: &mut CodeGraph)
    ensures
        relinked(old(g)@, final(g)@),
{
    let ghost before = g@;
    resolve_imports(&mut g.imports, &g.files);
    let ghost imports_r = import_views(before.imports).map_values(|v: ImportView| resolved_import(v, paths_of(before.files)));
    assert(import_views(g.imports@) =~= imports_r);
    resolve_calls(&mut g.calls, &g.symbols, &g.imports);
    assert(crate::symbol_resolver::symbol_seq(g.symbols@) =~= symbol_views(g.symbols@));
    assert(crate::symbol_resolver::import_seq(g.imports@) =~= import_views(g.imports@));
    let ghost calls_r = call_views(before.calls).map_values(|c: CallView| resolved_call(c, symbol_views(before.symbols), imports_r));
    assert(call_views(g.calls@) =~= calls_r);
    add_import_edges(&mut g.edges, &g.imports);
    add_call_edges(&mut g.edges, &g.calls);
}

proof fn lemma_with_missing_push(edges: Seq<EdgeView>, new: Seq<EdgeView>, e: EdgeView)
    ensures
        with_missing(edges, new.push(e)) == (if with_missing(edges, new).contains(e) {
            with_missing(edges, new)
        } else {
            with_missing(edges, new).push(e)
        }),
{
    assert(new.push(e).drop_last() =~= new);
}


/// Builds the code graph of the files with the native parser as backend.
pub fn build(files: Vec<SourceFile>) -> (g: CodeGraph)
    ensures
        exists|parts: Seq<FilePart>| #![trigger assembled(parts, g@)]
            assembled(parts, g@) && parts.len() == built_files(grouped(files@)).len() && forall|k: int|
                0 <= k < parts.len() ==> part_fits(#[trigger] parts[k], built_files(grouped(files@))[k], ParserBackend::Ripex),
{
    CodemapBuilder::new(files).build()
}

} // verus!
