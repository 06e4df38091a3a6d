//! Facts from query matches by rule: the indexers of Java, Swift, Go,
//! Python and C read their queries' matches the same few ways, which the
//! rules below name.
//!
//! A symbol match holds the name as capture 0, then either the declaration
//! as capture 1, or the parameter list as capture 1 and the declaration as
//! capture 2. A call match holds the callee as capture 0 and the call as
//! capture 1, or, for a call on an object, the position in capture 0, the
//! object's text in capture 1 and the callee's in capture 2. An import match
//! holds the imported path as capture 0 and, for a `from` import, the name
//! as capture 1.
use vstd::prelude::*;
use crate::codemap::{
    call_views, go_test_spec, import_views, is_go_test, is_test_name, new_symbol, symbol_views, syntax_symbol,
    test_name_spec, CallFact, CallKind, CallView, ImportFact, ImportKind, ImportView, ConfidenceScore, unresolved_score, SymbolFact, SymbolKind,
    SymbolView, Visibility,
};
use crate::extract::{
    capture_column, capture_end_line, capture_line, capture_row, capture_text, captured_column,
    captured_end_line, captured_line, captured_row, captured_text, lemma_somes_step, match_views, somes, queried,
};
use crate::paths::last_char;
use crate::syntax_tree::{Capture, Grammar};
use crate::text::{
    char_is_uppercase, chars_of, is_prefix, owned, push_str, starts_with, string_from, trim_end_in, trim_end_set,
    trim_start_in, trim_start_set, unicode_uppercase,
};
use crate::visibility::{
    c_visibility, c_visibility_of, csharp_visibility, csharp_visibility_of, java_family_visibility,
    java_family_visibility_of, leading_text_spec, typescript_visibility, typescript_visibility_of,
};

verus! {

// ── Text pieces ────────────────────────────────────────────────────────

/// The text after the last `c`, or the whole text.
pub open spec fn after_last(t: Seq<char>, c: char) -> Seq<char> {
    match last_char(t, c) {
        Some(k) => t.skip(k + 1),
        None => t,
    }
}

pub fn after_last_of(t: &str, c: char) -> (r: String)
    ensures
        r@ == after_last(t@, c),
{
    let v = chars_of(t);
    let mut k = v.len();
    assert(v@.take(k as int) =~= v@);
    while k > 0 && v[k - 1] != c
        invariant
            k <= v.len(),
            last_char(v@, c) == last_char(v@.take(k as int), c),
        decreases k,
    {
        assert(v@.take(k as int).drop_last() =~= v@.take(k - 1));
        k -= 1;
    }
    if k == 0 {
        assert(v@.take(0) =~= Seq::<char>::empty());
        assert(v@.subrange(0, v.len() as int) =~= v@);
        return string_from(&v, 0, v.len());
    }
    assert(v@.take(k as int).last() == c);
    assert(v@.skip(k as int) =~= v@.subrange(k as int, v.len() as int));
    string_from(&v, k, v.len())
}

/// The text without its leading and trailing `c`s.
pub open spec fn trim_char(t: Seq<char>, c: char) -> Seq<char> {
    trim_end_in(trim_start_in(t, seq![c]), seq![c])
}

pub fn trimmed_char(t: &str, c: char) -> (r: String)
    ensures
        r@ == trim_char(t@, c),
{
    let v = chars_of(t);
    let set = vec![c];
    assert(set@ == seq![c]);
    assert(v@.subrange(0, v.len() as int) =~= v@);
    let a = trim_start_set(&v, 0, v.len(), &set);
    let b = trim_end_set(&v, a, v.len(), &set);
    string_from(&v, a, b)
}

// ── Visibility and tests ───────────────────────────────────────────────

/// How a language decides whether a declaration is exported, and its
/// visibility.
#[derive(Debug, Clone, Copy, PartialEq, Eq, Structural)]
pub enum VisibilityRule {
    /// The C# modifiers before the declaration.
    CSharp,
    /// `export` and the member modifiers before the declaration.
    TypeScript,
    /// The Java, Kotlin and Swift modifiers before the declaration.
    JavaFamily,
    /// A C function or variable: public unless `static`.
    CFunction,
    /// A C type: public.
    CType,
    /// Go: exported, and public, when the name starts with an uppercase
    /// letter; private otherwise.
    UppercaseName,
    /// Python: private when the name starts with `_`; exported and public
    /// otherwise.
    UnderscoreName,
}

pub open spec fn visibility_by(rule: VisibilityRule, source: Seq<char>, row: Option<usize>, name: Seq<char>) -> (bool, Visibility) {
    match rule {
        VisibilityRule::CSharp => csharp_visibility_of(leading_text_spec(source, row, 2)),
        VisibilityRule::TypeScript => typescript_visibility_of(leading_text_spec(source, row, 3)),
        VisibilityRule::JavaFamily => java_family_visibility_of(leading_text_spec(source, row, 2)),
        VisibilityRule::CFunction => c_visibility_of(leading_text_spec(source, row, 2), false),
        VisibilityRule::CType => c_visibility_of(leading_text_spec(source, row, 2), true),
        VisibilityRule::UppercaseName => {
            let exported = name.len() > 0 && unicode_uppercase(name[0]);
            (exported, if exported { Visibility::Public } else { Visibility::Private })
        },
        VisibilityRule::UnderscoreName => {
            let exported = !(name.len() > 0 && name[0] == '_');
            (exported, if exported { Visibility::Public } else { Visibility::Private })
        },
    }
}

fn visibility_for(rule: VisibilityRule, source: &str, row: Option<usize>, name: &str) -> (r: (bool, Visibility))
    ensures
        r == visibility_by(rule, source@, row, name@),
{
    match rule {
        VisibilityRule::CSharp => csharp_visibility(row, source),
        VisibilityRule::TypeScript => typescript_visibility(row, source),
        VisibilityRule::JavaFamily => java_family_visibility(row, source),
        VisibilityRule::CFunction => c_visibility(row, source, false),
        VisibilityRule::CType => c_visibility(row, source, true),
        VisibilityRule::UppercaseName => {
            let v = chars_of(name);
            let exported = v.len() > 0 && char_is_uppercase(v[0]);
            (exported, if exported { Visibility::Public } else { Visibility::Private })
        },
        VisibilityRule::UnderscoreName => {
            let v = chars_of(name);
            let exported = !(v.len() > 0 && v[0] == '_');
            (exported, if exported { Visibility::Public } else { Visibility::Private })
        },
    }
}

/// How a language tells a test function by its name (and parameters).
#[derive(Debug, Clone, Copy, PartialEq, Eq, Structural)]
pub enum TestRule {
    /// Never a test.
    Never,
    /// Lowercased, the name starts with `test_` or `test ` or is `test`.
    TestName,
    /// Go: `Test…` taking a `*testing.T`.
    GoTest,
    /// Python: the name starts with `test_` or `Test`.
    PythonTest,
}

pub open spec fn test_by(rule: TestRule, name: Seq<char>, params: Seq<char>) -> bool {
    match rule {
        TestRule::Never => false,
        TestRule::TestName => test_name_spec(name),
        TestRule::GoTest => go_test_spec(name, params),
        TestRule::PythonTest => is_prefix("test_"@, name) || is_prefix("Test"@, name),
    }
}

fn test_for(rule: TestRule, name: &str, params: &str) -> (b: bool)
    ensures
        b == test_by(rule, name@, params@),
{
    match rule {
        TestRule::Never => false,
        TestRule::TestName => is_test_name(name),
        TestRule::GoTest => is_go_test(name, params),
        TestRule::PythonTest => starts_with(name, "test_") || starts_with(name, "Test"),
    }
}

// ── Symbols ────────────────────────────────────────────────────────────

/// How the matches of one symbol query become symbols.
#[derive(Clone, Copy)]
pub struct SymbolRule {
    pub kind: SymbolKind,
    /// Whether capture 1 is the parameter list (and capture 2 the
    /// declaration) rather than the declaration.
    pub with_params: bool,
    /// The word before the name in the signature; no signature without one.
    pub signature: Option<&'static str>,
    pub visibility: VisibilityRule,
    pub test: TestRule,
}

pub open spec fn signature_of(prefix: Option<&'static str>, name: Seq<char>, params: Seq<char>) -> Seq<char> {
    match prefix {
        Some(p) => p@ + name + params,
        None => Seq::empty(),
    }
}

/// The symbol a match states under a rule: one with a non-empty name.
pub open spec fn rule_symbol(language: Seq<char>, file: Seq<char>, source: Seq<char>, m: Seq<Capture>, r: SymbolRule) -> Option<SymbolView> {
    let name = captured_text(m, 0);
    let params = if r.with_params { captured_text(m, 1) } else { Seq::empty() };
    let def: u32 = if r.with_params { 2 } else { 1 };
    let vis = visibility_by(r.visibility, source, captured_row(m, def), name);
    if name.len() > 0 {
        Some(SymbolView {
            is_test: test_by(r.test, name, params),
            ..syntax_symbol(file, language, r.kind, name, vis.0, captured_line(m, def), captured_end_line(m, def),
                vis.1, signature_of(r.signature, name, params))
        })
    } else {
        None
    }
}

/// The matches of one symbol query, with their rule.
pub struct SymbolPass {
    pub matches: Vec<Vec<Capture>>,
    pub rule: SymbolRule,
}

pub open spec fn symbol_pass(language: Seq<char>, file: Seq<char>, source: Seq<char>, p: SymbolPass) -> Seq<SymbolView> {
    somes(match_views(p.matches@).map_values(|m: Seq<Capture>| rule_symbol(language, file, source, m, p.rule)))
}

/// The symbols of the passes, pass by pass.
pub open spec fn pass_symbols(language: Seq<char>, file: Seq<char>, source: Seq<char>, passes: Seq<SymbolPass>) -> Seq<SymbolView>
    decreases passes.len(),
{
    if passes.len() == 0 {
        Seq::empty()
    } else {
        pass_symbols(language, file, source, passes.drop_last()) + symbol_pass(language, file, source, passes.last())
    }
}

pub open spec fn symbol_rules(passes: Seq<SymbolPass>) -> Seq<SymbolRule> {
    passes.map_values(|p: SymbolPass| p.rule)
}

/// The matches of each pass are those of its pattern over the tree that
/// the grammar parses from the text.
pub open spec fn symbol_passes_queried(g: Grammar, text: Seq<char>, passes: Seq<SymbolPass>, patterns: Seq<Seq<char>>) -> bool {
    passes.len() == patterns.len() && forall|k: int|
        0 <= k < passes.len() ==> match_views((#[trigger] passes[k]).matches@) == queried(g, text, patterns[k])
}

fn symbol_by_rule(language: &str, file: &str, source: &str, m: &Vec<Capture>, r: SymbolRule) -> (out: Option<SymbolFact>)
    ensures
        match out {
            Some(f) => rule_symbol(language@, file@, source@, m@, r) == Some(f@),
            None => rule_symbol(language@, file@, source@, m@, r) is None,
        },
{
    let name = capture_text(m, 0);
    if name.as_str().is_empty() {
        return None;
    }
    let params = if r.with_params { capture_text(m, 1) } else { String::new() };
    let def: u32 = if r.with_params { 2 } else { 1 };
    let (exported, visibility) = visibility_for(r.visibility, source, capture_row(m, def), name.as_str());
    let signature = match r.signature {
        Some(p) => {
            let mut s = owned(p);
            push_str(&mut s, name.as_str());
            push_str(&mut s, params.as_str());
            s
        },
        None => String::new(),
    };
    let is_test = test_for(r.test, name.as_str(), params.as_str());
    let mut sym = new_symbol(file, language, r.kind, name, exported, capture_line(m, def), capture_end_line(m, def),
        visibility, signature);
    sym.is_test = is_test;
    Some(sym)
}

fn push_symbol_pass(language: &str, file: &str, source: &str, p: &SymbolPass, out: &mut Vec<SymbolFact>)
    ensures
        symbol_views(final(out)@) == symbol_views(old(out)@) + symbol_pass(language@, file@, source@, *p),
{
    let ghost base = symbol_views(out@);
    let ghost cands = match_views(p.matches@).map_values(|m: Seq<Capture>| rule_symbol(language@, file@, source@, m, p.rule));
    let mut i: usize = 0;
    while i < p.matches.len()
        invariant
            i <= p.matches.len(),
            cands == match_views(p.matches@).map_values(|m: Seq<Capture>| rule_symbol(language@, file@, source@, m, p.rule)),
            symbol_views(out@) == base + somes(cands.take(i as int)),
        decreases p.matches.len() - i,
    {
        proof {
            lemma_somes_step(cands, i as int);
        }
        match symbol_by_rule(language, file, source, &p.matches[i], p.rule) {
            Some(f) => {
                let ghost before = symbol_views(out@);
                out.push(f);
                assert(symbol_views(out@) =~= before.push(f@));
            },
            None => {},
        }
        i += 1;
    }
    assert(cands.take(p.matches.len() as int) =~= cands);
}

/// The symbols that the matches of the passes state, pass by pass.
pub fn symbols_by_rules(language: &str, file: &str, source: &str, passes: &Vec<SymbolPass>) -> (out: Vec<SymbolFact>)
    ensures
        symbol_views(out@) == pass_symbols(language@, file@, source@, passes@),
{
    let mut out: Vec<SymbolFact> = Vec::new();
    let mut i: usize = 0;
    assert(passes@.take(0) =~= Seq::<SymbolPass>::empty());
    assert(symbol_views(out@) =~= Seq::<SymbolView>::empty());
    while i < passes.len()
        invariant
            i <= passes.len(),
            symbol_views(out@) == pass_symbols(language@, file@, source@, passes@.take(i as int)),
        decreases passes.len() - i,
    {
        assert(passes@.take(i + 1).drop_last() =~= passes@.take(i as int));
        push_symbol_pass(language, file, source, &passes[i], &mut out);
        i += 1;
    }
    assert(passes@.take(passes.len() as int) =~= passes@);
    out
}

// ── Imports ────────────────────────────────────────────────────────────

/// How the matches of one import query become imports.
#[derive(Clone, Copy)]
pub struct ImportRule {
    pub kind: ImportKind,
    /// Whether the surrounding double quotes of the path go.
    pub trim_quotes: bool,
    /// The local name is the path after the last occurrence of this
    /// separator; the whole path without one.
    pub separator: Option<char>,
    /// Whether the local name is also the imported name.
    pub imports_local: bool,
    /// Whether capture 1, where it is non-empty, is the imported name, which
    /// is then also the local one.
    pub named: bool,
}

/// The import a match states under a rule: one with a non-empty path.
pub open spec fn rule_import(language: Seq<char>, file: Seq<char>, m: Seq<Capture>, r: ImportRule) -> Option<ImportView> {
    let raw = captured_text(m, 0);
    let path = if r.trim_quotes { trim_char(raw, '"') } else { raw };
    let name = if r.named { captured_text(m, 1) } else { Seq::empty() };
    let local = if name.len() > 0 {
        name
    } else {
        match r.separator {
            Some(c) => after_last(path, c),
            None => path,
        }
    };
    if path.len() > 0 {
        Some(ImportView {
            id: Seq::empty(),
            file,
            language,
            kind: r.kind,
            source: path,
            local_name: Some(local),
            imported_name: if name.len() > 0 || r.imports_local { Some(local) } else { None },
            resolved_file: None,
            line: captured_line(m, 0),
            confidence: unresolved_score(),
        })
    } else {
        None
    }
}

/// The matches of one import query, with their rule.
pub struct ImportPass {
    pub matches: Vec<Vec<Capture>>,
    pub rule: ImportRule,
}

pub open spec fn import_pass(language: Seq<char>, file: Seq<char>, p: ImportPass) -> Seq<ImportView> {
    somes(match_views(p.matches@).map_values(|m: Seq<Capture>| rule_import(language, file, m, p.rule)))
}

pub open spec fn pass_imports(language: Seq<char>, file: Seq<char>, passes: Seq<ImportPass>) -> Seq<ImportView>
    decreases passes.len(),
{
    if passes.len() == 0 {
        Seq::empty()
    } else {
        pass_imports(language, file, passes.drop_last()) + import_pass(language, file, passes.last())
    }
}

pub open spec fn import_rules(passes: Seq<ImportPass>) -> Seq<ImportRule> {
    passes.map_values(|p: ImportPass| p.rule)
}

/// The matches of each pass are those of its pattern over the tree that
/// the grammar parses from the text.
pub open spec fn import_passes_queried(g: Grammar, text: Seq<char>, passes: Seq<ImportPass>, patterns: Seq<Seq<char>>) -> bool {
    passes.len() == patterns.len() && forall|k: int|
        0 <= k < passes.len() ==> match_views((#[trigger] passes[k]).matches@) == queried(g, text, patterns[k])
}

fn import_by_rule(language: &str, file: &str, m: &Vec<Capture>, r: ImportRule) -> (out: Option<ImportFact>)
    ensures
        match out {
            Some(f) => rule_import(language@, file@, m@, r) == Some(f@),
            None => rule_import(language@, file@, m@, r) is None,
        },
{
    let raw = capture_text(m, 0);
    let path = if r.trim_quotes { trimmed_char(raw.as_str(), '"') } else { raw };
    if path.as_str().is_empty() {
        return None;
    }
    let name = if r.named { capture_text(m, 1) } else { String::new() };
    let has_name = !name.as_str().is_empty();
    let local = if has_name {
        name
    } else {
        match r.separator {
            Some(c) => after_last_of(path.as_str(), c),
            None => owned(path.as_str()),
        }
    };
    let imported = if has_name || r.imports_local { Some(owned(local.as_str())) } else { None };
    Some(ImportFact {
        id: String::new(),
        file: owned(file),
        language: owned(language),
        kind: r.kind,
        source: path,
        local_name: Some(local),
        imported_name: imported,
        resolved_file: None,
        line: capture_line(m, 0),
        confidence: ConfidenceScore::unresolved(),
    })
}

fn push_import_pass(language: &str, file: &str, p: &ImportPass, out: &mut Vec<ImportFact>)
    ensures
        import_views(final(out)@) == import_views(old(out)@) + import_pass(language@, file@, *p),
{
    let ghost base = import_views(out@);
    let ghost cands = match_views(p.matches@).map_values(|m: Seq<Capture>| rule_import(language@, file@, m, p.rule));
    let mut i: usize = 0;
    while i < p.matches.len()
        invariant
            i <= p.matches.len(),
            cands == match_views(p.matches@).map_values(|m: Seq<Capture>| rule_import(language@, file@, m, p.rule)),
            import_views(out@) == base + somes(cands.take(i as int)),
        decreases p.matches.len() - i,
    {
        proof {
            lemma_somes_step(cands, i as int);
        }
        match import_by_rule(language, file, &p.matches[i], p.rule) {
            Some(f) => {
                let ghost before = import_views(out@);
                out.push(f);
                assert(import_views(out@) =~= before.push(f@));
            },
            None => {},
        }
        i += 1;
    }
    assert(cands.take(p.matches.len() as int) =~= cands);
}

/// The imports that the matches of the passes state, pass by pass.
pub fn imports_by_rules(language: &str, file: &str, passes: &Vec<ImportPass>) -> (out: Vec<ImportFact>)
    ensures
        import_views(out@) == pass_imports(language@, file@, passes@),
{
    let mut out: Vec<ImportFact> = Vec::new();
    let mut i: usize = 0;
    assert(passes@.take(0) =~= Seq::<ImportPass>::empty());
    assert(import_views(out@) =~= Seq::<ImportView>::empty());
    while i < passes.len()
        invariant
            i <= passes.len(),
            import_views(out@) == pass_imports(language@, file@, passes@.take(i as int)),
        decreases passes.len() - i,
    {
        assert(passes@.take(i + 1).drop_last() =~= passes@.take(i as int));
        push_import_pass(language, file, &passes[i], &mut out);
        i += 1;
    }
    assert(passes@.take(passes.len() as int) =~= passes@);
    out
}

// ── Calls ──────────────────────────────────────────────────────────────

/// How the matches of one call query become calls.
#[derive(Debug, Clone, Copy, PartialEq, Eq, Structural)]
pub enum CallRule {
    /// Capture 0 the callee, capture 1 the call.
    Plain(CallKind),
    /// The position from capture 0, the object's text from capture 1 and
    /// the callee's from capture 2.
    OnObject(CallKind),
}

/// The call a match states under a rule: one with a non-empty callee.
pub open spec fn rule_call(language: Seq<char>, file: Seq<char>, m: Seq<Capture>, r: CallRule) -> Option<CallView> {
    let (callee, object, at, kind) = match r {
        CallRule::Plain(k) => (captured_text(m, 0), None, 1u32, k),
        CallRule::OnObject(k) => (captured_text(m, 2), Some(captured_text(m, 1)), 0u32, k),
    };
    if callee.len() > 0 {
        Some(CallView {
            id: Seq::empty(),
            file,
            language,
            kind,
            caller_symbol: None,
            callee_text: callee,
            object,
            resolved_symbol: None,
            line: captured_line(m, at),
            column: captured_column(m, at),
            confidence: unresolved_score(),
        })
    } else {
        None
    }
}

/// The matches of one call query, with their rule.
pub struct CallPass {
    pub matches: Vec<Vec<Capture>>,
    pub rule: CallRule,
}

pub open spec fn call_pass(language: Seq<char>, file: Seq<char>, p: CallPass) -> Seq<CallView> {
    somes(match_views(p.matches@).map_values(|m: Seq<Capture>| rule_call(language, file, m, p.rule)))
}

pub open spec fn pass_calls(language: Seq<char>, file: Seq<char>, passes: Seq<CallPass>) -> Seq<CallView>
    decreases passes.len(),
{
    if passes.len() == 0 {
        Seq::empty()
    } else {
        pass_calls(language, file, passes.drop_last()) + call_pass(language, file, passes.last())
    }
}

pub open spec fn call_rules(passes: Seq<CallPass>) -> Seq<CallRule> {
    passes.map_values(|p: CallPass| p.rule)
}

/// The matches of each pass are those of its pattern over the tree that
/// the grammar parses from the text.
pub open spec fn call_passes_queried(g: Grammar, text: Seq<char>, passes: Seq<CallPass>, patterns: Seq<Seq<char>>) -> bool {
    passes.len() == patterns.len() && forall|k: int|
        0 <= k < passes.len() ==> match_views((#[trigger] passes[k]).matches@) == queried(g, text, patterns[k])
}

fn call_by_rule(language: &str, file: &str, m: &Vec<Capture>, r: CallRule) -> (out: Option<CallFact>)
    ensures
        match out {
            Some(f) => rule_call(language@, file@, m@, r) == Some(f@),
            None => rule_call(language@, file@, m@, r) is None,
        },
{
    let (callee, object, at, kind) = match r {
        CallRule::Plain(k) => (capture_text(m, 0), None, 1u32, k),
        CallRule::OnObject(k) => (capture_text(m, 2), Some(capture_text(m, 1)), 0u32, k),
    };
    if callee.as_str().is_empty() {
        return None;
    }
    Some(CallFact {
        id: String::new(),
        file: owned(file),
        language: owned(language),
        kind,
        caller_symbol: None,
        callee_text: callee,
        object,
        resolved_symbol: None,
        line: capture_line(m, at),
        column: capture_column(m, at),
        confidence: ConfidenceScore::unresolved(),
    })
}

fn push_call_pass(language: &str, file: &str, p: &CallPass, out: &mut Vec<CallFact>)
    ensures
        call_views(final(out)@) == call_views(old(out)@) + call_pass(language@, file@, *p),
{
    let ghost base = call_views(out@);
    let ghost cands = match_views(p.matches@).map_values(|m: Seq<Capture>| rule_call(language@, file@, m, p.rule));
    let mut i: usize = 0;
    while i < p.matches.len()
        invariant
            i <= p.matches.len(),
            cands == match_views(p.matches@).map_values(|m: Seq<Capture>| rule_call(language@, file@, m, p.rule)),
            call_views(out@) == base + somes(cands.take(i as int)),
        decreases p.matches.len() - i,
    {
        proof {
            lemma_somes_step(cands, i as int);
        }
        match call_by_rule(language, file, &p.matches[i], p.rule) {
            Some(f) => {
                let ghost before = call_views(out@);
                out.push(f);
                assert(call_views(out@) =~= before.push(f@));
            },
            None => {},
        }
        i += 1;
    }
    assert(cands.take(p.matches.len() as int) =~= cands);
}

/// The calls that the matches of the passes state, pass by pass.
pub fn calls_by_rules(language: &str, file: &str, passes: &Vec<CallPass>) -> (out: Vec<CallFact>)
    ensures
        call_views(out@) == pass_calls(language@, file@, passes@),
{
    let mut out: Vec<CallFact> = Vec::new();
    let mut i: usize = 0;
    assert(passes@.take(0) =~= Seq::<CallPass>::empty());
    assert(call_views(out@) =~= Seq::<CallView>::empty());
    while i < passes.len()
        invariant
            i <= passes.len(),
            call_views(out@) == pass_calls(language@, file@, passes@.take(i as int)),
        decreases passes.len() - i,
    {
        assert(passes@.take(i + 1).drop_last() =~= passes@.take(i as int));
        push_call_pass(language, file, &passes[i], &mut out);
        i += 1;
    }
    assert(passes@.take(passes.len() as int) =~= passes@);
    out
}

} // verus!
