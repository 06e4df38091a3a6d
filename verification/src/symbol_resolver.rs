//! Call resolution: the symbol a call site reaches, found through the
//! calling file's own definitions, its resolved imports, or the project.
//!
//! A resolved call names its target as `file::name`.
use vstd::prelude::*;
use crate::codemap::{
    opt_str_view, score_spec, unresolved_score, CallFact, CallView, ConfidenceScore, ImportFact, ImportView,
    ResolutionMethod, SymbolFact, SymbolView,
};
use crate::query_facts::{after_last, after_last_of};
use crate::text::{chars_of, matches_at, matches_here, owned, push_str, str_eq, string_from};

verus! {

// ── Callee names ───────────────────────────────────────────────────────

/// The last position at or before `i` where `pat` occurs in `t`.
pub open spec fn last_match_upto(t: Seq<char>, pat: Seq<char>, i: int) -> Option<int>
    decreases i + 1,
{
    if i < 0 {
        None
    } else if matches_at(t, i, pat) {
        Some(i)
    } else {
        last_match_upto(t, pat, i - 1)
    }
}

/// The text after the last occurrence of `pat` (the first piece of
/// `t.rsplit(pat)`), or the whole text.
pub open spec fn after_last_str(t: Seq<char>, pat: Seq<char>) -> Seq<char> {
    match last_match_upto(t, pat, t.len() - pat.len()) {
        Some(k) => t.skip(k + pat.len()),
        None => t,
    }
}

/// The name a callee ends with: after its last `::`, then after its last
/// `.`.
pub open spec fn callee_name_spec(callee: Seq<char>) -> Seq<char> {
    after_last(after_last_str(callee, "::"@), '.')
}

fn after_last_pattern(t: &str, pat: &str) -> (r: String)
    requires
        pat@.len() > 0,
    ensures
        r@ == after_last_str(t@, pat@),
{
    let v = chars_of(t);
    let p = chars_of(pat);
    if p.len() > v.len() {
        assert(last_match_upto(v@, p@, v.len() - p.len()) is None);
        return string_from(&v, 0, v.len());
    }
    let mut i: usize = v.len() - p.len() + 1;
    while i > 0
        invariant
            v@ == t@,
            p@ == pat@,
            p.len() <= v.len(),
            i <= v.len() - p.len() + 1,
            last_match_upto(v@, p@, v.len() - p.len()) == last_match_upto(v@, p@, i - 1),
        decreases i,
    {
        if matches_here(&v, i - 1, &p) {
            assert(v@.skip(i - 1 + p.len()) =~= v@.subrange(i - 1 + p.len(), v.len() as int));
            return string_from(&v, i - 1 + p.len(), v.len());
        }
        i -= 1;
    }
    assert(v@.subrange(0, v.len() as int) =~= v@);
    string_from(&v, 0, v.len())
}

pub fn callee_name(callee: &str) -> (r: String)
    ensures
        r@ == callee_name_spec(callee@),
{
    proof {
        reveal_strlit("::");
    }
    let tail = after_last_pattern(callee, "::");
    after_last_of(tail.as_str(), '.')
}

// ── Lookups ────────────────────────────────────────────────────────────

/// Some symbol of `file` is named `name`.
pub open spec fn has_symbol(symbols: Seq<SymbolView>, file: Seq<char>, name: Seq<char>) -> bool {
    exists|i: int| 0 <= i < symbols.len() && symbols[i].file == file && symbols[i].name == name
}

/// The first symbol named `name`.
pub open spec fn first_named(symbols: Seq<SymbolView>, name: Seq<char>) -> Option<SymbolView>
    decreases symbols.len(),
{
    if symbols.len() == 0 {
        None
    } else if symbols[0].name == name {
        Some(symbols[0])
    } else {
        first_named(symbols.drop_first(), name)
    }
}

/// The first import of `file` binding the local name `local` that has
/// been resolved to a file.
pub open spec fn resolved_binding(imports: Seq<ImportView>, file: Seq<char>, local: Seq<char>) -> Option<ImportView>
    decreases imports.len(),
{
    if imports.len() == 0 {
        None
    } else if imports[0].file == file && imports[0].local_name == Some(local) && imports[0].resolved_file is Some {
        Some(imports[0])
    } else {
        resolved_binding(imports.drop_first(), file, local)
    }
}

proof fn lemma_binding_fits(imports: Seq<ImportView>, file: Seq<char>, local: Seq<char>)
    ensures
        resolved_binding(imports, file, local) matches Some(x) ==> x.resolved_file is Some && x.file == file
            && x.local_name == Some(local),
    decreases imports.len(),
{
    if imports.len() > 0 {
        lemma_binding_fits(imports.drop_first(), file, local);
    }
}

proof fn lemma_first_named_fits(symbols: Seq<SymbolView>, name: Seq<char>)
    ensures
        first_named(symbols, name) matches Some(x) ==> x.name == name,
    decreases symbols.len(),
{
    if symbols.len() > 0 {
        lemma_first_named_fits(symbols.drop_first(), name);
    }
}

/// `file::name`.
pub open spec fn target(file: Seq<char>, name: Seq<char>) -> Seq<char> {
    file + "::"@ + name
}

/// Where a call resolves, and how sure that is:
/// 1. an unqualified callee defined in the calling file (98 %);
/// 2. a callee the calling file imports under that name from a resolved
///    file: that file's item of the imported name (95 %);
/// 3. a callee named anywhere in the project: its first definition (40 %);
/// 4. a method on an object the calling file imports from a resolved file
///    (95 %), or on a local of the calling file that also defines the
///    method (98 %);
/// otherwise nowhere.
pub open spec fn call_resolution(call: CallView, symbols: Seq<SymbolView>, imports: Seq<ImportView>) -> (Option<Seq<char>>, ConfidenceScore) {
    let callee = call.callee_text;
    let name = callee_name_spec(callee);
    let by_import = resolved_binding(imports, call.file, name);
    let anywhere = first_named(symbols, name);
    if callee == name && has_symbol(symbols, call.file, name) {
        (Some(target(call.file, name)), score_spec(98, ResolutionMethod::LocalDefinition))
    } else if by_import is Some {
        let imp = by_import->0;
        let imported = match imp.imported_name {
            Some(n) => n,
            None => name,
        };
        (Some(target(imp.resolved_file->0, imported)), score_spec(95, ResolutionMethod::NamedImportExactExport))
    } else if anywhere is Some {
        (Some(target(anywhere->0.file, name)), score_spec(40, ResolutionMethod::NameMatchSameProject))
    } else {
        match call.object {
            Some(obj) => {
                let by_object = resolved_binding(imports, call.file, obj);
                if by_object is Some {
                    (Some(target(by_object->0.resolved_file->0, name)), score_spec(95, ResolutionMethod::NamedImportExactExport))
                } else if has_symbol(symbols, call.file, obj) && has_symbol(symbols, call.file, name) {
                    (Some(target(call.file, name)), score_spec(98, ResolutionMethod::LocalDefinition))
                } else {
                    (None, unresolved_score())
                }
            },
            None => (None, unresolved_score()),
        }
    }
}

/// A call after resolution: its earlier resolution is replaced.
pub open spec fn resolved_call(call: CallView, symbols: Seq<SymbolView>, imports: Seq<ImportView>) -> CallView {
    let r = call_resolution(call, symbols, imports);
    CallView { resolved_symbol: r.0, confidence: r.1, ..call }
}

pub open spec fn symbol_seq(v: Seq<SymbolFact>) -> Seq<SymbolView> {
    v.map_values(|s: SymbolFact| s@)
}

pub open spec fn import_seq(v: Seq<ImportFact>) -> Seq<ImportView> {
    v.map_values(|i: ImportFact| i@)
}

fn symbol_in_file(symbols: &Vec<SymbolFact>, file: &str, name: &str) -> (b: bool)
    ensures
        b == has_symbol(symbol_seq(symbols@), file@, name@),
{
    let ghost sv = symbol_seq(symbols@);
    let mut i: usize = 0;
    while i < symbols.len()
        invariant
            i <= symbols.len(),
            sv == symbol_seq(symbols@),
            forall|k: int| 0 <= k < i ==> !(sv[k].file == file@ && sv[k].name == name@),
        decreases symbols.len() - i,
    {
        if str_eq(symbols[i].file.as_str(), file) && str_eq(symbols[i].name.as_str(), name) {
            assert(sv[i as int].file == file@ && sv[i as int].name == name@);
            return true;
        }
        i += 1;
    }
    false
}

fn first_named_in(symbols: &Vec<SymbolFact>, name: &str) -> (r: Option<usize>)
    ensures
        match r {
            Some(k) => k < symbols.len() && first_named(symbol_seq(symbols@), name@) == Some(symbols@[k as int]@),
            None => first_named(symbol_seq(symbols@), name@) is None,
        },
{
    let ghost sv = symbol_seq(symbols@);
    let mut i: usize = 0;
    assert(sv.skip(0) =~= sv);
    while i < symbols.len()
        invariant
            i <= symbols.len(),
            sv == symbol_seq(symbols@),
            first_named(sv, name@) == first_named(sv.skip(i as int), name@),
        decreases symbols.len() - i,
    {
        assert(sv.skip(i as int)[0] == sv[i as int]);
        assert(sv.skip(i as int).drop_first() =~= sv.skip(i + 1));
        if str_eq(symbols[i].name.as_str(), name) {
            return Some(i);
        }
        i += 1;
    }
    assert(sv.skip(i as int) =~= Seq::<SymbolView>::empty());
    None
}

fn binding_in(imports: &Vec<ImportFact>, file: &str, local: &str) -> (r: Option<usize>)
    ensures
        match r {
            Some(k) => k < imports.len() && resolved_binding(import_seq(imports@), file@, local@) == Some(imports@[k as int]@),
            None => resolved_binding(import_seq(imports@), file@, local@) is None,
        },
{
    let ghost iv = import_seq(imports@);
    let mut i: usize = 0;
    assert(iv.skip(0) =~= iv);
    while i < imports.len()
        invariant
            i <= imports.len(),
            iv == import_seq(imports@),
            resolved_binding(iv, file@, local@) == resolved_binding(iv.skip(i as int), file@, local@),
        decreases imports.len() - i,
    {
        assert(iv.skip(i as int)[0] == iv[i as int]);
        assert(iv.skip(i as int).drop_first() =~= iv.skip(i + 1));
        let imp = &imports[i];
        let named = match &imp.local_name {
            Some(l) => str_eq(l.as_str(), local),
            None => false,
        };
        if str_eq(imp.file.as_str(), file) && named && imp.resolved_file.is_some() {
            return Some(i);
        }
        i += 1;
    }
    assert(iv.skip(i as int) =~= Seq::<ImportView>::empty());
    None
}

fn target_of(file: &str, name: &str) -> (r: String)
    ensures
        r@ == target(file@, name@),
{
    let mut r = owned(file);
    push_str(&mut r, "::");
    push_str(&mut r, name);
    r
}

/// Where one call resolves among the symbols and imports.
pub fn resolve_call(call: &CallFact, symbols: &Vec<SymbolFact>, imports: &Vec<ImportFact>) -> (r: (Option<String>, ConfidenceScore))
    ensures
        (opt_str_view(r.0), r.1) == call_resolution(call@, symbol_seq(symbols@), import_seq(imports@)),
{
    let callee = call.callee_text.as_str();
    let name = callee_name(callee);
    let file = call.file.as_str();
    proof {
        lemma_binding_fits(import_seq(imports@), call.file@, name@);
        lemma_first_named_fits(symbol_seq(symbols@), name@);
        if call@.object is Some {
            lemma_binding_fits(import_seq(imports@), call.file@, call@.object->0);
        }
    }
    if str_eq(callee, name.as_str()) && symbol_in_file(symbols, file, name.as_str()) {
        return (Some(target_of(file, name.as_str())), ConfidenceScore::local_definition());
    }
    if let Some(k) = binding_in(imports, file, name.as_str()) {
        let imp = &imports[k];
        let imported = match &imp.imported_name {
            Some(n) => n.as_str(),
            None => name.as_str(),
        };
        if let Some(rf) = &imp.resolved_file {
            return (Some(target_of(rf.as_str(), imported)), ConfidenceScore::named_import_exact());
        }
    }
    if let Some(k) = first_named_in(symbols, name.as_str()) {
        return (Some(target_of(symbols[k].file.as_str(), name.as_str())), ConfidenceScore::same_project());
    }
    if let Some(obj) = &call.object {
        if let Some(k) = binding_in(imports, file, obj.as_str()) {
            if let Some(rf) = &imports[k].resolved_file {
                return (Some(target_of(rf.as_str(), name.as_str())), ConfidenceScore::named_import_exact());
            }
        }
        if symbol_in_file(symbols, file, obj.as_str()) && symbol_in_file(symbols, file, name.as_str()) {
            return (Some(target_of(file, name.as_str())), ConfidenceScore::local_definition());
        }
    }
    (None, ConfidenceScore::unresolved())
}

fn copy_opt(o: &Option<String>) -> (r: Option<String>)
    ensures
        opt_str_view(r) == opt_str_view(*o),
{
    match o {
        Some(s) => Some(owned(s.as_str())),
        None => None,
    }
}

/// Resolve every call in place against the whole project's symbols and
/// imports; an earlier resolution never survives on its own.
pub fn resolve_calls(calls: &mut Vec<CallFact>, symbols: &Vec<SymbolFact>, imports: &Vec<ImportFact>)
    ensures
        final(calls)@.len() == old(calls)@.len(),
        forall|i: int| 0 <= i < old(calls)@.len() ==> #[trigger] final(calls)@[i]@ == resolved_call(
            old(calls)@[i]@,
            symbol_seq(symbols@),
            import_seq(imports@),
        ),
{
    let ghost original = calls@;
    let mut i: usize = 0;
    while i < calls.len()
        invariant
            i <= calls.len(),
            calls@.len() == original.len(),
            forall|k: int| 0 <= k < i ==> #[trigger] calls@[k]@ == resolved_call(original[k]@, symbol_seq(symbols@), import_seq(imports@)),
            forall|k: int| i <= k < calls@.len() ==> #[trigger] calls@[k] == original[k],
        decreases calls.len() - i,
    {
        let c = &calls[i];
        let (resolved_symbol, confidence) = resolve_call(c, symbols, imports);
        let updated = CallFact {
            id: owned(c.id.as_str()),
            file: owned(c.file.as_str()),
            language: owned(c.language.as_str()),
            kind: c.kind,
            caller_symbol: copy_opt(&c.caller_symbol),
            callee_text: owned(c.callee_text.as_str()),
            object: copy_opt(&c.object),
            resolved_symbol,
            line: c.line,
            column: c.column,
            confidence,
        };
        assert(updated@ == resolved_call(original[i as int]@, symbol_seq(symbols@), import_seq(imports@)));
        calls.set(i, updated);
        i += 1;
    }
}

} // verus!
