use graxus::di_bindings::{
    extract_aspnet_di_bindings, extract_di_bindings, extract_nestjs_di_bindings, resolve_di_bindings,
    DIFact,
};

fn triples(facts: &[DIFact]) -> Vec<(&str, &str, Option<&str>)> {
    facts
        .iter()
        .map(|fact| (fact.abstract_type.as_str(), fact.concrete_type.as_str(), fact.lifetime.as_deref()))
        .collect()
}

#[test]
fn extracts_aspnet_generic_lifetimes_and_deduplicates_registrations() {
    let source = r#"
builder.Services.AddSingleton<IClock, SystemClock>();
builder.Services.AddScoped<IRepository, SqlRepository>();
builder.Services.AddTransient<EmailSender>();
builder.Services.AddSingleton<IClock, SystemClock>();
"#;

    let facts = extract_di_bindings("src/Program.cs", source);

    assert_eq!(facts.len(), 3);
    assert_eq!(
        triples(&facts),
        vec![
            ("IClock", "SystemClock", Some("singleton")),
            ("IRepository", "SqlRepository", Some("scoped")),
            ("EmailSender", "EmailSender", Some("transient")),
        ]
    );
    assert!(facts.iter().all(|fact| {
        fact.file == "src/Program.cs" && fact.language == "csharp" && fact.framework == "aspnet"
    }));
}

#[test]
fn extracts_nestjs_injectables_and_explicit_use_class_providers() {
    let source = r#"
import { Injectable, Module, Scope } from "@nestjs/common";

@Injectable()
export class CacheService {}

@Injectable({ scope: Scope.REQUEST })
export class RequestContext {}

@Module({
  providers: [
    { provide: "CACHE", useClass: CacheService },
    { provide: AuditLog, useClass: RequestContext, scope: Scope.TRANSIENT },
  ],
})
export class AppModule {}
"#;

    let facts = extract_di_bindings("src/app.module.ts", source);

    assert_eq!(facts.len(), 4);
    assert_eq!(
        triples(&facts),
        vec![
            ("CacheService", "CacheService", Some("singleton")),
            ("RequestContext", "RequestContext", Some("scoped")),
            ("CACHE", "CacheService", Some("singleton")),
            ("AuditLog", "RequestContext", Some("transient")),
        ]
    );
    assert!(facts.iter().all(|fact| {
        fact.file == "src/app.module.ts" && fact.language == "typescript" && fact.framework == "nestjs"
    }));
}

#[test]
fn ignores_malformed_or_incomplete_registrations() {
    let source = r#"
const malformed = { provide: Token, useClass: };
@Injectable({ scope: getScope() })
export class DynamicScope {}
@Module({ providers: [{ provide: Token, useClass: forwardRef(() => Service) }] })
"#;

    let facts = extract_di_bindings("src/app.module.ts", source);

    assert_eq!(facts.len(), 1);
    assert_eq!(facts[0].abstract_type, "DynamicScope");
    assert_eq!(facts[0].concrete_type, "DynamicScope");
    assert_eq!(facts[0].lifetime, None);
}

#[test]
fn binding_ids_and_lines() {
    let facts = extract_aspnet_di_bindings("P.cs", "\n\nservices.AddScoped<IA, A>();\n");
    assert_eq!(facts.len(), 1);
    assert_eq!(facts[0].line, 3);
    assert_eq!(facts[0].id, "di:aspnet:P.cs:3:IA:A:scoped");
}

#[test]
fn nestjs_extractor_ignores_csharp() {
    assert!(extract_nestjs_di_bindings("x.ts", "services.AddScoped<IA, A>();").is_empty());
}

#[test]
fn unknown_extension_reads_both_forms() {
    let facts = extract_di_bindings("virtual", "@Injectable()\nclass Lone {}\n");
    assert_eq!(triples(&facts), vec![("Lone", "Lone", Some("singleton"))]);
}

fn fact(id: &str, line: usize, abs: &str) -> DIFact {
    DIFact {
        id: id.to_string(),
        file: "f.cs".to_string(),
        language: "csharp".to_string(),
        abstract_type: abs.to_string(),
        concrete_type: "Impl".to_string(),
        lifetime: Some("scoped".to_string()),
        line,
        framework: "aspnet".to_string(),
    }
}

#[test]
fn resolution_keeps_first_of_each_binding() {
    let out = resolve_di_bindings(vec![fact("a", 1, "IA"), fact("b", 2, "IB"), fact("c", 3, "IA")]);
    assert_eq!(out.len(), 2);
    assert_eq!(out[0].id, "a");
    assert_eq!(out[1].id, "b");
    let again = resolve_di_bindings(out.clone());
    assert_eq!(again.len(), 2);
    assert_eq!(again[0].id, "a");
}

#[test]
fn nestjs_facts_of_javascript_modules_keep_their_language() {
    let facts = extract_di_bindings("src/app.module.js", "@Injectable()\nexport class CacheService {}");
    assert_eq!(facts.len(), 1);
    assert_eq!(facts[0].abstract_type, "CacheService");
    assert_eq!(facts[0].framework, "nestjs");
    assert_eq!(facts[0].language, "javascript");
}
