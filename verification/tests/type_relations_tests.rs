use graxus::type_relations::{extract_type_impls, resolve_type_impls, ImplKind, TypeImplFact};

fn has_fact(facts: &[TypeImplFact], implementing_type: &str, trait_or_interface: &str, kind: ImplKind) -> bool {
    facts.iter().any(|fact| {
        fact.implementing_type == implementing_type && fact.trait_or_interface == trait_or_interface && fact.kind == kind
    })
}

#[test]
fn extracts_rust_trait_impls_and_skips_inherent_blocks() {
    let facts = extract_type_impls(
        "src/person.rs",
        r#"
                trait Greeter {}
                struct Person;
                impl Greeter for Person {}
                impl Person {}
            "#,
        "rust",
    );

    assert_eq!(facts.len(), 1);
    assert!(has_fact(&facts, "Person", "Greeter", ImplKind::TraitImpl));
    assert!(facts.iter().all(|fact| fact.file == "src/person.rs" && fact.language == "rust"));
}

#[test]
fn extracts_typescript_extends_and_implements_without_duplicates() {
    let facts = extract_type_impls(
        "src/admin.ts",
        r#"
                class Admin<T> extends User<T> implements Auditable, Serializable {
                    id = 1;
                }
            "#,
        "typescript",
    );

    assert_eq!(facts.len(), 3);
    assert!(has_fact(&facts, "Admin", "User", ImplKind::Extends));
    assert!(has_fact(&facts, "Admin", "Auditable", ImplKind::Implements));
    assert!(has_fact(&facts, "Admin", "Serializable", ImplKind::Implements));
}

#[test]
fn extracts_csharp_base_and_interfaces() {
    let facts = extract_type_impls(
        "Handlers.cs",
        r#"
                public class Handler : BaseHandler, IRequestHandler, IDisposable {}
            "#,
        "csharp",
    );

    assert_eq!(facts.len(), 3);
    assert!(has_fact(&facts, "Handler", "BaseHandler", ImplKind::CSharpInheritance));
    assert!(has_fact(&facts, "Handler", "IRequestHandler", ImplKind::CSharpInheritance));
    assert!(has_fact(&facts, "Handler", "IDisposable", ImplKind::CSharpInheritance));
}

#[test]
fn extracts_java_and_kotlin_supertype_lists() {
    let java = extract_type_impls("Service.java", "class Service extends BaseService implements Runnable, Closeable {}", "java");
    assert_eq!(java.len(), 3);
    assert!(has_fact(&java, "Service", "BaseService", ImplKind::Extends));
    assert!(has_fact(&java, "Service", "Runnable", ImplKind::Implements));
    assert!(has_fact(&java, "Service", "Closeable", ImplKind::Implements));

    let kotlin = extract_type_impls("Service.kt", "class Service(value: String) : BaseService(), Runnable, Closeable {}", "kotlin");
    assert_eq!(kotlin.len(), 3);
    assert!(has_fact(&kotlin, "Service", "BaseService", ImplKind::Extends));
    assert!(has_fact(&kotlin, "Service", "Runnable", ImplKind::Implements));
    assert!(has_fact(&kotlin, "Service", "Closeable", ImplKind::Implements));
}

#[test]
fn resolution_prefers_explicit_implements_over_generic_extends() {
    let source = extract_type_impls("service.ts", "class Service implements Contract {}", "typescript");
    let mut duplicate = source[0].clone();
    duplicate.id = "ripex:incorrect-kind".to_string();
    duplicate.kind = ImplKind::Extends;

    let resolved = resolve_type_impls(vec![duplicate, source[0].clone()]);
    assert_eq!(resolved.len(), 1);
    assert_eq!(resolved[0].kind, ImplKind::Implements);
}

#[test]
fn malformed_source_is_safe_and_does_not_extract_comments() {
    let facts = extract_type_impls(
        "broken.ts",
        r#"
                // class Pretend extends Imaginary implements Never {}
                class Broken<T extends { id: string }> implements Contract
            "#,
        "typescript",
    );

    assert!(facts.iter().all(|fact| fact.implementing_type != "Pretend"));
}

#[test]
fn unsupported_language_gives_no_facts() {
    assert!(extract_type_impls("x.go", "type A struct{}", "go").is_empty());
}

#[test]
fn resolution_is_stable_under_repetition() {
    let facts = extract_type_impls("src/admin.ts", "class Admin extends User implements A, B {}", "typescript");
    let once = resolve_type_impls(facts.clone());
    let twice = resolve_type_impls(once.clone());
    assert_eq!(once.len(), twice.len());
    for (a, b) in once.iter().zip(twice.iter()) {
        assert_eq!(a.id, b.id);
        assert_eq!(a.trait_or_interface, b.trait_or_interface);
    }
}

#[test]
fn csharp_struct_record_and_interface_base_lists_are_relationships() {
    let facts = extract_type_impls(
        "Point.cs",
        "public struct Point : IEquatable<Point> {}\n\
         public record Person(string Name) : Entity, IPerson;\n\
         public record struct Pair(int A) : IPair {}\n\
         public interface IRepository : IDisposable {}\n",
        "csharp",
    );
    assert!(has_fact(&facts, "Point", "IEquatable", ImplKind::CSharpInheritance));
    assert!(has_fact(&facts, "Person", "Entity", ImplKind::CSharpInheritance));
    assert!(has_fact(&facts, "Person", "IPerson", ImplKind::CSharpInheritance));
    assert!(has_fact(&facts, "Pair", "IPair", ImplKind::CSharpInheritance));
    assert!(has_fact(&facts, "IRepository", "IDisposable", ImplKind::CSharpInheritance));
    assert_eq!(facts.len(), 5);
}
