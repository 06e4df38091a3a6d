use graxus::codemap::Visibility;
use graxus::visibility::{c_visibility, cpp_visibility, csharp_visibility};

#[test]
fn cpp_member_takes_nearest_access_specifier() {
    let src = "class A {\nprivate:\n    int x;\n};\n";
    assert_eq!(cpp_visibility(Some(2), src, true), (false, Visibility::Private));
    let src = "class A {\nprotected:\n    int y;\n};\n";
    assert_eq!(cpp_visibility(Some(2), src, true), (false, Visibility::Protected));
    let src = "class A {\npublic:\n    int z;\n};\n";
    assert_eq!(cpp_visibility(Some(2), src, true), (true, Visibility::Public));
}

#[test]
fn cpp_static_free_function_is_file_local() {
    let src = "static int helper() { return 1; }\n";
    assert_eq!(cpp_visibility(Some(0), src, false), (false, Visibility::Private));
    let src = "int api() { return 1; }\n";
    assert_eq!(cpp_visibility(Some(0), src, false), (true, Visibility::Public));
    assert_eq!(cpp_visibility(None, src, false), (true, Visibility::Public));
}

#[test]
fn c_and_csharp_modifiers() {
    assert_eq!(c_visibility(Some(0), "static void f(void);\n", false), (false, Visibility::Private));
    assert_eq!(c_visibility(Some(0), "struct s;\n", true), (true, Visibility::Public));
    assert_eq!(csharp_visibility(Some(0), "internal class C {}\n"), (false, Visibility::Internal));
    assert_eq!(csharp_visibility(Some(0), "public class C {}\n"), (true, Visibility::Public));
}
