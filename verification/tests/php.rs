use tusk_php::extension::PhpLspExtension;

fn some(text: &str) -> Option<String> {
    Some(text.to_string())
}

#[test]
fn the_namespace_is_that_of_the_first_line_that_names_one() {
    let source = "<?php\n\nnamespace App\\Models;\n\nnamespace Other;\n";
    assert_eq!(PhpLspExtension::extract_namespace(source), some("App\\Models"));
    let braced = "<?php\r\n  namespace  App { class A {} }\r\n";
    assert_eq!(PhpLspExtension::extract_namespace(braced), some("App"));
    let bare = "namespace App";
    assert_eq!(PhpLspExtension::extract_namespace(bare), some("App"));
}

#[test]
fn a_line_that_names_no_namespace_is_passed_over() {
    let source = "namespace ;\nnamespace { }\n// namespace No;\nnamespaced x;\nnamespace\tNo;\nnamespace Yes;";
    assert_eq!(PhpLspExtension::extract_namespace(source), some("Yes"));
    assert_eq!(PhpLspExtension::extract_namespace(""), None);
    assert_eq!(PhpLspExtension::extract_namespace("<?php echo 1;"), None);
}

#[test]
fn a_namespace_is_read_back() {
    for indent in ["", "  ", "\t\u{a0}"] {
        for end in [";", "{"] {
            let line = format!("{}namespace A\\B{} rest ; {{", indent, end);
            assert_eq!(PhpLspExtension::extract_namespace(&line), some("A\\B"));
        }
    }
}

#[test]
fn an_identifier_is_the_front_of_a_token() {
    assert_eq!(PhpLspExtension::extract_identifier("User{"), some("User"));
    assert_eq!(PhpLspExtension::extract_identifier("&&my_fn2("), some("my_fn2"));
    assert_eq!(PhpLspExtension::extract_identifier("A\\B"), some("A"));
    assert_eq!(PhpLspExtension::extract_identifier("9lives"), some("9lives"));
    assert_eq!(PhpLspExtension::extract_identifier("{"), None);
    assert_eq!(PhpLspExtension::extract_identifier("&"), None);
    assert_eq!(PhpLspExtension::extract_identifier(""), None);
    assert_eq!(PhpLspExtension::extract_identifier("\u{e9}t\u{e9}"), None);
}

#[test]
fn the_primary_type_is_the_first_one_declared() {
    let source = "<?php\nfinal class User extends Model\n{\n}\ninterface Second {}\n";
    assert_eq!(PhpLspExtension::extract_primary_type(source), some("User"));
    assert_eq!(PhpLspExtension::extract_primary_type("interface A{}"), some("A"));
    assert_eq!(PhpLspExtension::extract_primary_type("trait B\n{"), some("B"));
    assert_eq!(PhpLspExtension::extract_primary_type("enum C: string {"), some("C"));
}

#[test]
fn an_anonymous_class_is_no_primary_type() {
    let source = "$x = new class extends Foo {};\nclass Real {}";
    assert_eq!(PhpLspExtension::extract_primary_type(source), some("Real"));
    assert_eq!(PhpLspExtension::extract_primary_type("new class Foo"), None);
    assert_eq!(PhpLspExtension::extract_primary_type("renew class Foo"), some("Foo"));
}

#[test]
fn a_keyword_without_a_name_is_passed_over() {
    assert_eq!(PhpLspExtension::extract_primary_type("class\nFoo"), None);
    assert_eq!(PhpLspExtension::extract_primary_type("class { class Foo"), some("Foo"));
    assert_eq!(PhpLspExtension::extract_primary_type("class class Foo"), some("class"));
    assert_eq!(PhpLspExtension::extract_primary_type("subclass Foo Class Bar"), None);
}

#[test]
fn a_type_is_read_back() {
    for keyword in ["class", "interface", "trait", "enum"] {
        for rest in ["", " {", "\timplements X"] {
            let line = format!("{} My_Type1{}", keyword, rest);
            assert_eq!(PhpLspExtension::extract_primary_type(&line), some("My_Type1"));
        }
    }
}

#[test]
fn the_symbol_is_the_type_in_its_namespace() {
    let both = "<?php\nnamespace App\\Models;\nclass User {}\n";
    assert_eq!(PhpLspExtension::declared_symbol(both), some("App\\Models\\User"));
    assert_eq!(PhpLspExtension::declared_symbol("class User {}"), some("User"));
    assert_eq!(PhpLspExtension::declared_symbol("namespace App;\nfunction f() {}"), some("App"));
    assert_eq!(PhpLspExtension::declared_symbol("<?php echo 1;"), None);
    assert_eq!(PhpLspExtension::declared_symbol(""), None);
}
