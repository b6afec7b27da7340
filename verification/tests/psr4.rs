use tusk_php::extension::PhpLspExtension;
use tusk_php::json::{parse_json, Json};
use tusk_php::psr4::{namespace_from_mappings, project_psr4, Mapping};

fn mapping(namespace: &str, base_path: &str) -> Mapping<String> {
    Mapping { namespace: namespace.to_string(), base_path: base_path.to_string() }
}

fn text(value: &str) -> Json {
    Json::Text(value.to_string())
}

fn object(entries: Vec<(&str, Json)>) -> Json {
    Json::Object(entries.into_iter().map(|(key, value)| (key.to_string(), value)).collect())
}

fn expected(composer: &str, path: &str) -> Result<String, String> {
    PhpLspExtension::expected_namespace_for_path(Ok(composer.to_string()), path)
}

const COMPOSER: &str = r#"{
  "name": "acme/app",
  "autoload": {
    "psr-4": {
      "App\\": "./app/",
      "Database\\Factories\\": ["database/factories", 7, "db//fac/../factories"],
      "Ignored\\": null
    },
    "files": ["helpers.php"]
  },
  "autoload-dev": { "psr-4": { "Tests\\": "tests/" } }
}"#;

#[test]
fn json_is_parsed() {
    assert_eq!(
        parse_json("{\"b\": [null, true, 1.5, \"x\\u00e9\"], \"a\": {}}"),
        Ok(object(vec![
            ("a", object(vec![])),
            ("b", Json::Array(vec![Json::Null, Json::Bool(true), Json::Number, text("x\u{e9}")])),
        ]))
    );
    assert_eq!(parse_json("[]"), Ok(Json::Array(vec![])));
    assert_eq!(
        parse_json("[1,"),
        Err("EOF while parsing a value at line 1 column 3".to_string())
    );
    assert_eq!(
        parse_json("[] x"),
        Err("trailing characters at line 1 column 4".to_string())
    );
}

#[test]
fn mappings_come_from_both_blocks() {
    let root = object(vec![
        ("autoload-dev", object(vec![("psr-4", object(vec![("Tests\\", text("tests/"))]))])),
        (
            "autoload",
            object(vec![
                ("classmap", Json::Array(vec![])),
                (
                    "psr-4",
                    object(vec![
                        ("Z\\\\", text("./src/../lib")),
                        ("A", Json::Array(vec![text("a"), Json::Bool(true), text("b/")])),
                        ("N", Json::Null),
                        ("O", object(vec![])),
                        ("P", Json::Number),
                    ]),
                ),
            ]),
        ),
    ]);
    assert_eq!(
        project_psr4(&root),
        vec![
            mapping("Z", "lib"),
            mapping("A", "a"),
            mapping("A", "b"),
            mapping("Tests", "tests"),
        ]
    );
}

#[test]
fn other_documents_hold_no_mappings() {
    assert_eq!(project_psr4(&Json::Null), vec![]);
    assert_eq!(project_psr4(&object(vec![("autoload", text("psr-4"))])), vec![]);
    let array = object(vec![("autoload", object(vec![("psr-4", Json::Array(vec![]))]))]);
    assert_eq!(project_psr4(&array), vec![]);
}

#[test]
fn mappings_are_read_from_a_composer_file() {
    assert_eq!(
        PhpLspExtension::read_project_psr4(Ok(COMPOSER.to_string())),
        Ok(vec![
            mapping("App", "app"),
            mapping("Database\\Factories", "database/factories"),
            mapping("Database\\Factories", "db/factories"),
            mapping("Tests", "tests"),
        ])
    );
}

#[test]
fn a_composer_file_that_cannot_be_read_is_an_error() {
    assert_eq!(
        PhpLspExtension::read_project_psr4(Err("no such file".to_string())),
        Err("failed to read composer.json: no such file".to_string())
    );
    assert_eq!(
        PhpLspExtension::read_project_psr4(Ok("{".to_string())),
        Err(
            "invalid composer.json: EOF while parsing an object at line 1 column 1".to_string()
        )
    );
    assert_eq!(
        PhpLspExtension::expected_namespace_for_path(Err("gone".to_string()), "a.php"),
        Err("failed to read composer.json: gone".to_string())
    );
}

#[test]
fn a_path_is_written_as_a_namespace() {
    assert_eq!(PhpLspExtension::namespace_suffix(""), "");
    assert_eq!(PhpLspExtension::namespace_suffix("./Http//Controllers/"), "Http\\Controllers");
    assert_eq!(PhpLspExtension::namespace_suffix("a/../b"), "a\\..\\b");
    assert_eq!(PhpLspExtension::namespace_suffix("/a"), "/\\a");
}

#[test]
fn the_namespace_mirrors_the_directories() {
    assert_eq!(expected(COMPOSER, "app/User.php"), Ok("App".to_string()));
    assert_eq!(
        expected(COMPOSER, "app/Http/Controllers/Home.php"),
        Ok("App\\Http\\Controllers".to_string())
    );
    assert_eq!(
        expected(COMPOSER, "db/factories/x/A.php"),
        Ok("Database\\Factories\\x".to_string())
    );
    assert_eq!(expected(COMPOSER, "tests/Unit/ATest.php"), Ok("Tests\\Unit".to_string()));
}

#[test]
fn a_file_below_no_directory_has_no_namespace() {
    assert_eq!(
        expected(COMPOSER, "application/User.php"),
        Err("no PSR-4 mapping matched application/User.php".to_string())
    );
    assert_eq!(
        namespace_from_mappings(&[], "a.php"),
        Err("no PSR-4 mapping matched a.php".to_string())
    );
}

#[test]
fn the_deepest_directory_decides() {
    let list = [mapping("Root", ""), mapping("Deep", "a/b"), mapping("Mid", "a")];
    let found = |path: &str| namespace_from_mappings(&list, path).unwrap();
    assert_eq!(found("a/b/C.php"), "Deep");
    assert_eq!(found("a/b/c/D.php"), "Deep\\c");
    assert_eq!(found("a/C.php"), "Mid");
    assert_eq!(found("x/y/C.php"), "Root\\x\\y");
}

#[test]
fn of_equal_directories_the_first_decides() {
    let list = [mapping("One", "src"), mapping("Two", "src")];
    assert_eq!(namespace_from_mappings(&list, "src/A.php"), Ok("One".to_string()));
}

#[test]
fn the_edges_of_a_mapping() {
    let list = [mapping("", "src"), mapping("Whole", "file.php")];
    assert_eq!(namespace_from_mappings(&list, "src/A.php"), Ok("".to_string()));
    assert_eq!(namespace_from_mappings(&list, "src/a/A.php"), Ok("\\a".to_string()));
    assert_eq!(namespace_from_mappings(&list, "src"), Ok("".to_string()));
    assert_eq!(namespace_from_mappings(&list, "file.php"), Ok("Whole".to_string()));
    let all = [mapping("R", "")];
    assert_eq!(namespace_from_mappings(&all, "/"), Ok("R".to_string()));
    assert_eq!(namespace_from_mappings(&all, "/a/B.php"), Ok("R\\/\\a".to_string()));
}
