use cargo_run_script::failure::Failure;
use cargo_run_script::manifest::{parse_toml, scripts_in, table_of_entries};

const WORKSPACE: &str = "[workspace]\nmembers = [\"a\", \"b\"]\n\n[workspace.metadata.scripts]\nhello = \"echo Hello\"\ngoodbye = \"echo Goodbye\"\n";

const PACKAGE: &str = "[package]\nname = \"demo\"\nversion = \"0.1.0\"\n\n[package.metadata.scripts]\nhello = \"echo Hello\"\ngoodbye = \"echo Goodbye\"\n";

#[test]
fn test_parse_workspace_toml() {
    let result = parse_toml(WORKSPACE).unwrap();
    assert!(result.contains("hello"));
    assert!(result.contains("goodbye"));
}

#[test]
fn test_parse_package_toml() {
    let result = parse_toml(PACKAGE).unwrap();
    assert!(result.contains("hello"));
    assert!(result.contains("goodbye"));
}

#[test]
fn parse_toml_gives_the_bodies() {
    let table = parse_toml(PACKAGE).unwrap();
    assert_eq!(table.len(), 2);
    assert_eq!(table.resolve("hello").unwrap(), "echo Hello");
    assert_eq!(table.resolve("goodbye").unwrap(), "echo Goodbye");
    assert_eq!(table.names(), vec!["goodbye".to_string(), "hello".to_string()]);
}

#[test]
fn parse_toml_accepts_an_empty_scripts_table() {
    let table = parse_toml("[package.metadata.scripts]\n").unwrap();
    assert!(table.is_empty());
}

#[test]
fn parse_toml_accepts_inline_and_dotted_tables() {
    let table = parse_toml("package.metadata.scripts = { hello = \"echo hi $1\" }\n").unwrap();
    assert_eq!(table.resolve("hello").unwrap(), "echo hi $1");
}

#[test]
fn parse_toml_prefers_the_workspace() {
    let text = "[package.metadata.scripts]\nhello = \"from package\"\n\n[workspace.metadata.scripts]\nhello = \"from workspace\"\n";
    let table = parse_toml(text).unwrap();
    assert_eq!(table.resolve("hello").unwrap(), "from workspace");
}

#[test]
fn parse_toml_falls_back_to_the_package() {
    let text = "[workspace]\nmembers = []\n\n[package.metadata.scripts]\nhello = \"from package\"\n";
    let table = parse_toml(text).unwrap();
    assert_eq!(table.resolve("hello").unwrap(), "from package");
    let text = "[workspace.metadata]\nscripts = 3\n\n[package.metadata.scripts]\nhello = \"from package\"\n";
    let table = parse_toml(text).unwrap();
    assert_eq!(table.resolve("hello").unwrap(), "from package");
}

#[test]
fn parse_toml_rejects_text_that_is_no_document() {
    assert_eq!(parse_toml("[package").unwrap_err(), Failure::ManifestMalformed);
    assert_eq!(parse_toml("hello = ").unwrap_err(), Failure::ManifestMalformed);
    assert_eq!(parse_toml("a = 1\na = 2\n").unwrap_err(), Failure::ManifestMalformed);
}

#[test]
fn parse_toml_rejects_a_document_without_scripts() {
    assert_eq!(parse_toml("").unwrap_err(), Failure::ManifestMalformed);
    assert_eq!(parse_toml("[package]\nname = \"demo\"\n").unwrap_err(), Failure::ManifestMalformed);
    assert_eq!(
        parse_toml("[package.metadata]\nother = 1\n").unwrap_err(),
        Failure::ManifestMalformed
    );
    assert_eq!(
        parse_toml("[metadata.scripts]\nhello = \"echo hi\"\n").unwrap_err(),
        Failure::ManifestMalformed
    );
}

#[test]
fn parse_toml_rejects_scripts_of_the_wrong_shape() {
    assert_eq!(
        parse_toml("[package.metadata]\nscripts = \"echo hi\"\n").unwrap_err(),
        Failure::ManifestMalformed
    );
    assert_eq!(
        parse_toml("[package.metadata]\nscripts = [\"echo hi\"]\n").unwrap_err(),
        Failure::ManifestMalformed
    );
    assert_eq!(
        parse_toml("[package.metadata.scripts]\nhello = \"echo hi\"\ncount = 3\n").unwrap_err(),
        Failure::ManifestMalformed
    );
    assert_eq!(
        parse_toml("[package.metadata.scripts.hello]\ncommand = \"echo hi\"\n").unwrap_err(),
        Failure::ManifestMalformed
    );
}

#[test]
fn scripts_in_reads_a_document_that_was_parsed() {
    let document = toml::Value::Table(toml::from_str::<toml::Table>(WORKSPACE).unwrap());
    let table = scripts_in(&document).unwrap();
    assert_eq!(table.resolve("hello").unwrap(), "echo Hello");
    let document = toml::Value::Table(toml::Table::new());
    assert_eq!(scripts_in(&document).unwrap_err(), Failure::ManifestMalformed);
    let document = toml::Value::String("scripts".to_string());
    assert_eq!(scripts_in(&document).unwrap_err(), Failure::ManifestMalformed);
}

#[test]
fn table_of_entries_takes_texts() {
    let entries = vec![
        ("b".to_string(), Some("second".to_string())),
        ("a".to_string(), Some("first".to_string())),
    ];
    let table = table_of_entries(entries).unwrap();
    assert_eq!(table.names(), vec!["b".to_string(), "a".to_string()]);
    assert_eq!(table.resolve("a").unwrap(), "first");
    assert_eq!(table.resolve("b").unwrap(), "second");
    assert!(table_of_entries(Vec::new()).unwrap().is_empty());
}

#[test]
fn table_of_entries_rejects_an_entry_without_text() {
    let entries = vec![("a".to_string(), Some("first".to_string())), ("b".to_string(), None)];
    assert_eq!(table_of_entries(entries).unwrap_err(), Failure::ManifestMalformed);
}
