use salesforce_exporter::output::{
    default_output_name, ends_with_separator, pick_target, resolve_output_path, strip_custom_suffix, OutputTarget,
};

fn resolve(table: &str, output: Option<&str>) -> String {
    match resolve_output_path(table, output.map(|s| s.to_string())) {
        OutputTarget::Current { file_name } => format!("current {file_name}"),
        OutputTarget::File { path } => format!("file {path}"),
        OutputTarget::Directory { path, file_name } => format!("directory {path} {file_name}"),
    }
}

#[test]
fn default_file_is_named_after_the_object() {
    assert_eq!(resolve("Account", None), "current account.parquet");
    assert_eq!(resolve("Invoice_Line__c", None), "current invoice_line.parquet");
    assert_eq!(default_output_name("ÄRGER__c"), "ärger.parquet");
    assert_eq!(default_output_name("Case__C"), "case__c.parquet");
    assert_eq!(strip_custom_suffix("Box__c"), "Box");
}

#[test]
fn custom_object_and_plain_object_share_a_default_file() {
    assert_eq!(default_output_name("Box__c"), default_output_name("Box"));
    assert_eq!(default_output_name("Box__c__c"), default_output_name("Box__c"));
}

#[test]
fn path_with_an_extension_is_a_file() {
    assert_eq!(resolve("Account", Some("out.parquet")), "file out.parquet");
    assert_eq!(resolve("Account", Some("data/x.y/out.pq")), "file data/x.y/out.pq");
    assert_eq!(resolve("Account", Some("out.")), "file out.");
    assert_eq!(resolve("Account", Some("/abs/a.b/.")), "file /abs/a.b/.");
    assert_eq!(resolve("Account", Some("...")), "file ...");
}

#[test]
fn path_with_a_trailing_separator_is_a_directory() {
    assert_eq!(resolve("Account", Some("out.d/")), "directory out.d/ account.parquet");
    assert_eq!(resolve("Account", Some("exports.d/")), "directory exports.d/ account.parquet");
    assert_eq!(resolve("Account", Some("x.parquet/")), "directory x.parquet/ account.parquet");
    assert_eq!(resolve("Account", Some("C:\\a.b/")), "directory C:\\a.b/ account.parquet");
    assert_eq!(resolve("Account", Some("//a/b.c/")), "directory //a/b.c/ account.parquet");
    assert!(ends_with_separator("out.d/"));
    assert!(!ends_with_separator("out.d"));
    assert!(!ends_with_separator(""));
    assert_eq!(ends_with_separator("out.d\\"), std::path::is_separator('\\'));
}

#[test]
fn windows_paths_with_an_extension_are_files() {
    for path in [
        "C:\\exports\\account.parquet",
        "C:/exports/account.parquet",
        "C:account.parquet",
        "run-10:30.parquet",
        "v1.2:latest",
        "\\\\server\\share\\account.parquet",
    ] {
        assert_eq!(resolve("Account", Some(path)), format!("file {path}"));
    }
}

#[test]
fn windows_paths_without_an_extension_are_directories() {
    for path in ["C:\\exports", "C:", "C:/data.d/out", "C:/out/.hidden", "\\\\server\\share"] {
        assert_eq!(resolve("Box__c", Some(path)), format!("directory {path} box.parquet"));
    }
}

#[test]
fn path_without_an_extension_is_a_directory() {
    assert_eq!(resolve("Box__c", Some("out")), "directory out box.parquet");
    assert_eq!(resolve("Box__c", Some("out/")), "directory out/ box.parquet");
    assert_eq!(resolve("Box__c", Some("a.b/out")), "directory a.b/out box.parquet");
    assert_eq!(resolve("Box__c", Some(".hidden")), "directory .hidden box.parquet");
    assert_eq!(resolve("Box__c", Some(".")), "directory . box.parquet");
    assert_eq!(resolve("Box__c", Some("a.b/..")), "directory a.b/.. box.parquet");
    assert_eq!(resolve("Box__c", Some("./")), "directory ./ box.parquet");
    assert_eq!(resolve("Box__c", Some("/")), "directory / box.parquet");
    assert_eq!(resolve("Box__c", Some("")), "directory  box.parquet");
}

#[test]
fn resolved_path_resolves_to_itself() {
    assert_eq!(resolve("Account", Some("out/account.parquet")), "file out/account.parquet");
    for output in [None, Some("out"), Some("a.b/"), Some("C:/out"), Some("x.pq"), Some("")] {
        let resolved = match resolve_output_path("Box__c", output.map(|s| s.to_string())) {
            OutputTarget::Current { file_name } => file_name,
            OutputTarget::File { path } => path,
            OutputTarget::Directory { path, file_name } => {
                std::path::Path::new(&path).join(file_name).to_str().unwrap().to_string()
            }
        };
        assert_eq!(resolve("Account", Some(&resolved)), format!("file {resolved}"));
    }
}

#[test]
fn targets_are_picked_by_what_the_path_is() {
    let name = || "a.parquet".to_string();
    let path = || Some("p".to_string());
    assert!(matches!(pick_target(name(), None, true), OutputTarget::Current { .. }));
    assert!(matches!(pick_target(name(), path(), true), OutputTarget::File { .. }));
    assert!(matches!(pick_target(name(), path(), false), OutputTarget::Directory { .. }));
}
