use kompose::error::{Error, IOError, Report, ReplInitError};
use kompose::export::{ExportCommand, ExportOutput, LocalExportFormat, ProgramSource, SerializeFormat};
use kompose::nls::{Error as NlsError, ResponseCode, TextPosition};
use kompose::text::{decimal_text, escape_quotes, join_texts, same_text};

fn strings(items: &[&str]) -> Vec<String> {
    items.iter().map(|s| s.to_string()).collect()
}

fn export(files: &[&str], list: bool) -> ExportCommand {
    ExportCommand { format: LocalExportFormat::default(), output: None, files: strings(files), list }
}

#[test]
fn default_format_is_json() {
    assert_eq!(LocalExportFormat::default(), LocalExportFormat::Json);
}

#[test]
fn only_json_gets_a_trailing_newline() {
    assert_eq!(LocalExportFormat::Ncl.export_output(), ExportOutput::Pretty);
    let cases = [
        (LocalExportFormat::Raw, SerializeFormat::Raw, false),
        (LocalExportFormat::Json, SerializeFormat::Json, true),
        (LocalExportFormat::MiJson, SerializeFormat::MiJson, false),
        (LocalExportFormat::Yaml, SerializeFormat::Yaml, false),
        (LocalExportFormat::Toml, SerializeFormat::Toml, false),
    ];
    for (local, format, trailing_newline) in cases {
        assert_eq!(local.export_output(), ExportOutput::Serialized { format, trailing_newline });
    }
}

#[test]
fn import_files_are_distinct_and_sorted() {
    let cmd = export(&["b.ncl", "a.ncl", "b.ncl", "Z.ncl", "a.ncl"], false);
    assert_eq!(cmd.import_files(), strings(&["Z.ncl", "a.ncl", "b.ncl"]));
    assert_eq!(export(&[], false).import_files(), Vec::<String>::new());
}

#[test]
fn import_files_compare_paths_by_components() {
    assert_eq!(export(&["a-b", "a/b", "a//b"], false).import_files(), strings(&["a/b", "a-b"]));
    assert_eq!(export(&["a/b", "a-b"], false).import_files(), strings(&["a/b", "a-b"]));
    assert_eq!(export(&["a/b", "a//b", "a/./b", "a/b/"], false).import_files(), strings(&["a/b"]));
    assert_eq!(export(&["x", "./x"], false).import_files(), strings(&["./x", "x"]));
    assert_eq!(export(&["a", "/b", "../c"], false).import_files(), strings(&["/b", "../c", "a"]));
}

#[test]
fn the_same_path_twice_is_one_file() {
    match export(&["a/b", "a//b"], false).program_source() {
        ProgramSource::File { path } => assert_eq!(path, "a/b"),
        _ => panic!("expected one file"),
    }
}

#[test]
fn program_source_by_file_count() {
    assert!(matches!(export(&[], false).program_source(), ProgramSource::Stdin));
    match export(&["a.ncl", "a.ncl"], false).program_source() {
        ProgramSource::File { path } => assert_eq!(path, "a.ncl"),
        _ => panic!("expected one file"),
    }
    match export(&["c.ncl", "a.ncl"], false).program_source() {
        ProgramSource::Files { paths } => assert_eq!(paths, strings(&["a.ncl", "c.ncl"])),
        _ => panic!("expected several files"),
    }
}

#[test]
fn as_list_imports_each_file_in_order() {
    match export(&["b.ncl", "a.ncl"], true).program_source() {
        ProgramSource::AsList { source } => {
            let a = source.find("import \"a.ncl\"").expect("imports a.ncl");
            let b = source.find("import \"b.ncl\"").expect("imports b.ncl");
            assert!(a < b);
            assert!(source.trim_start().starts_with('['));
            assert!(source.trim_end().ends_with(']'));
        }
        _ => panic!("expected a generated list"),
    }
    match export(&["a-b", "a/b"], true).program_source() {
        ProgramSource::AsList { source } => {
            let ab = source.find("import \"a/b\"").expect("imports a/b");
            let a_b = source.find("import \"a-b\"").expect("imports a-b");
            assert!(ab < a_b);
        }
        _ => panic!("expected a generated list"),
    }
}

#[test]
fn error_reports() {
    match (Error::Io { error: IOError("disk".to_string()) }).report() {
        Report::Standalone { label, note } => {
            assert_eq!(label, "IO error");
            assert_eq!(note, Some("disk".to_string()));
        }
        _ => panic!("expected a standalone report"),
    }
    match (Error::Render { source_dir_without_definition: "pkg".to_string() }).report() {
        Report::Line { text } => assert_eq!(text, "no definition.ncl in source directory: \"pkg\""),
        _ => panic!("expected a line"),
    }
    match (Error::Repl { error: ReplInitError::Stdlib }).report() {
        Report::Standalone { label, note } => {
            assert_eq!(label, "failed to initialize the standard library");
            assert_eq!(note, None);
        }
        _ => panic!("expected a standalone report"),
    }
    match (Error::Repl { error: ReplInitError::ReadlineError("tty".to_string()) }).report() {
        Report::Standalone { label, note } => {
            assert_eq!(label, "failed to initialize the terminal interface");
            assert_eq!(note, Some("tty".to_string()));
        }
        _ => panic!("expected a standalone report"),
    }
    assert!(matches!(Error::Program.report(), Report::Delegated));
    assert!(matches!(Error::CliUsage.report(), Report::Delegated));
}

#[test]
fn language_server_error_responses() {
    let url = "file:///a.ncl".to_string();
    let cases = vec![
        (NlsError::SchemeNotSupported("http".to_string()), ResponseCode::InvalidParams, -32602, "scheme not supported: http".to_string()),
        (NlsError::InvalidPath(url.clone()), ResponseCode::InvalidParams, -32602, format!("invalid path: {}", url)),
        (NlsError::FileNotFound(url.clone()), ResponseCode::InvalidParams, -32602, format!("file {} not found", url)),
        (
            NlsError::InvalidPosition { pos: TextPosition { line: 3, character: 17 }, file: url.clone() },
            ResponseCode::InvalidParams,
            -32602,
            format!("position Position {{ line: 3, character: 17 }} invalid for file {}", url),
        ),
        (NlsError::MethodNotFound, ResponseCode::MethodNotFound, -32601, "Method not supported".to_string()),
        (NlsError::CommandNotFound("eval".to_string()), ResponseCode::InvalidParams, -32602, "Command not supported: eval".to_string()),
        (
            NlsError::FormattingFailed { details: "bad".to_string(), file: url.clone() },
            ResponseCode::InternalError,
            -32603,
            format!("formatting failed for file {}: bad", url),
        ),
        (NlsError::Nickel("E".to_string()), ResponseCode::InternalError, -32603, "unhandled nickel error: E".to_string()),
    ];
    for (error, class, code, message) in cases {
        assert_eq!(error.response_code(), class);
        assert_eq!(error.message(), message);
        let response = error.response_error();
        assert_eq!(response.code, code);
        assert_eq!(response.message, message);
    }
}

#[test]
fn text_helpers() {
    assert_eq!(decimal_text(0), "0");
    assert_eq!(decimal_text(902), "902");
    assert_eq!(decimal_text(u128::MAX), u128::MAX.to_string());
    assert_eq!(escape_quotes("a\"b\"\""), "a\\\"b\\\"\\\"");
    assert_eq!(escape_quotes("é\"ü"), "é\\\"ü");
    assert!(same_text("abc", "abc"));
    assert!(!same_text("abc", "abd"));
    assert!(!same_text("ab", "abc"));
    assert_eq!(join_texts(&strings(&["a", "b", "c"]), ", "), "a, b, c");
    assert_eq!(join_texts(&Vec::new(), ", "), "");
}
