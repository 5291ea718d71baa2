use kompose::error::Error;
use kompose::render::{
    collect_sources, import_partials, main_source, separator_after, sources_of, DirEntry,
    FileLeaf, InputOptions, OutputTarget, PathProbe, RenderCommand,
};
use kompose::values::ValueOptions;

fn strings(items: &[&str]) -> Vec<String> {
    items.iter().map(|s| s.to_string()).collect()
}

fn command(inputs: &[&str], projection: &[&str], output: Option<&str>, standalone: Option<&str>) -> RenderCommand {
    RenderCommand {
        input: InputOptions {
            files: Vec::new(),
            value: ValueOptions { inputs: strings(inputs), fragments: Vec::new() },
        },
        split_depth: 2,
        standalone_file: standalone.map(|s| s.to_string()),
        projection: strings(projection),
        output: output.map(|s| s.to_string()),
    }
}

fn entry(path: &str, name: &str) -> DirEntry {
    DirEntry { path: path.to_string(), file_name: name.to_string() }
}

#[test]
fn a_file_is_its_own_source() {
    let got = sources_of(&"main.ncl".to_string(), &PathProbe::File);
    assert_eq!(got.unwrap(), strings(&["main.ncl"]));
}

#[test]
fn a_directory_contributes_its_ncl_files() {
    let probe = PathProbe::Dir {
        entries: vec![
            entry("pkg/a.ncl", "a.ncl"),
            entry("pkg/.ncl", ".ncl"),
            entry("pkg/b.yaml", "b.yaml"),
            entry("pkg/..ncl", "..ncl"),
            entry("pkg/definition.ncl", "definition.ncl"),
        ],
    };
    let got = sources_of(&"pkg".to_string(), &probe);
    assert_eq!(got.unwrap(), strings(&["pkg/a.ncl", "pkg/..ncl", "pkg/definition.ncl"]));
}

#[test]
fn unreadable_path_is_an_io_error_naming_it() {
    let got = sources_of(&"x".to_string(), &PathProbe::Unreadable { error: "not found".to_string() });
    match got {
        Err(Error::Io { error }) => assert_eq!(error.0, "not found\n:\"x\""),
        _ => panic!("expected an IO error"),
    }
    let got = sources_of(&"d".to_string(), &PathProbe::UnlistableDir { error: "denied".to_string() });
    match got {
        Err(Error::Io { error }) => assert_eq!(error.0, "denied"),
        _ => panic!("expected an IO error"),
    }
}

#[test]
fn directory_without_definition_is_a_render_error() {
    match sources_of(&"pkg".to_string(), &PathProbe::DirWithoutDefinition) {
        Err(Error::Render { source_dir_without_definition }) => {
            assert_eq!(source_dir_without_definition, "pkg")
        }
        _ => panic!("expected a render error"),
    }
}

#[test]
fn sources_keep_order_and_stop_at_first_error() {
    let probes = vec![
        ("a.ncl".to_string(), PathProbe::File),
        ("d".to_string(), PathProbe::Dir { entries: vec![entry("d/x.ncl", "x.ncl")] }),
        ("b.ncl".to_string(), PathProbe::File),
    ];
    assert_eq!(collect_sources(&probes).unwrap(), strings(&["a.ncl", "d/x.ncl", "b.ncl"]));
    let probes = vec![
        ("a.ncl".to_string(), PathProbe::File),
        ("e".to_string(), PathProbe::DirWithoutDefinition),
        ("z".to_string(), PathProbe::Unreadable { error: "gone".to_string() }),
    ];
    match collect_sources(&probes) {
        Err(Error::Render { source_dir_without_definition }) => {
            assert_eq!(source_dir_without_definition, "e")
        }
        _ => panic!("expected the first error"),
    }
}

#[test]
fn imports_and_main_source() {
    let partials = import_partials(&strings(&["a.ncl", "b/c.ncl"]));
    assert_eq!(partials, strings(&["(import \"a.ncl\")", "(import \"b/c.ncl\")"]));
    assert_eq!(
        main_source("[\"*\"]", 0, &partials),
        "Comod.render [\"*\"] 0\n[\n\t(import \"a.ncl\"),\n\t(import \"b/c.ncl\")\n]"
    );
    assert_eq!(main_source("[]", 255, &Vec::new()), "Comod.render [] 255\n[\n\t\n]");
}

#[test]
fn program_source_combines_imports_projection_and_values() {
    let cmd = command(&["k.apiserver", "image=X"], &["*", "a.deployment"], None, None);
    let source = cmd.program_source(&strings(&["a.ncl"])).unwrap();
    assert_eq!(
        source,
        "Comod.render [\"*\",\"a.deployment\"] 2\n[\n\t(import \"a.ncl\"),\n\t({ k.apiserver = { input = { image | force = \"X\" } } })\n]"
    );
}

#[test]
fn projection_is_json_escaped() {
    let cmd = command(&[], &["a\"b", "c\\d", "\n\u{1}"], None, None);
    let source = cmd.program_source(&Vec::new()).unwrap();
    assert_eq!(source, "Comod.render [\"a\\\"b\",\"c\\\\d\",\"\\n\\u0001\"] 2\n[\n\t\n]");
}

#[test]
fn program_source_refuses_dangling_object_path() {
    let cmd = command(&["k.apiserver"], &["*"], None, None);
    assert_eq!(cmd.program_source(&strings(&["a.ncl"])), None);
}

#[test]
fn single_document_without_output_goes_to_stdout() {
    let cmd = command(&[], &["*"], None, None);
    assert!(matches!(cmd.output_target(1, &None), OutputTarget::Stdout));
}

#[test]
fn documents_go_to_files_named_by_their_path() {
    let cmd = command(&[], &["*"], None, None);
    let path = Some(vec![Some("a".to_string()), None, Some("b".to_string())]);
    match cmd.output_target(2, &path) {
        OutputTarget::File { base, segments, leaf } => {
            assert_eq!(base, ".");
            assert_eq!(segments, strings(&["a", "b"]));
            assert!(matches!(leaf, FileLeaf::Extension(e) if e == "yaml"));
        }
        OutputTarget::Stdout => panic!("expected a file"),
    }
    let cmd = command(&[], &["*"], Some("out"), Some("all.yaml"));
    match cmd.output_target(1, &Some(vec![Some("x".to_string())])) {
        OutputTarget::File { base, segments, leaf } => {
            assert_eq!(base, "out");
            assert_eq!(segments, strings(&["x"]));
            assert!(matches!(leaf, FileLeaf::Named(n) if n == "all.yaml"));
        }
        OutputTarget::Stdout => panic!("expected a file"),
    }
}

#[test]
fn separators_between_objects_of_a_stream() {
    // One document to standard output with three objects.
    let seps: Vec<bool> = (0..3).map(|j| separator_after(false, 0, 1, j, 3)).collect();
    assert_eq!(seps, vec![true, true, false]);
    // Each document in a file of its own.
    let seps: Vec<bool> = (0..2).map(|j| separator_after(true, 0, 3, j, 2)).collect();
    assert_eq!(seps, vec![true, false]);
    // A document that shares its stream with later documents.
    assert!(separator_after(false, 0, 2, 1, 2));
}
