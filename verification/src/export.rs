//! The `export` command: which program to evaluate, and how its result is written.
use vstd::prelude::*;
use vstd::relations::sorted_by;

use nickel_lang_core::term::array::{Array, ArrayAttrs};
use nickel_lang_core::term::{RichTerm, Term};

use crate::path::{
    first_path_occurrences, lemma_first_path_occurrences, lemma_path_sorted_unique, path_order,
    same_path, sort_paths, unique_paths,
};

verus! {

/// Available export formats.
#[derive(Copy, Clone, Eq, PartialEq, Structural, Debug)]
pub enum LocalExportFormat {
    Raw,
    Json,
    MiJson,
    Ncl,
    Yaml,
    Toml,
}

impl Default for LocalExportFormat {
    fn default() -> (format: Self)
        ensures
            format == LocalExportFormat::Json,
    {
        LocalExportFormat::Json
    }
}

/// The serialization formats of evaluated configurations.
#[derive(Copy, Clone, Eq, PartialEq, Structural, Debug)]
pub enum SerializeFormat {
    Raw,
    Json,
    /// Compact (minified) JSON.
    MiJson,
    Yaml,
    Toml,
}

/// How an evaluated configuration is written.
#[derive(Copy, Clone, Eq, PartialEq, Structural, Debug)]
pub enum ExportOutput {
    /// As configuration-language source, by its pretty printer.
    Pretty,
    /// Serialized, followed by a newline when `trailing_newline` holds.
    Serialized { format: SerializeFormat, trailing_newline: bool },
}

/// The `export` command's options.
#[derive(Debug)]
pub struct ExportCommand {
    pub format: LocalExportFormat,
    /// Output file; standard output when absent.
    pub output: Option<String>,
    pub files: Vec<String>,
    /// Evaluate the files as one array of imports.
    pub list: bool,
}

/// Which program the `export` command evaluates.
#[derive(Debug)]
pub enum ProgramSource {
    /// This generated source, an array that imports each file.
    AsList { source: String },
    /// Standard input.
    Stdin,
    /// One file.
    File { path: String },
    /// Several files, merged.
    Files { paths: Vec<String> },
}

/// How a format is written.
pub open spec fn export_output_of(format: LocalExportFormat) -> ExportOutput {
    match format {
        LocalExportFormat::Ncl => ExportOutput::Pretty,
        LocalExportFormat::Raw => ExportOutput::Serialized {
            format: SerializeFormat::Raw,
            trailing_newline: false,
        },
        LocalExportFormat::Json => ExportOutput::Serialized {
            format: SerializeFormat::Json,
            trailing_newline: true,
        },
        LocalExportFormat::MiJson => ExportOutput::Serialized {
            format: SerializeFormat::MiJson,
            trailing_newline: false,
        },
        LocalExportFormat::Yaml => ExportOutput::Serialized {
            format: SerializeFormat::Yaml,
            trailing_newline: false,
        },
        LocalExportFormat::Toml => ExportOutput::Serialized {
            format: SerializeFormat::Toml,
            trailing_newline: false,
        },
    }
}

/// Whether `order` lists each path of `files` once, by its first occurrence, in
/// the order of paths.
pub open spec fn is_import_order(files: Seq<Seq<char>>, order: Seq<Seq<char>>) -> bool {
    &&& order.to_multiset() == first_path_occurrences(files).to_multiset()
    &&& sorted_by(order, path_order())
}

/// The files to evaluate: each path named once (by its first occurrence), in the
/// order of paths.
pub open spec fn import_order(files: Seq<Seq<char>>) -> Seq<Seq<char>> {
    choose|order: Seq<Seq<char>>| is_import_order(files, order)
}

/// The source that the configuration language's pretty printer gives of an array
/// that imports each of `files`.
pub uninterp spec fn import_array_text(files: Seq<Seq<char>>) -> Seq<char>;

/// Builds the array term `[import "f1", import "f2", ...]` of the configuration
/// language and prints it with the language's pretty printer (`RichTerm`'s
/// `Display`). The contract names the text `import_array_text(files)`; it does
/// not say how the printer lays it out.
#[verifier::external_body]
fn import_array_source(files: &Vec<String>) -> (source: String)
    ensures
        source@ == import_array_text(files.deep_view()),
{
    let terms: Vec<RichTerm> = files.iter().map(|f| RichTerm::from(Term::Import(f.clone().into()))).collect();
    let array = Term::Array(Array::new(std::rc::Rc::from(terms)), ArrayAttrs::default());
    RichTerm::from(array).to_string()
}

impl LocalExportFormat {
    /// How an evaluated configuration is written in this format: `ncl` by the
    /// pretty printer, the others serialized, with a trailing newline for JSON
    /// alone (the YAML and TOML writers end with one already).
    pub fn export_output(self) -> (output: ExportOutput)
        ensures
            output == export_output_of(self),
    {
        match self {
            LocalExportFormat::Ncl => ExportOutput::Pretty,
            LocalExportFormat::Raw => ExportOutput::Serialized {
                format: SerializeFormat::Raw,
                trailing_newline: false,
            },
            LocalExportFormat::Json => ExportOutput::Serialized {
                format: SerializeFormat::Json,
                trailing_newline: true,
            },
            LocalExportFormat::MiJson => ExportOutput::Serialized {
                format: SerializeFormat::MiJson,
                trailing_newline: false,
            },
            LocalExportFormat::Yaml => ExportOutput::Serialized {
                format: SerializeFormat::Yaml,
                trailing_newline: false,
            },
            LocalExportFormat::Toml => ExportOutput::Serialized {
                format: SerializeFormat::Toml,
                trailing_newline: false,
            },
        }
    }
}

impl ExportCommand {
    /// The files to evaluate: each path named once (by its first occurrence), sorted
    /// as paths.
    pub fn import_files(&self) -> (files: Vec<String>)
        ensures
            files.deep_view() == import_order(self.files.deep_view()),
            sorted_by(files.deep_view(), path_order()),
            forall|i: int, j: int|
                0 <= i < j < files.len() ==> !same_path(
                    #[trigger] files.deep_view()[i],
                    #[trigger] files.deep_view()[j],
                ),
            forall|x: Seq<char>| #[trigger]
                files.deep_view().contains(x) ==> self.files.deep_view().contains(x),
            forall|x: Seq<char>|
                #[trigger] self.files.deep_view().contains(x) ==> exists|i: int|
                    0 <= i < files.len() && same_path(#[trigger] files.deep_view()[i], x),
    {
        let mut files = unique_paths(&self.files);
        let ghost unique = files.deep_view();
        sort_paths(&mut files);
        proof {
            broadcast use vstd::seq_lib::group_to_multiset_ensures;

            let named = self.files.deep_view();
            let sorted = files.deep_view();
            lemma_first_path_occurrences(named);
            assert forall|x: Seq<char>| #[trigger] sorted.contains(x) <==> unique.contains(x) by {
                assert(sorted.contains(x) <==> sorted.to_multiset().count(x) > 0);
                assert(unique.contains(x) <==> unique.to_multiset().count(x) > 0);
            }
            assert forall|a: Seq<char>, b: Seq<char>|
                sorted.contains(a) && sorted.contains(b) && same_path(a, b) implies a == b by {
                assert(unique.contains(a) && unique.contains(b));
                let p = choose|p: int| 0 <= p < unique.len() && unique[p] == a;
                let q = choose|q: int| 0 <= q < unique.len() && unique[q] == b;
                if p < q {
                    assert(!same_path(unique[p], unique[q]));
                } else if q < p {
                    assert(!same_path(unique[q], unique[p]));
                }
            }
            assert(is_import_order(named, sorted));
            let chosen = import_order(named);
            assert(is_import_order(named, chosen));
            lemma_path_sorted_unique(sorted, chosen);
            assert(unique.no_duplicates()) by {
                assert forall|i: int, j: int| 0 <= i < unique.len() && 0 <= j < unique.len() && i
                    != j implies unique[i] != unique[j] by {
                    if i < j {
                        assert(!same_path(unique[i], unique[j]));
                    } else {
                        assert(!same_path(unique[j], unique[i]));
                    }
                }
            }
            unique.lemma_multiset_has_no_duplicates();
            sorted.lemma_multiset_has_no_duplicates_conv();
            assert forall|i: int, j: int| 0 <= i < j < files.len() implies !same_path(
                #[trigger] sorted[i],
                #[trigger] sorted[j],
            ) by {
                assert(sorted.contains(sorted[i]) && sorted.contains(sorted[j]));
                assert(sorted[i] != sorted[j]);
            }
            assert forall|x: Seq<char>|
                #[trigger] named.contains(x) implies exists|i: int|
                    0 <= i < files.len() && same_path(#[trigger] sorted[i], x) by {
                let p = choose|p: int| 0 <= p < unique.len() && same_path(#[trigger] unique[p], x);
                assert(unique.contains(unique[p]));
                assert(sorted.contains(unique[p]));
                let i = choose|i: int| 0 <= i < sorted.len() && sorted[i] == unique[p];
                assert(same_path(sorted[i], x));
            }
        }
        files
    }

    /// Which program to evaluate: with `list`, the generated array of imports of
    /// the files; otherwise standard input when no file is named, the file when
    /// one is, and all of them merged when several are.
    pub fn program_source(&self) -> (source: ProgramSource)
        ensures
            ({
                let files = import_order(self.files.deep_view());
                match source {
                    ProgramSource::AsList { source } => self.list && source@ == import_array_text(files),
                    ProgramSource::Stdin => !self.list && files.len() == 0,
                    ProgramSource::File { path } => !self.list && files == seq![path@],
                    ProgramSource::Files { paths } => !self.list && files.len() > 1 && paths.deep_view()
                        == files,
                }
            }),
    {
        let files = self.import_files();
        if self.list {
            ProgramSource::AsList { source: import_array_source(&files) }
        } else if files.len() == 0 {
            ProgramSource::Stdin
        } else if files.len() == 1 {
            let path = files[0].clone();
            assert(files.deep_view() =~= seq![path@]);
            ProgramSource::File { path }
        } else {
            ProgramSource::Files { paths: files }
        }
    }
}

} // verus!
