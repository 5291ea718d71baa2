//! The `render` command: collecting the component sources, building the main
//! program that renders them, and deciding where each rendered document goes.
use vstd::prelude::*;

use crate::error::{Error, IOError};
use crate::text::{decimal, decimal_text, join_texts, joined, same_text};
use crate::values::{args_pair_up, path_value_pairs, ValueCombiner, ValueOptions};

verus! {

/// The input files and the value arguments of a command.
#[derive(Debug)]
pub struct InputOptions<V> {
    pub files: Vec<String>,
    pub value: V,
}

/// The `render` command's options.
#[derive(Debug)]
pub struct RenderCommand {
    pub input: InputOptions<ValueOptions>,
    /// Split component/object output by component tree depth.
    pub split_depth: u8,
    /// File name under which each separated output is saved.
    pub standalone_file: Option<String>,
    /// Component paths that select the objects to render (`*` matches any component).
    pub projection: Vec<String>,
    /// Output file or directory.
    pub output: Option<String>,
}

/// An entry of a source directory.
#[derive(Debug)]
pub struct DirEntry {
    pub path: String,
    pub file_name: String,
}

/// What the file system says about one input path.
#[derive(Debug)]
pub enum PathProbe {
    /// Its metadata could not be read, for this reason.
    Unreadable { error: String },
    /// It is not a directory.
    File,
    /// It is a directory without a `definition.ncl`.
    DirWithoutDefinition,
    /// It is a directory with a `definition.ncl` that could not be listed, for this reason.
    UnlistableDir { error: String },
    /// It is a directory with a `definition.ncl` and these (readable) entries.
    Dir { entries: Vec<DirEntry> },
}

/// The abstract form of an error.
pub enum ErrorView {
    Program,
    Io(Seq<char>),
    Render(Seq<char>),
    ReplStdlib,
    ReplReadline(Seq<char>),
    CliUsage,
}

pub open spec fn error_view(e: Error) -> ErrorView {
    match e {
        Error::Program => ErrorView::Program,
        Error::Io { error } => ErrorView::Io(error.0@),
        Error::Render { source_dir_without_definition } => ErrorView::Render(
            source_dir_without_definition@,
        ),
        Error::Repl { error: crate::error::ReplInitError::Stdlib } => ErrorView::ReplStdlib,
        Error::Repl { error: crate::error::ReplInitError::ReadlineError(m) } => ErrorView::ReplReadline(
            m@,
        ),
        Error::CliUsage => ErrorView::CliUsage,
    }
}

pub open spec fn outcome_view(r: Result<Vec<String>, Error>) -> Result<Seq<Seq<char>>, ErrorView> {
    match r {
        Ok(v) => Ok(v.deep_view()),
        Err(e) => Err(error_view(e)),
    }
}

/// Whether a file name has the extension `ncl` (a leading dot does not start an extension).
pub open spec fn has_ncl_extension(name: Seq<char>) -> bool {
    name.len() > 4 && name.subrange(name.len() - 4, name.len() as int) == ".ncl"@
}

/// The paths of the entries whose file name has the extension `ncl`, in order.
pub open spec fn ncl_entry_paths(entries: Seq<DirEntry>) -> Seq<Seq<char>>
    decreases entries.len(),
{
    if entries.len() == 0 {
        seq![]
    } else {
        let rest = ncl_entry_paths(entries.drop_last());
        if has_ncl_extension(entries.last().file_name@) {
            rest.push(entries.last().path@)
        } else {
            rest
        }
    }
}

/// The source files that one input path contributes, or the error it raises.
pub open spec fn probe_outcome(path: Seq<char>, probe: PathProbe) -> Result<Seq<Seq<char>>, ErrorView> {
    match probe {
        PathProbe::Unreadable { error } => Err(ErrorView::Io(error@ + "\n:\""@ + path + "\""@)),
        PathProbe::File => Ok(seq![path]),
        PathProbe::DirWithoutDefinition => Err(ErrorView::Render(path)),
        PathProbe::UnlistableDir { error } => Err(ErrorView::Io(error@)),
        PathProbe::Dir { entries } => Ok(ncl_entry_paths(entries@)),
    }
}

/// The source files of all input paths in order, or the error of the first one that raises one.
pub open spec fn sources_outcome(probes: Seq<(String, PathProbe)>) -> Result<Seq<Seq<char>>, ErrorView>
    decreases probes.len(),
{
    if probes.len() == 0 {
        Ok(seq![])
    } else {
        match sources_outcome(probes.drop_last()) {
            Err(e) => Err(e),
            Ok(prefix) => match probe_outcome(probes.last().0@, probes.last().1) {
                Err(e) => Err(e),
                Ok(more) => Ok(prefix + more),
            },
        }
    }
}

/// An import of each source file.
pub open spec fn import_lines(files: Seq<Seq<char>>) -> Seq<Seq<char>> {
    files.map_values(|f: Seq<char>| "(import \""@ + f + "\")"@)
}

/// How serde_json writes one character inside a string literal.
pub open spec fn json_char(c: char) -> Seq<char> {
    if c == '"' {
        seq!['\\', '"']
    } else if c == '\\' {
        seq!['\\', '\\']
    } else if c == '\u{8}' {
        seq!['\\', 'b']
    } else if c == '\t' {
        seq!['\\', 't']
    } else if c == '\n' {
        seq!['\\', 'n']
    } else if c == '\u{c}' {
        seq!['\\', 'f']
    } else if c == '\r' {
        seq!['\\', 'r']
    } else if (c as int) < 0x20 {
        seq!['\\', 'u', '0', '0', hex_digit((c as int) / 16), hex_digit((c as int) % 16)]
    } else {
        seq![c]
    }
}

/// A lower-case hexadecimal digit.
pub open spec fn hex_digit(d: int) -> char {
    seq!['0', '1', '2', '3', '4', '5', '6', '7', '8', '9', 'a', 'b', 'c', 'd', 'e', 'f'][d]
}

/// The characters of `s`, each written as in a JSON string literal.
pub open spec fn json_chars(s: Seq<char>) -> Seq<char>
    decreases s.len(),
{
    if s.len() == 0 {
        seq![]
    } else {
        json_chars(s.drop_last()) + json_char(s.last())
    }
}

/// The compact JSON text of a list of strings.
pub open spec fn json_string_list(items: Seq<Seq<char>>) -> Seq<char> {
    "["@ + joined(items.map_values(|s: Seq<char>| "\""@ + json_chars(s) + "\""@), ","@) + "]"@
}

/// The main program: the render call over the projection and split depth, applied
/// to the array of all partial sources.
pub open spec fn main_source_text(projection_json: Seq<char>, split_depth: u8, partials: Seq<Seq<char>>) -> Seq<char> {
    "Comod.render "@ + projection_json + " "@ + decimal(split_depth as nat) + "\n[\n\t"@
        + joined(partials, ",\n\t"@) + "\n]"@
}

/// Serializes a list of strings with `serde_json::to_string`. The contract states the
/// compact JSON that serde_json writes: an array of string literals, in which `"`,
/// `\` and the control characters below U+0020 are escaped (`\b`, `\t`, `\n`, `\f`,
/// `\r`, otherwise `\u00xx` in lower-case hexadecimal) and every other character is
/// kept. serde_json documents failures only for `Serialize` impls that fail and maps
/// with non-string keys, neither of which a list of strings has.
#[verifier::external_body]
fn json_list_text(items: &Vec<String>) -> (json: String)
    ensures
        json@ == json_string_list(items.deep_view()),
{
    serde_json::to_string(items).unwrap()
}

/// Whether a file name has the extension `ncl`.
fn is_ncl_file_name(name: &str) -> (ncl: bool)
    ensures
        ncl == has_ncl_extension(name@),
{
    let n = name.unicode_len();
    n > 4 && same_text(name.substring_char(n - 4, n), ".ncl")
}

/// The source files that one input path contributes, or the error it raises: a
/// directory must hold `definition.ncl`, and contributes its `.ncl` files.
pub fn sources_of(path: &String, probe: &PathProbe) -> (sources: Result<Vec<String>, Error>)
    ensures
        outcome_view(sources) == probe_outcome(path@, *probe),
{
    match probe {
        PathProbe::Unreadable { error } => {
            let mut text = error.clone();
            text.append("\n:\"");
            text.append(path.as_str());
            text.append("\"");
            Err(Error::Io { error: IOError(text) })
        },
        PathProbe::File => {
            let mut files: Vec<String> = Vec::new();
            files.push(path.clone());
            assert(files.deep_view() =~= seq![path@]);
            Ok(files)
        },
        PathProbe::DirWithoutDefinition => Err(
            Error::Render { source_dir_without_definition: path.clone() },
        ),
        PathProbe::UnlistableDir { error } => Err(Error::Io { error: IOError(error.clone()) }),
        PathProbe::Dir { entries } => {
            let mut files: Vec<String> = Vec::new();
            let mut i: usize = 0;
            while i < entries.len()
                invariant
                    i <= entries.len(),
                    files.deep_view() == ncl_entry_paths(entries@.take(i as int)),
                decreases entries.len() - i,
            {
                assert(entries@.take(i + 1).drop_last() =~= entries@.take(i as int));
                let ghost before = files.deep_view();
                if is_ncl_file_name(entries[i].file_name.as_str()) {
                    files.push(entries[i].path.clone());
                    assert(files.deep_view() =~= before.push(entries@[i as int].path@));
                }
                i = i + 1;
            }
            assert(entries@.take(entries.len() as int) =~= entries@);
            Ok(files)
        },
    }
}

/// The source files of all input paths in order, or the error of the first input
/// path that raises one.
pub fn collect_sources(probes: &Vec<(String, PathProbe)>) -> (sources: Result<Vec<String>, Error>)
    ensures
        outcome_view(sources) == sources_outcome(probes@),
{
    let mut all: Vec<String> = Vec::new();
    let mut i: usize = 0;
    assert(probes@.take(0) =~= Seq::<(String, PathProbe)>::empty());
    assert(all.deep_view() =~= Seq::<Seq<char>>::empty());
    while i < probes.len()
        invariant
            i <= probes.len(),
            sources_outcome(probes@.take(i as int)) == Ok::<Seq<Seq<char>>, ErrorView>(all.deep_view()),
        decreases probes.len() - i,
    {
        assert(probes@.take(i + 1).drop_last() =~= probes@.take(i as int));
        match sources_of(&probes[i].0, &probes[i].1) {
            Err(e) => {
                proof {
                    lemma_sources_error_sticks(probes@, i as int);
                }
                return Err(e);
            },
            Ok(more) => {
                let ghost before = all.deep_view();
                let mut j: usize = 0;
                while j < more.len()
                    invariant
                        j <= more.len(),
                        all.deep_view() =~= before + more.deep_view().take(j as int),
                    decreases more.len() - j,
                {
                    let ghost prev = all.deep_view();
                    all.push(more[j].clone());
                    assert(all.deep_view() =~= prev.push(more.deep_view()[j as int]));
                    assert(more.deep_view().take(j + 1) =~= more.deep_view().take(j as int).push(
                        more.deep_view()[j as int],
                    ));
                    j = j + 1;
                }
                assert(more.deep_view().take(more.len() as int) =~= more.deep_view());
            },
        }
        i = i + 1;
    }
    assert(probes@.take(probes.len() as int) =~= probes@);
    Ok(all)
}

/// Once one input path raises an error, the whole collection raises it.
proof fn lemma_sources_error_sticks(probes: Seq<(String, PathProbe)>, i: int)
    requires
        0 <= i < probes.len(),
        sources_outcome(probes.take(i)) is Ok,
        probe_outcome(probes[i].0@, probes[i].1) is Err,
    ensures
        sources_outcome(probes) == probe_outcome(probes[i].0@, probes[i].1),
    decreases probes.len() - i,
{
    assert(probes.take(i + 1).drop_last() =~= probes.take(i));
    lemma_error_prefix(probes, i + 1);
}

/// An error of a prefix is the error of the whole list.
proof fn lemma_error_prefix(probes: Seq<(String, PathProbe)>, k: int)
    requires
        0 <= k <= probes.len(),
        sources_outcome(probes.take(k)) is Err,
    ensures
        sources_outcome(probes) == sources_outcome(probes.take(k)),
    decreases probes.len() - k,
{
    if k == probes.len() {
        assert(probes.take(k) =~= probes);
    } else {
        assert(probes.take(k + 1).drop_last() =~= probes.take(k));
        lemma_error_prefix(probes, k + 1);
    }
}

/// An import of each source file.
pub fn import_partials(files: &Vec<String>) -> (partials: Vec<String>)
    ensures
        partials.deep_view() == import_lines(files.deep_view()),
{
    let mut partials: Vec<String> = Vec::new();
    let mut i: usize = 0;
    while i < files.len()
        invariant
            i <= files.len(),
            partials.deep_view() =~= import_lines(files.deep_view()).take(i as int),
        decreases files.len() - i,
    {
        let mut line = String::from_str("(import \"");
        line.append(files[i].as_str());
        line.append("\")");
        let ghost before = partials.deep_view();
        partials.push(line);
        assert(partials.deep_view() =~= before.push(line@));
        i = i + 1;
    }
    partials
}

/// The main program text.
pub fn main_source(projection_json: &str, split_depth: u8, partials: &Vec<String>) -> (source: String)
    ensures
        source@ == main_source_text(projection_json@, split_depth, partials.deep_view()),
{
    let mut source = String::from_str("Comod.render ");
    source.append(projection_json);
    source.append(" ");
    source.append(decimal_text(split_depth as u128).as_str());
    source.append("\n[\n\t");
    source.append(join_texts(partials, ",\n\t").as_str());
    source.append("\n]");
    source
}

/// Where one rendered document is written.
#[derive(Debug)]
pub enum OutputTarget {
    Stdout,
    /// The file `base`/`segments`... with `leaf` applied to the last path.
    File { base: String, segments: Vec<String>, leaf: FileLeaf },
}

/// How the path of an output file ends.
#[derive(Debug)]
pub enum FileLeaf {
    /// One more component with this name.
    Named(String),
    /// The extension of the last component set to this.
    Extension(String),
}

/// The strings of a path array, in order, skipping its other items.
pub open spec fn present_segments(path: Seq<Option<String>>) -> Seq<Seq<char>>
    decreases path.len(),
{
    if path.len() == 0 {
        seq![]
    } else {
        let rest = present_segments(path.drop_last());
        match path.last() {
            Some(s) => rest.push(s@),
            None => rest,
        }
    }
}

/// Whether a "---" document separator follows the object `obj` of document `doc`:
/// every object but the last one of each output stream.
pub open spec fn separator_follows(standalone_out: bool, doc: int, doc_count: int, obj: int, obj_count: int) -> bool {
    !(obj == obj_count - 1 && (standalone_out || doc == doc_count - 1))
}

/// In each output stream a "---" separator follows every object but the last one:
/// a document with a file of its own, or the last document, ends without one, and
/// the objects of a document that shares its stream with later ones are all followed by one.
pub proof fn lemma_stream_separators(standalone_out: bool, doc: int, doc_count: int, obj_count: int)
    requires
        0 <= doc < doc_count,
        obj_count > 0,
    ensures
        forall|j: int|
            0 <= j < obj_count - 1 ==> #[trigger] separator_follows(
                standalone_out,
                doc,
                doc_count,
                j,
                obj_count,
            ),
        (standalone_out || doc == doc_count - 1) <==> !separator_follows(
            standalone_out,
            doc,
            doc_count,
            obj_count - 1,
            obj_count,
        ),
{
}

/// The name of the YAML export format of the configuration language, by its
/// `Display` impl (the contract states the text that the crate's source writes).
#[verifier::external_body]
fn yaml_format_name() -> (name: String)
    ensures
        name@ == seq!['y', 'a', 'm', 'l'],
{
    format!("{}", nickel_lang_core::serialize::ExportFormat::Yaml)
}

/// The strings of a path array.
fn path_segments(path: &Vec<Option<String>>) -> (segments: Vec<String>)
    ensures
        segments.deep_view() == present_segments(path@),
{
    let mut segments: Vec<String> = Vec::new();
    let mut i: usize = 0;
    while i < path.len()
        invariant
            i <= path.len(),
            segments.deep_view() == present_segments(path@.take(i as int)),
        decreases path.len() - i,
    {
        assert(path@.take(i + 1).drop_last() =~= path@.take(i as int));
        let ghost before = segments.deep_view();
        match &path[i] {
            Some(s) => {
                segments.push(s.clone());
                assert(segments.deep_view() =~= before.push(s@));
            },
            None => {},
        }
        i = i + 1;
    }
    assert(path@.take(path.len() as int) =~= path@);
    segments
}

impl RenderCommand {
    /// Whether the value arguments pair up.
    pub open spec fn values_pair_up(&self) -> bool {
        self.input.value.can_combine()
    }

    /// The main program that renders `sources` with this command's projection,
    /// split depth and value arguments; `None` when an object path among the value
    /// arguments has no value.
    pub fn program_source(&self, sources: &Vec<String>) -> (source: Option<String>)
        ensures
            match source {
                Some(s) => self.values_pair_up() && s@ == main_source_text(
                    json_string_list(self.projection.deep_view()),
                    self.split_depth,
                    self.input.value.combined(import_lines(sources.deep_view())),
                ),
                None => !self.values_pair_up(),
            },
    {
        if !(args_pair_up(&self.input.value.inputs) && args_pair_up(&self.input.value.fragments)) {
            return None;
        }
        let mut partials = import_partials(sources);
        let projection = json_list_text(&self.projection);
        let partials = self.input.value.combine(&mut partials);
        Some(main_source(projection.as_str(), self.split_depth, partials))
    }

    /// Where document `doc` of `doc_count` rendered documents goes, given its path
    /// array (`None` when the path is not an array): standard output when there is
    /// no output option and a single document, else a file under the output option
    /// (or the working directory) named by the path, completed by the standalone
    /// file name or the `yaml` extension.
    pub fn output_target(&self, doc_count: usize, path: &Option<Vec<Option<String>>>) -> (target: OutputTarget)
        requires
            !(self.output is None && doc_count == 1) ==> path is Some,
        ensures
            match target {
                OutputTarget::Stdout => self.output is None && doc_count == 1,
                OutputTarget::File { base, segments, leaf } => {
                    &&& !(self.output is None && doc_count == 1)
                    &&& base@ == match self.output {
                        Some(o) => o@,
                        None => seq!['.'],
                    }
                    &&& segments.deep_view() == present_segments(path->Some_0@)
                    &&& match self.standalone_file {
                        Some(name) => leaf matches FileLeaf::Named(n) && n@ == name@,
                        None => leaf matches FileLeaf::Extension(e) && e@ == seq!['y', 'a', 'm', 'l'],
                    }
                },
            },
    {
        if self.output.is_none() && doc_count == 1 {
            return OutputTarget::Stdout;
        }
        let base = match &self.output {
            Some(o) => o.clone(),
            None => {
                let dot = String::from_str(".");
                proof {
                    reveal_strlit(".");
                }
                dot
            },
        };
        let segments = match path {
            Some(p) => path_segments(p),
            None => Vec::new(),
        };
        let leaf = match &self.standalone_file {
            Some(name) => FileLeaf::Named(name.clone()),
            None => FileLeaf::Extension(yaml_format_name()),
        };
        OutputTarget::File { base, segments, leaf }
    }
}

/// Whether a "---" separator follows object `obj` of `obj_count` in document `doc`
/// of `doc_count`, where `standalone_out` tells whether the document has a file of its own.
pub fn separator_after(standalone_out: bool, doc: usize, doc_count: usize, obj: usize, obj_count: usize) -> (sep: bool)
    requires
        doc < doc_count,
        obj < obj_count,
    ensures
        sep == separator_follows(standalone_out, doc as int, doc_count as int, obj as int, obj_count as int),
{
    let is_last_out = doc_count - 1 == doc;
    let is_last_obj = obj_count - 1 == obj;
    let is_last = (standalone_out && is_last_obj) || (!standalone_out && is_last_out && is_last_obj);
    !is_last
}


/// Adding a partial source adds it to the main program's array, at the end: after
/// a `,` separator line when the array already held one, on its own otherwise.
pub proof fn lemma_main_source_appends(projection_json: Seq<char>, split_depth: u8, partials: Seq<Seq<char>>, next: Seq<char>)
    ensures
        exists|front: Seq<char>|
            #![trigger front.len()]
            main_source_text(projection_json, split_depth, partials) == front + "\n]"@
                && main_source_text(projection_json, split_depth, partials.push(next)) == front
                + (if partials.len() == 0 {
                Seq::<char>::empty()
            } else {
                ",\n\t"@
            }) + next + "\n]"@,
{
    let head = "Comod.render "@ + projection_json + " "@ + decimal(split_depth as nat)
        + "\n[\n\t"@;
    let front = head + joined(partials, ",\n\t"@);
    assert(partials.push(next).drop_last() =~= partials);
    if partials.len() == 0 {
        assert(joined(partials.push(next), ",\n\t"@) == next);
        assert(joined(partials, ",\n\t"@) == Seq::<char>::empty());
        assert(front =~= head);
        assert(main_source_text(projection_json, split_depth, partials.push(next)) =~= front + Seq::<
            char,
        >::empty() + next + "\n]"@);
    } else {
        assert(joined(partials.push(next), ",\n\t"@) == joined(partials, ",\n\t"@) + ",\n\t"@
            + next);
        assert(main_source_text(projection_json, split_depth, partials.push(next)) =~= front
            + ",\n\t"@ + next + "\n]"@);
    }
    assert(main_source_text(projection_json, split_depth, partials) == front + "\n]"@);
    assert(front.len() == front.len());
}

/// A directory entry is a source exactly when its file name is a non-empty stem
/// followed by `.ncl`, whatever dots the stem holds.
pub proof fn lemma_ncl_extension(name: Seq<char>)
    ensures
        has_ncl_extension(name) <==> exists|stem: Seq<char>|
            #![trigger stem.len()]
            stem.len() > 0 && name == stem + ".ncl"@,
{
    reveal_strlit(".ncl");
    if has_ncl_extension(name) {
        let stem = name.subrange(0, name.len() - 4);
        assert(name =~= stem + name.subrange(name.len() - 4, name.len() as int));
        assert(stem.len() > 0);
    }
    if exists|stem: Seq<char>| #![trigger stem.len()] stem.len() > 0 && name == stem + ".ncl"@ {
        let stem = choose|stem: Seq<char>| #![trigger stem.len()] stem.len() > 0 && name == stem + ".ncl"@;
        assert(name.len() > 4);
        assert(name.subrange(name.len() - 4, name.len() as int) =~= ".ncl"@);
    }
}

} // verus!
