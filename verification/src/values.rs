//! Turning `-i`/`-f` command-line value arguments into configuration source fragments.
//!
//! `-i k.apiserver image=X` becomes `({ k.apiserver = { input = { image | force = "X" } } })`
//! and `-f k.apiserver spec.replicas=3` becomes
//! `({ k.apiserver = { fragment = { spec.replicas | force = 3 } } })`.
use vstd::prelude::*;

use crate::pattern::{
    pattern_group, pattern_matches, regex_accepts, regex_group, ASSIGN_SYNTAX, IMPORT_FILE_VAL,
    NAIVE_COMPOUND, NUMBER, OBJECT_PATH, PARSE_DATA_VAL,
};
use crate::text::{escape_quotes, quote_escaped, same_text};

verus! {

/// Whether a value argument customizes an input (`-i`) or adds a fragment (`-f`).
#[derive(PartialEq, Eq, Structural, Clone, Copy, Debug)]
pub enum DefineType {
    InputValue,
    Fragment,
}

/// Whether a value is written as a plain literal (and is forced)
/// or as a composite expression.
#[derive(PartialEq, Eq, Structural, Clone, Copy, Debug)]
pub enum SiloValueType {
    Primitive,
    Composite,
}

/// The `-i` and `-f` arguments, each a flat list of object paths and values.
#[derive(Debug)]
pub struct ValueOptions {
    pub inputs: Vec<String>,
    pub fragments: Vec<String>,
}

/// Something that adds configuration source fragments to a list.
pub trait ValueCombiner {
    /// Whether `combine` can run on this value.
    spec fn can_combine(&self) -> bool;

    /// The list after `combine` has run on `partials`.
    spec fn combined(&self, partials: Seq<Seq<char>>) -> Seq<Seq<char>>;

    fn combine<'a>(&'a self, partials: &'a mut Vec<String>) -> (out: &'a mut Vec<String>)
        requires
            self.can_combine(),
        ensures
            out.deep_view() == self.combined(old(partials).deep_view()),
            *final(partials) == *final(out),
    ;
}

/// Pairs the arguments two by two, in order.
pub open spec fn chunk_pairs(args: Seq<Seq<char>>) -> Seq<(Seq<char>, Seq<char>)> {
    Seq::new(args.len() / 2, |i: int| (args[2 * i], args[2 * i + 1]))
}

/// The texts of `pairs`, each pair giving its two texts in order.
pub open spec fn flatten_pairs(pairs: Seq<(Seq<char>, Seq<char>)>) -> Seq<Seq<char>>
    decreases pairs.len(),
{
    if pairs.len() == 0 {
        seq![]
    } else {
        flatten_pairs(pairs.drop_last()) + seq![pairs.last().0, pairs.last().1]
    }
}

/// Reads the arguments as (object path, value) pairs, given which arguments are
/// object paths: an object path takes the next argument as its value; any other
/// argument is a value with an empty path. `None` where an object path is the last
/// argument.
pub open spec fn pairs_by_flags(args: Seq<Seq<char>>, is_path: Seq<bool>) -> Option<
    Seq<(Seq<char>, Seq<char>)>,
>
    decreases args.len(),
{
    if args.len() == 0 {
        Some(seq![])
    } else if is_path[0] {
        if args.len() < 2 {
            None
        } else {
            match pairs_by_flags(args.skip(2), is_path.skip(2)) {
                Some(rest) => Some(seq![(args[0], args[1])] + rest),
                None => None,
            }
        }
    } else {
        match pairs_by_flags(args.skip(1), is_path.skip(1)) {
            Some(rest) => Some(seq![(Seq::<char>::empty(), args[0])] + rest),
            None => None,
        }
    }
}

/// Which arguments are object paths.
pub open spec fn object_path_flags(args: Seq<Seq<char>>) -> Seq<bool> {
    args.map_values(|a: Seq<char>| regex_accepts(OBJECT_PATH@, a))
}

/// Reads the arguments as (object path, value) pairs. `None` where an object path
/// is the last argument.
pub open spec fn path_value_pairs(args: Seq<Seq<char>>) -> Option<Seq<(Seq<char>, Seq<char>)>> {
    pairs_by_flags(args, object_path_flags(args))
}

/// The record field under which a value is defined.
pub open spec fn define_hint(typ: DefineType) -> Seq<char> {
    match typ {
        DefineType::Fragment => "fragment"@,
        DefineType::InputValue => "input"@,
    }
}

/// An import of `file`.
pub open spec fn import_code(file: Seq<char>) -> Seq<char> {
    "import \""@ + file + "\""@
}

/// The standard-library call that reads data in `format`.
pub open spec fn deserializer(format: Seq<char>) -> Seq<char> {
    if format == "json"@ {
        "std.deserialize 'Json"@
    } else if format == "yaml"@ {
        "std.deserialize 'Yaml"@
    } else {
        ""@
    }
}

/// The lower-case form that `str::to_lowercase` gives of `text`.
pub uninterp spec fn lower_case(text: Seq<char>) -> Seq<char>;

/// What the regular expressions say about the value on the right of `key=value`.
pub struct ValueMatchesView {
    pub number: bool,
    pub compound: bool,
    pub import_file: Option<Seq<char>>,
    pub data: Option<(Seq<char>, Seq<char>)>,
}

/// What the regular expressions say about a value: whether it is a number,
/// whether it looks like a compound expression, the file of `@file`, and the
/// lower-cased format and the content of `'format:content`.
#[derive(Debug)]
pub struct ValueMatches {
    pub number: bool,
    pub compound: bool,
    pub import_file: Option<String>,
    pub data: Option<(String, String)>,
}

impl View for ValueMatches {
    type V = ValueMatchesView;

    open spec fn view(&self) -> ValueMatchesView {
        ValueMatchesView {
            number: self.number,
            compound: self.compound,
            import_file: match self.import_file {
                Some(f) => Some(f@),
                None => None,
            },
            data: match self.data {
                Some((f, c)) => Some((f@, c@)),
                None => None,
            },
        }
    }
}

/// What the regular expressions say about `v`.
pub open spec fn value_matches_of(v: Seq<char>) -> ValueMatchesView {
    ValueMatchesView {
        number: regex_accepts(NUMBER@, v),
        compound: regex_accepts(NAIVE_COMPOUND@, v),
        import_file: regex_group(IMPORT_FILE_VAL@, v, "file"@),
        data: match (regex_group(PARSE_DATA_VAL@, v, "format"@), regex_group(PARSE_DATA_VAL@, v, "content"@)) {
            (Some(format), Some(content)) => Some((lower_case(format), content)),
            _ => None,
        },
    }
}

/// What the value on the right of `key=value` becomes, given what the regular
/// expressions say about it: `true`, `false`, `null` and numbers stay as they are;
/// records, arrays, parenthesized expressions and string literals are kept as
/// expressions; `@file` imports the file; `'json:...` and `'yaml:...` deserialize
/// the data; anything else becomes a string literal.
pub open spec fn classified_given(v: Seq<char>, m: ValueMatchesView) -> (SiloValueType, Seq<char>) {
    if v == "true"@ || v == "false"@ || v == "null"@ {
        (SiloValueType::Primitive, v)
    } else if m.number {
        (SiloValueType::Primitive, v)
    } else if m.compound {
        (SiloValueType::Composite, v)
    } else {
        match m.import_file {
            Some(file) => (SiloValueType::Composite, import_code(file)),
            None => match m.data {
                Some((format, content)) => (
                    SiloValueType::Composite,
                    deserializer(format) + " m%\""@ + content + "\"%"@,
                ),
                None => (SiloValueType::Primitive, "\""@ + quote_escaped(v) + "\""@),
            },
        }
    }
}

/// What the value on the right of `key=value` becomes.
pub open spec fn classified_value(v: Seq<char>) -> (SiloValueType, Seq<char>) {
    classified_given(v, value_matches_of(v))
}

/// The record that assigns `value` to the field path `key`; a plain value is forced.
pub open spec fn assignment_code(key: Seq<char>, value: (SiloValueType, Seq<char>)) -> Seq<char> {
    match value.0 {
        SiloValueType::Primitive => "{ "@ + key + " | force = "@ + value.1 + " }"@,
        SiloValueType::Composite => "{ "@ + key + " = "@ + value.1 + " }"@,
    }
}

/// The source for one value argument, given the assignment record it is (if it is
/// `key=value`) and the file it names (if it is `@file`): the assignment, else an
/// import of the file, else the value as it is.
pub open spec fn source_given(value: Seq<char>, assignment: Option<Seq<char>>, import_file: Option<Seq<char>>) -> Seq<char> {
    match assignment {
        Some(code) => code,
        None => match import_file {
            Some(file) => import_code(file),
            None => value,
        },
    }
}

/// The assignment record that `value` is, if it is `key=value`.
pub open spec fn assignment_of(value: Seq<char>) -> Option<Seq<char>> {
    match (regex_group(ASSIGN_SYNTAX@, value, "key"@), regex_group(ASSIGN_SYNTAX@, value, "val"@)) {
        (Some(key), Some(val)) => Some(assignment_code(key, classified_value(val))),
        _ => None,
    }
}

/// The source for one value argument: `key=value` becomes an assignment record,
/// `@file` an import, and anything else is taken as source as it is.
pub open spec fn value_source(value: Seq<char>) -> Seq<char> {
    source_given(value, assignment_of(value), regex_group(IMPORT_FILE_VAL@, value, "file"@))
}

/// The fragment that puts `source` under `input` or `fragment`, nested under the
/// object path when there is one.
pub open spec fn fragment_code(path: Seq<char>, typ: DefineType, source: Seq<char>) -> Seq<char> {
    let code_val = "{ "@ + define_hint(typ) + " = "@ + source + " }"@;
    if path.len() == 0 {
        "("@ + code_val + ")"@
    } else {
        "({ "@ + path + " = "@ + code_val + " })"@
    }
}

/// The fragment for one (object path, value) pair.
pub open spec fn value_code(path: Seq<char>, value: Seq<char>, typ: DefineType) -> Seq<char> {
    fragment_code(path, typ, value_source(value))
}

/// The fragments for the given pairs, in order.
pub open spec fn pair_codes(pairs: Seq<(Seq<char>, Seq<char>)>, typ: DefineType) -> Seq<
    Seq<char>,
> {
    pairs.map_values(|p: (Seq<char>, Seq<char>)| value_code(p.0, p.1, typ))
}

/// The fragments for a list of value arguments (given that they pair up).
pub open spec fn arg_codes(args: Seq<Seq<char>>, typ: DefineType) -> Seq<Seq<char>> {
    pair_codes(path_value_pairs(args).unwrap(), typ)
}

/// How a pair is written back as arguments: its path (unless empty), then its value.
pub open spec fn pair_args(pair: (Seq<char>, Seq<char>)) -> Seq<Seq<char>> {
    if pair.0.len() == 0 {
        seq![pair.1]
    } else {
        seq![pair.0, pair.1]
    }
}

/// The arguments that the pairs stand for, in order.
pub open spec fn rejoined_args(pairs: Seq<(Seq<char>, Seq<char>)>) -> Seq<Seq<char>>
    decreases pairs.len(),
{
    if pairs.len() == 0 {
        seq![]
    } else {
        pair_args(pairs[0]) + rejoined_args(pairs.drop_first())
    }
}

/// Pairing two by two loses no argument: flattening the pairs gives the
/// arguments back, in order.
pub proof fn lemma_chunk_pairs_flatten(args: Seq<Seq<char>>)
    requires
        args.len() % 2 == 0,
    ensures
        flatten_pairs(chunk_pairs(args)) == args,
    decreases args.len(),
{
    if args.len() == 0 {
        assert(chunk_pairs(args) =~= Seq::<(Seq<char>, Seq<char>)>::empty());
    } else {
        let init = args.take(args.len() - 2);
        lemma_chunk_pairs_flatten(init);
        assert(chunk_pairs(args).drop_last() =~= chunk_pairs(init));
        assert(args =~= init + seq![args[args.len() - 2], args[args.len() - 1]]);
    }
}

/// Pairing by flags loses no argument (where no argument is empty).
proof fn lemma_pairs_by_flags_rejoin(args: Seq<Seq<char>>, is_path: Seq<bool>)
    requires
        is_path.len() == args.len(),
        pairs_by_flags(args, is_path) is Some,
        forall|i: int| 0 <= i < args.len() ==> #[trigger] args[i].len() > 0,
    ensures
        rejoined_args(pairs_by_flags(args, is_path).unwrap()) == args,
    decreases args.len(),
{
    if args.len() > 0 {
        let pairs = pairs_by_flags(args, is_path).unwrap();
        let k: int = if is_path[0] { 2 } else { 1 };
        let rest = args.skip(k);
        assert forall|i: int| 0 <= i < rest.len() implies #[trigger] rest[i].len() > 0 by {
            assert(rest[i] == args[i + k]);
        }
        lemma_pairs_by_flags_rejoin(rest, is_path.skip(k));
        assert(pairs.drop_first() =~= pairs_by_flags(rest, is_path.skip(k)).unwrap());
        assert(args[0].len() > 0);
        assert(pair_args(pairs[0]) =~= args.take(k));
        assert(args =~= args.take(k) + rest);
    }
}

/// Reading (object path, value) pairs loses no argument: writing each pair back as
/// its path and value gives the arguments, in order (where no argument is empty,
/// since an empty object path is written back as nothing).
pub proof fn lemma_path_value_pairs_rejoin(args: Seq<Seq<char>>)
    requires
        path_value_pairs(args) is Some,
        forall|i: int| 0 <= i < args.len() ==> #[trigger] args[i].len() > 0,
    ensures
        rejoined_args(path_value_pairs(args).unwrap()) == args,
{
    lemma_pairs_by_flags_rejoin(args, object_path_flags(args));
}

/// Pairs the arguments two by two.
pub fn convert_to_tuple_array(args: &Vec<String>) -> (pairs: Vec<(String, String)>)
    requires
        args.len() % 2 == 0,
    ensures
        pairs.deep_view() == chunk_pairs(args.deep_view()),
{
    let ghost views = args.deep_view();
    let mut pairs: Vec<(String, String)> = Vec::new();
    let mut i: usize = 0;
    while i < args.len() / 2
        invariant
            views == args.deep_view(),
            args.len() % 2 == 0,
            i <= args.len() / 2,
            pairs.deep_view() =~= chunk_pairs(views).take(i as int),
        decreases args.len() / 2 - i,
    {
        let ghost before = pairs.deep_view();
        let pair = (args[2 * i].clone(), args[2 * i + 1].clone());
        assert(views[2 * i] == args@[2 * i]@ && views[2 * i + 1] == args@[2 * i + 1]@);
        pairs.push(pair);
        assert(pairs.deep_view() =~= before.push((views[2 * i], views[2 * i + 1])));
        assert(pairs.deep_view() =~= chunk_pairs(views).take(i + 1));
        i = i + 1;
    }
    assert(chunk_pairs(views).take(i as int) =~= chunk_pairs(views));
    pairs
}

/// Reads the arguments as (object path, value) pairs, given which arguments are
/// object paths; `None` where an object path is the last argument.
pub fn pair_by_flags(args: &Vec<String>, is_path: &Vec<bool>) -> (pairs: Option<Vec<(String, String)>>)
    requires
        is_path.len() == args.len(),
    ensures
        match pairs {
            Some(p) => pairs_by_flags(args.deep_view(), is_path@) == Some(p.deep_view()),
            None => pairs_by_flags(args.deep_view(), is_path@) is None,
        },
{
    let ghost views = args.deep_view();
    let ghost flags = is_path@;
    let mut pairs: Vec<(String, String)> = Vec::new();
    let mut i: usize = 0;
    assert(views.skip(0) =~= views);
    assert(flags.skip(0) =~= flags);
    while i < args.len()
        invariant
            views == args.deep_view(),
            flags == is_path@,
            flags.len() == views.len(),
            i <= args.len(),
            pairs_by_flags(views.skip(i as int), flags.skip(i as int)) is Some
                == pairs_by_flags(views, flags) is Some,
            pairs_by_flags(views.skip(i as int), flags.skip(i as int)) is Some ==> pairs.deep_view()
                + pairs_by_flags(views.skip(i as int), flags.skip(i as int)).unwrap()
                == pairs_by_flags(views, flags).unwrap(),
        decreases args.len() - i,
    {
        let ghost rest = views.skip(i as int);
        let ghost rest_flags = flags.skip(i as int);
        let ghost before = pairs.deep_view();
        assert(rest[0] == views[i as int]);
        assert(rest_flags[0] == flags[i as int]);
        let s = &args[i];
        if is_path[i] {
            if i + 1 >= args.len() {
                return None;
            }
            assert(rest.skip(2) =~= views.skip(i + 2));
            assert(rest_flags.skip(2) =~= flags.skip(i + 2));
            let pair = (s.clone(), args[i + 1].clone());
            pairs.push(pair);
            assert(pairs.deep_view() =~= before.push((views[i as int], views[i + 1])));
            proof {
                let next = pairs_by_flags(views.skip(i + 2), flags.skip(i + 2));
                if next is Some {
                    assert(pairs.deep_view() + next.unwrap() =~= before + pairs_by_flags(
                        rest,
                        rest_flags,
                    ).unwrap());
                }
            }
            i = i + 2;
        } else {
            assert(rest.skip(1) =~= views.skip(i + 1));
            assert(rest_flags.skip(1) =~= flags.skip(i + 1));
            let pair = (String::new(), s.clone());
            pairs.push(pair);
            assert(pairs.deep_view() =~= before.push((Seq::<char>::empty(), views[i as int])));
            proof {
                let next = pairs_by_flags(views.skip(i + 1), flags.skip(i + 1));
                if next is Some {
                    assert(pairs.deep_view() + next.unwrap() =~= before + pairs_by_flags(
                        rest,
                        rest_flags,
                    ).unwrap());
                }
            }
            i = i + 1;
        }
    }
    assert(views.skip(i as int) =~= Seq::<Seq<char>>::empty());
    assert(pairs.deep_view() + Seq::<(Seq<char>, Seq<char>)>::empty() =~= pairs.deep_view());
    Some(pairs)
}

/// Which arguments are object paths.
fn object_paths(args: &Vec<String>) -> (is_path: Vec<bool>)
    ensures
        is_path@ == object_path_flags(args.deep_view()),
{
    let mut is_path: Vec<bool> = Vec::new();
    let mut i: usize = 0;
    while i < args.len()
        invariant
            i <= args.len(),
            is_path@ =~= object_path_flags(args.deep_view()).take(i as int),
        decreases args.len() - i,
    {
        is_path.push(pattern_matches(OBJECT_PATH, args[i].as_str()));
        i = i + 1;
    }
    is_path
}

/// Reads the arguments as (object path, value) pairs: an argument that is an object
/// path takes the next argument as its value; any other argument is a value with an
/// empty path.
pub fn parse_args_to_tuples(args: &Vec<String>) -> (pairs: Vec<(String, String)>)
    requires
        path_value_pairs(args.deep_view()) is Some,
    ensures
        pairs.deep_view() == path_value_pairs(args.deep_view()).unwrap(),
{
    let is_path = object_paths(args);
    pair_by_flags(args, &is_path).unwrap()
}

/// Whether the arguments pair up, i.e. no object path is left without its value.
pub fn args_pair_up(args: &Vec<String>) -> (ok: bool)
    ensures
        ok == path_value_pairs(args.deep_view()) is Some,
{
    let is_path = object_paths(args);
    pair_by_flags(args, &is_path).is_some()
}

/// Reads the arguments as (object path, value) pairs; `None` where an object path is
/// the last argument and has no value.
pub fn try_parse_args_to_tuples(args: &Vec<String>) -> (pairs: Option<Vec<(String, String)>>)
    ensures
        match pairs {
            Some(p) => path_value_pairs(args.deep_view()) == Some(p.deep_view()),
            None => path_value_pairs(args.deep_view()) is None,
        },
{
    let is_path = object_paths(args);
    pair_by_flags(args, &is_path)
}

/// The lower-case form of `text`, by `str::to_lowercase`.
#[verifier::external_body]
fn to_lower(text: &str) -> (lower: String)
    ensures
        lower@ == lower_case(text@),
{
    text.to_lowercase()
}

/// `import "<file>"`.
fn import_text(file: &str) -> (code: String)
    ensures
        code@ == import_code(file@),
{
    let mut code = String::from_str("import \"");
    code.append(file);
    code.append("\"");
    code
}

/// What the regular expressions say about `v`.
fn value_matches(v: &str) -> (m: ValueMatches)
    ensures
        m@ == value_matches_of(v@),
{
    let number = pattern_matches(NUMBER, v);
    let compound = pattern_matches(NAIVE_COMPOUND, v);
    let import_file = pattern_group(IMPORT_FILE_VAL, v, "file");
    let format = pattern_group(PARSE_DATA_VAL, v, "format");
    let content = pattern_group(PARSE_DATA_VAL, v, "content");
    let data = match (format, content) {
        (Some(format), Some(content)) => Some((to_lower(format.as_str()), content)),
        _ => None,
    };
    ValueMatches { number, compound, import_file, data }
}

/// Classifies the right-hand side of an assignment and gives its source, given
/// what the regular expressions say about it.
pub fn classify_given(v: &str, m: &ValueMatches) -> (classified: (SiloValueType, String))
    ensures
        (classified.0, classified.1@) == classified_given(v@, m@),
{
    if same_text(v, "true") || same_text(v, "false") || same_text(v, "null") {
        return (SiloValueType::Primitive, String::from_str(v));
    }
    if m.number {
        return (SiloValueType::Primitive, String::from_str(v));
    }
    if m.compound {
        return (SiloValueType::Composite, String::from_str(v));
    }
    match &m.import_file {
        Some(file) => (SiloValueType::Composite, import_text(file.as_str())),
        None => match &m.data {
            Some((format, content)) => {
                let mut code = if same_text(format.as_str(), "json") {
                    String::from_str("std.deserialize 'Json")
                } else if same_text(format.as_str(), "yaml") {
                    String::from_str("std.deserialize 'Yaml")
                } else {
                    String::from_str("")
                };
                code.append(" m%\"");
                code.append(content.as_str());
                code.append("\"%");
                (SiloValueType::Composite, code)
            },
            None => {
                let mut code = String::from_str("\"");
                code.append(escape_quotes(v).as_str());
                code.append("\"");
                (SiloValueType::Primitive, code)
            },
        },
    }
}

/// The record that assigns the classified value `val` to the field path `key`.
pub fn assignment_text(key: &str, kind: SiloValueType, val: &str) -> (code: String)
    ensures
        code@ == assignment_code(key@, (kind, val@)),
{
    let mut code = String::from_str("{ ");
    code.append(key);
    match kind {
        SiloValueType::Primitive => code.append(" | force = "),
        SiloValueType::Composite => code.append(" = "),
    }
    code.append(val);
    code.append(" }");
    code
}

/// The source for one value argument, given its assignment record (if it is
/// `key=value`) and the file it names (if it is `@file`).
pub fn source_given_text(value: &str, assignment: Option<String>, import_file: Option<String>) -> (source: String)
    ensures
        source@ == source_given(
            value@,
            match assignment {
                Some(a) => Some(a@),
                None => None,
            },
            match import_file {
                Some(f) => Some(f@),
                None => None,
            },
        ),
{
    match assignment {
        Some(code) => code,
        None => match import_file {
            Some(file) => import_text(file.as_str()),
            None => String::from_str(value),
        },
    }
}

/// The source for one value argument.
fn source_of(value: &str) -> (source: String)
    ensures
        source@ == value_source(value@),
{
    let key = pattern_group(ASSIGN_SYNTAX, value, "key");
    let val = pattern_group(ASSIGN_SYNTAX, value, "val");
    let assignment = match (key, val) {
        (Some(key), Some(val)) => {
            let (kind, val) = classify_given(val.as_str(), &value_matches(val.as_str()));
            Some(assignment_text(key.as_str(), kind, val.as_str()))
        },
        _ => None,
    };
    let import_file = pattern_group(IMPORT_FILE_VAL, value, "file");
    source_given_text(value, assignment, import_file)
}

/// The fragment that puts `source` under `input` or `fragment`, nested under the
/// object path when there is one.
pub fn fragment_text(path: &str, typ: &DefineType, source: &str) -> (code: String)
    ensures
        code@ == fragment_code(path@, *typ, source@),
{
    let mut code_val = String::from_str("{ ");
    match typ {
        DefineType::Fragment => code_val.append("fragment"),
        DefineType::InputValue => code_val.append("input"),
    }
    code_val.append(" = ");
    code_val.append(source);
    code_val.append(" }");
    if path.unicode_len() == 0 {
        let mut code = String::from_str("(");
        code.append(code_val.as_str());
        code.append(")");
        code
    } else {
        let mut code = String::from_str("({ ");
        code.append(path);
        code.append(" = ");
        code.append(code_val.as_str());
        code.append(" })");
        code
    }
}

/// The fragment for one (object path, value) pair.
fn code_of(path: &str, value: &str, typ: &DefineType) -> (code: String)
    ensures
        code@ == value_code(path@, value@, *typ),
{
    fragment_text(path, typ, source_of(value).as_str())
}

impl ValueOptions {
    /// Appends to `partials` one fragment per (object path, value) pair of `args`.
    pub fn gen_code<'a>(args: &Vec<String>, typ: &DefineType, partials: &'a mut Vec<String>) -> (out: &'a mut Vec<String>)
        requires
            path_value_pairs(args.deep_view()) is Some,
        ensures
            out.deep_view() == old(partials).deep_view() + arg_codes(
                args.deep_view(),
                *typ,
            ),
            *final(partials) == *final(out),
    {
        if args.len() == 0 {
            assert(arg_codes(args.deep_view(), *typ) =~= Seq::<Seq<char>>::empty());
            assert(partials.deep_view() + Seq::<Seq<char>>::empty() =~= partials.deep_view());
            return partials;
        }
        let pairs = parse_args_to_tuples(args);
        let ghost start = partials.deep_view();
        let ghost codes = arg_codes(args.deep_view(), *typ);
        let mut i: usize = 0;
        while i < pairs.len()
            invariant
                pairs.deep_view() == path_value_pairs(args.deep_view()).unwrap(),
                codes == pair_codes(pairs.deep_view(), *typ),
                codes.len() == pairs.len(),
                i <= pairs.len(),
                partials.deep_view() =~= start + codes.take(i as int),
            decreases pairs.len() - i,
        {
            let code = code_of(pairs[i].0.as_str(), pairs[i].1.as_str(), typ);
            assert(pairs.deep_view()[i as int] == (pairs[i as int].0@, pairs[i as int].1@));
            let ghost before = partials.deep_view();
            partials.push(code);
            assert(partials.deep_view() =~= before.push(codes[i as int]));
            assert(codes.take(i + 1) =~= codes.take(i as int).push(codes[i as int]));
            i = i + 1;
        }
        assert(codes.take(i as int) =~= codes);
        partials
    }
}

impl ValueCombiner for ValueOptions {
    open spec fn can_combine(&self) -> bool {
        &&& path_value_pairs(self.inputs.deep_view()) is Some
        &&& path_value_pairs(self.fragments.deep_view()) is Some
    }

    /// Input fragments come first, then object fragments, after what was there.
    open spec fn combined(&self, partials: Seq<Seq<char>>) -> Seq<Seq<char>> {
        partials + arg_codes(self.inputs.deep_view(), DefineType::InputValue) + arg_codes(
            self.fragments.deep_view(),
            DefineType::Fragment,
        )
    }

    fn combine<'a>(&'a self, partials: &'a mut Vec<String>) -> (out: &'a mut Vec<String>) {
        let partials = Self::gen_code(&self.inputs, &DefineType::InputValue, partials);
        let partials = Self::gen_code(&self.fragments, &DefineType::Fragment, partials);
        return partials;
    }
}


/// The literals `true`, `false` and `null` are written as they are, unquoted, as
/// plain values, whatever the regular expressions say about them.
pub proof fn lemma_literals_stay_literals(v: Seq<char>, m: ValueMatchesView)
    requires
        v == "true"@ || v == "false"@ || v == "null"@,
    ensures
        classified_given(v, m) == (SiloValueType::Primitive, v),
        classified_value(v) == (SiloValueType::Primitive, v),
{
}

/// A fragment under a non-empty object path is the unnested fragment's record
/// nested under that path: the path follows the opening `({ `, and the record that
/// the empty path puts in parentheses follows ` = `.
pub proof fn lemma_fragment_nesting(path: Seq<char>, typ: DefineType, source: Seq<char>)
    ensures
        exists|record: Seq<char>|
            #![trigger record.len()]
            fragment_code(Seq::<char>::empty(), typ, source) == "("@ + record + ")"@ && (path.len()
                > 0 ==> fragment_code(path, typ, source) == "({ "@ + path + " = "@ + record
                + " })"@),
        path.len() > 0 ==> fragment_code(path, typ, source).subrange(3, 3 + path.len() as int) == path,
{
    let record = "{ "@ + define_hint(typ) + " = "@ + source + " }"@;
    assert(fragment_code(Seq::<char>::empty(), typ, source) == "("@ + record + ")"@);
    assert(record.len() == record.len());
    if path.len() > 0 {
        reveal_strlit("({ ");
        let code = fragment_code(path, typ, source);
        assert(code == "({ "@ + path + " = "@ + record + " })"@);
        assert(code =~= "({ "@ + (path + (" = "@ + record + " })"@)));
        assert(code.subrange(3, 3 + path.len() as int) =~= path);
    }
}

/// `combine` keeps the fragments it is given, then adds one fragment per
/// (object path, value) pair of the inputs, under `input`, then one per pair of the
/// fragment arguments, under `fragment`, in order; nothing else.
pub proof fn lemma_combine_one_fragment_per_pair(options: ValueOptions, partials: Seq<Seq<char>>)
    requires
        options.can_combine(),
    ensures
        ({
            let ins = path_value_pairs(options.inputs.deep_view()).unwrap();
            let frags = path_value_pairs(options.fragments.deep_view()).unwrap();
            let out = options.combined(partials);
            &&& out.len() == partials.len() + ins.len() + frags.len()
            &&& forall|i: int| 0 <= i < partials.len() ==> #[trigger] out[i] == partials[i]
            &&& forall|i: int|
                0 <= i < ins.len() ==> #[trigger] out[partials.len() + i] == value_code(
                    ins[i].0,
                    ins[i].1,
                    DefineType::InputValue,
                )
            &&& forall|j: int|
                0 <= j < frags.len() ==> #[trigger] out[partials.len() + ins.len() + j]
                    == value_code(frags[j].0, frags[j].1, DefineType::Fragment)
        }),
{
    let ins = path_value_pairs(options.inputs.deep_view()).unwrap();
    let frags = path_value_pairs(options.fragments.deep_view()).unwrap();
    let out = options.combined(partials);
    assert(out == partials + pair_codes(ins, DefineType::InputValue) + pair_codes(
        frags,
        DefineType::Fragment,
    ));
    assert forall|i: int| 0 <= i < ins.len() implies #[trigger] out[partials.len() + i]
        == value_code(ins[i].0, ins[i].1, DefineType::InputValue) by {
        assert(pair_codes(ins, DefineType::InputValue)[i] == value_code(
            ins[i].0,
            ins[i].1,
            DefineType::InputValue,
        ));
    }
    assert forall|j: int| 0 <= j < frags.len() implies #[trigger] out[partials.len() + ins.len()
        + j] == value_code(frags[j].0, frags[j].1, DefineType::Fragment) by {
        assert(pair_codes(frags, DefineType::Fragment)[j] == value_code(
            frags[j].0,
            frags[j].1,
            DefineType::Fragment,
        ));
    }
}

} // verus!
