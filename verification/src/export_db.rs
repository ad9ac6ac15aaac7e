use vstd::prelude::*;
use crate::text::{to_chars, from_chars, str_eq};

verus! {

/// What to export: the source database, the output file, whether embeddings
/// go along, and whether the output is compressed.
#[derive(Debug)]
pub struct ExportDbArgs {
    pub source: String,
    pub output: String,
    pub include_embeddings: bool,
    pub compress: bool,
}

/// Why an export cannot start.
#[derive(Debug)]
pub enum ExportRefusal {
    SourceNotFound(String),
    OutputExists(String),
    OutputDirMissing(String),
}

/// The paths an export would touch, and which of them exist.
pub struct ExportPaths {
    pub source_exists: bool,
    pub output_exists: bool,
    /// The compressed output file, when compressing, and whether it exists.
    pub compressed: Option<(String, bool)>,
    /// The output's directory, when it has one, and whether it exists.
    pub parent: Option<(String, bool)>,
}

/// The file that `zstd` writes for an output path: the same name with
/// `.zst` appended.
pub fn compressed_output_path(output: &str) -> (r: String)
    ensures
        r@ == output@ + ".zst"@,
{
    let mut v = to_chars(output);
    crate::text::extend_str(&mut v, ".zst");
    from_chars(v.as_slice())
}

/// A path that is given and exists.
pub open spec fn present(p: Option<(String, bool)>) -> bool {
    match p {
        Some((_, exists)) => exists,
        None => false,
    }
}

pub open spec fn path_of(p: Option<(String, bool)>) -> Seq<char> {
    match p {
        Some((path, _)) => path@,
        None => Seq::empty(),
    }
}

/// The checks before an export, in order: the source must exist, the output
/// (and its compressed form) must not, and the output's directory must.
pub open spec fn export_refusal(args: ExportDbArgs, paths: ExportPaths) -> Option<(nat, Seq<char>)> {
    if !paths.source_exists {
        Some((0, args.source@))
    } else if paths.output_exists {
        Some((1, args.output@))
    } else if args.compress && present(paths.compressed) {
        Some((1, path_of(paths.compressed)))
    } else if paths.parent is Some && !present(paths.parent) {
        Some((2, path_of(paths.parent)))
    } else {
        None
    }
}

pub open spec fn refusal_view(r: ExportRefusal) -> (nat, Seq<char>) {
    match r {
        ExportRefusal::SourceNotFound(p) => (0, p@),
        ExportRefusal::OutputExists(p) => (1, p@),
        ExportRefusal::OutputDirMissing(p) => (2, p@),
    }
}

fn owned(s: &String) -> (r: String)
    ensures
        r@ == s@,
{
    let v = to_chars(s.as_str());
    from_chars(v.as_slice())
}

/// Decides whether an export may start.
pub fn check_export(args: &ExportDbArgs, paths: &ExportPaths) -> (r: Result<(), ExportRefusal>)
    ensures
        match r {
            Ok(()) => export_refusal(*args, *paths) is None,
            Err(e) => export_refusal(*args, *paths) == Some(refusal_view(e)),
        },
{
    if !paths.source_exists {
        return Err(ExportRefusal::SourceNotFound(owned(&args.source)));
    }
    if paths.output_exists {
        return Err(ExportRefusal::OutputExists(owned(&args.output)));
    }
    if args.compress {
        if let Some((path, exists)) = &paths.compressed {
            if *exists {
                return Err(ExportRefusal::OutputExists(owned(path)));
            }
        }
    }
    if let Some((dir, exists)) = &paths.parent {
        if !*exists {
            return Err(ExportRefusal::OutputDirMissing(owned(dir)));
        }
    }
    Ok(())
}

/// The embedding columns copied for a row: as stored when embeddings are
/// included, else none and an empty model name.
pub fn exported_embedding(include_embeddings: bool, embedding: Option<Vec<u8>>, embedding_model: String) -> (r: (
    Option<Vec<u8>>,
    String,
))
    ensures
        include_embeddings ==> r.0 == embedding && r.1@ == embedding_model@,
        !include_embeddings ==> r.0 is None && r.1@ == Seq::<char>::empty(),
{
    if include_embeddings {
        (embedding, embedding_model)
    } else {
        let e: Vec<char> = Vec::new();
        (None, from_chars(e.as_slice()))
    }
}


// ---------------------------------------------------------------------
// The command line of an export
// ---------------------------------------------------------------------

/// Why the arguments of an export were refused.
#[derive(Debug)]
pub enum ExportArgError {
    /// A flag that takes a path came last.
    MissingValue(String),
    /// An argument that is no flag of the command.
    UnknownArgument(String),
    MissingSource,
    MissingOutput,
}

/// What the flags read so far set: source, output, embeddings, compression.
pub type ExportFlags = (Option<Seq<char>>, Option<Seq<char>>, bool, bool);

/// The issue an argument list is refused for, as a number and a text: a
/// flag without its value (0), or an unknown argument (1).
pub open spec fn scan_export_args(args: Seq<Seq<char>>, st: ExportFlags) -> Result<ExportFlags, (nat, Seq<char>)>
    decreases args.len(),
{
    if args.len() == 0 {
        Ok(st)
    } else if args[0] == "--source"@ || args[0] == "--output"@ {
        if args.len() < 2 {
            Err((0, args[0]))
        } else if args[0] == "--source"@ {
            scan_export_args(args.skip(2), (Some(args[1]), st.1, st.2, st.3))
        } else {
            scan_export_args(args.skip(2), (st.0, Some(args[1]), st.2, st.3))
        }
    } else if args[0] == "--include-embeddings"@ {
        scan_export_args(args.skip(1), (st.0, st.1, true, st.3))
    } else if args[0] == "--compress"@ {
        scan_export_args(args.skip(1), (st.0, st.1, st.2, true))
    } else {
        Err((1, args[0]))
    }
}

pub open spec fn export_arg_error_view(e: ExportArgError) -> (nat, Seq<char>) {
    match e {
        ExportArgError::MissingValue(f) => (0, f@),
        ExportArgError::UnknownArgument(a) => (1, a@),
        ExportArgError::MissingSource => (2, Seq::empty()),
        ExportArgError::MissingOutput => (3, Seq::empty()),
    }
}

/// The outcome of reading the arguments that follow `export-db`: the first
/// refused argument, else a missing source, else a missing output, else the
/// export they describe (a repeated flag keeps its last value).
pub open spec fn export_args_outcome(args: Seq<Seq<char>>) -> Result<(Seq<char>, Seq<char>, bool, bool), (nat, Seq<char>)> {
    match scan_export_args(args, (None, None, false, false)) {
        Err(e) => Err(e),
        Ok(st) => match st.0 {
            None => Err((2, Seq::empty())),
            Some(src) => match st.1 {
                None => Err((3, Seq::empty())),
                Some(out) => Ok((src, out, st.2, st.3)),
            },
        },
    }
}

proof fn lemma_skip_skip(a: Seq<Seq<char>>, i: int, k: int)
    requires
        0 <= i,
        0 <= k,
        i + k <= a.len(),
    ensures
        a.skip(i).skip(k) == a.skip(i + k),
{
    assert(a.skip(i).skip(k) =~= a.skip(i + k));
}

/// Reads the arguments that follow `export-db`.
pub fn parse_export_args(args: &Vec<String>) -> (r: Result<ExportDbArgs, ExportArgError>)
    ensures
        match r {
            Ok(a) => export_args_outcome(args@.map_values(|s: String| s@)) == Ok::<
                (Seq<char>, Seq<char>, bool, bool),
                (nat, Seq<char>),
            >((a.source@, a.output@, a.include_embeddings, a.compress)),
            Err(e) => export_args_outcome(args@.map_values(|s: String| s@)) == Err::<
                (Seq<char>, Seq<char>, bool, bool),
                (nat, Seq<char>),
            >(export_arg_error_view(e)),
        },
{
    let ghost all = args@.map_values(|s: String| s@);
    let mut source: Option<String> = None;
    let mut output: Option<String> = None;
    let mut include_embeddings = false;
    let mut compress = false;
    let mut i: usize = 0;
    assert(all.skip(0) =~= all);
    while i < args.len()
        invariant
            i <= args@.len(),
            all == args@.map_values(|s: String| s@),
            scan_export_args(all, (None, None, false, false)) == scan_export_args(
                all.skip(i as int),
                (
                    match source {
                        Some(x) => Some(x@),
                        None => None,
                    },
                    match output {
                        Some(x) => Some(x@),
                        None => None,
                    },
                    include_embeddings,
                    compress,
                ),
            ),
        decreases args@.len() - i,
    {
        let ghost rest = all.skip(i as int);
        assert(rest[0] == args@[i as int]@);
        let a = to_chars(args[i].as_str());
        let is_source = str_eq(a.as_slice(), "--source");
        let is_output = str_eq(a.as_slice(), "--output");
        if is_source || is_output {
            if i + 1 >= args.len() {
                return Err(ExportArgError::MissingValue(from_chars(a.as_slice())));
            }
            assert(rest[1] == args@[i + 1]@);
            proof {
                lemma_skip_skip(all, i as int, 2);
            }
            let v = to_chars(args[i + 1].as_str());
            if is_source {
                source = Some(from_chars(v.as_slice()));
            } else {
                output = Some(from_chars(v.as_slice()));
            }
            i = i + 2;
        } else if str_eq(a.as_slice(), "--include-embeddings") {
            proof {
                lemma_skip_skip(all, i as int, 1);
            }
            include_embeddings = true;
            i = i + 1;
        } else if str_eq(a.as_slice(), "--compress") {
            proof {
                lemma_skip_skip(all, i as int, 1);
            }
            compress = true;
            i = i + 1;
        } else {
            return Err(ExportArgError::UnknownArgument(from_chars(a.as_slice())));
        }
    }
    assert(all.skip(i as int).len() == 0);
    match source {
        None => Err(ExportArgError::MissingSource),
        Some(src) => match output {
            None => Err(ExportArgError::MissingOutput),
            Some(out) => Ok(ExportDbArgs { source: src, output: out, include_embeddings, compress }),
        },
    }
}

impl ExportArgError {
    /// The message shown for the refusal.
    pub fn message(&self) -> (r: String)
        ensures
            self matches ExportArgError::MissingValue(f) ==> r@ == f@ + " requires a path argument"@,
            self matches ExportArgError::UnknownArgument(a) ==> r@ == "Unknown argument '"@ + a@ + "'"@,
            self is MissingSource ==> r@ == "--source argument is required"@,
            self is MissingOutput ==> r@ == "--output argument is required"@,
    {
        match self {
            ExportArgError::MissingValue(f) => {
                let mut v = to_chars(f.as_str());
                crate::text::extend_str(&mut v, " requires a path argument");
                from_chars(v.as_slice())
            },
            ExportArgError::UnknownArgument(a) => {
                let mut v = to_chars("Unknown argument '");
                crate::text::extend_str(&mut v, a.as_str());
                crate::text::extend_str(&mut v, "'");
                from_chars(v.as_slice())
            },
            ExportArgError::MissingSource => from_chars(to_chars("--source argument is required").as_slice()),
            ExportArgError::MissingOutput => from_chars(to_chars("--output argument is required").as_slice()),
        }
    }
}

} // verus!
