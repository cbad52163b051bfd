//! InputResolver decisions: what an input argument means, filtering
//! candidates to HTML files, the fallback order after glob expansion,
//! and the demand that a resolved file set not be empty.
use vstd::prelude::*;
use crate::names::{possible_html_file, spec_possible_html_file, str_eq};
use crate::paths::PathRep;

verus! {

/// What an input argument asks for, before touching the filesystem.
pub enum InputKind {
    /// Read the whole standard input as one text.
    Stdin,
    /// List the current directory, without descending.
    CurrentDir,
    /// Expand as a glob pattern, falling back to a literal path.
    Pattern,
}

/// Classifies the input argument: `-` means the standard input, `.` and
/// `./` mean the current directory, anything else is a pattern.
pub fn classify_input_arg(s: &str) -> (r: InputKind)
    ensures
        r is Stdin <==> s@ == "-"@,
        r is CurrentDir <==> (s@ != "-"@ && (s@ == "."@ || s@ == "./"@)),
        r is Pattern <==> (s@ != "-"@ && s@ != "."@ && s@ != "./"@),
{
    if str_eq(s, "-") {
        InputKind::Stdin
    } else if str_eq(s, ".") {
        InputKind::CurrentDir
    } else if str_eq(s, "./") {
        InputKind::CurrentDir
    } else {
        InputKind::Pattern
    }
}

/// Keeps, in order, the candidates whose extension marks an HTML file.
pub fn filter_html_files(paths: Vec<PathRep>) -> (r: Vec<PathRep>)
    ensures
        r@ == paths@.filter(|p: PathRep| spec_possible_html_file(p)),
{
    let ghost orig = paths@;
    let mut rest = paths;
    let total = rest.len();
    let mut kept: Vec<PathRep> = Vec::new();
    let ghost pred = |p: PathRep| spec_possible_html_file(p);
    proof {
        reveal(Seq::filter);
        assert(orig.subrange(0, 0).filter(pred) =~= Seq::<PathRep>::empty());
        assert(rest@ =~= orig.subrange(0, orig.len() as int));
    }
    let mut k: usize = 0;
    while rest.len() > 0
        invariant
            k <= total,
            total == orig.len(),
            forall|x: PathRep| #[trigger] pred(x) == spec_possible_html_file(x),
            rest@ == orig.subrange(k as int, orig.len() as int),
            kept@ == orig.subrange(0, k as int).filter(pred),
        decreases rest@.len(),
    {
        let ghost before = orig.subrange(0, k as int);
        let p = rest.remove(0);
        proof {
            assert(p == orig[k as int]);
            assert(rest@ =~= orig.subrange(k as int + 1, orig.len() as int));
        }
        let keep = possible_html_file(&p);
        proof {
            assert(keep == spec_possible_html_file(orig[k as int]));
            assert(pred(orig[k as int]) == spec_possible_html_file(orig[k as int]));
        }
        let ghost kept_before = kept@;
        if keep {
            kept.push(p);
            proof {
                assert(kept@ == kept_before.push(orig[k as int]));
            }
        }
        proof {
            reveal(Seq::filter);
            let after = orig.subrange(0, k as int + 1);
            assert(after.drop_last() =~= before);
            assert(after.last() == orig[k as int]);
            assert(after.filter(pred) == if pred(orig[k as int]) {
                before.filter(pred).push(orig[k as int])
            } else {
                before.filter(pred)
            });
            assert(kept@ == after.filter(pred));
        }
        k += 1;
    }
    proof {
        assert(orig.subrange(0, orig.len() as int) =~= orig);
        assert(pred =~= (|p: PathRep| spec_possible_html_file(p)));
    }
    kept
}

/// A user-supplied input could not be resolved to any file.
#[derive(Debug)]
pub struct ResolveError {
    pub message: String,
}

/// The diagnostic for an input that resolved to nothing usable.
pub fn input_not_found_message(input: &str) -> (r: String)
    ensures
        r@ == "File or directory does not exist: "@ + input@,
{
    let mut m: String = "File or directory does not exist: ".to_owned();
    m.append(input);
    m
}

/// What resolution does once the glob pass is over.
pub enum GlobOutcome {
    /// The glob matched HTML files: they are the file set.
    Files(Vec<PathRep>),
    /// Nothing matched and the literal path does not exist: resolution
    /// fails.
    NotFound,
    /// Nothing matched but the literal path is a directory: list its
    /// HTML entries, without descending.
    ListDirectory,
    /// Nothing matched but the literal path is a file: it alone is the
    /// set, whatever its extension.
    SingleFile,
}

/// Decides the fallback after glob expansion: kept matches win; an
/// unmatched pattern is retried as a literal path, which must exist.
pub fn resolve_after_glob(
    html_matches: Vec<PathRep>,
    literal_exists: bool,
    literal_is_dir: bool,
) -> (r: GlobOutcome)
    ensures
        html_matches@.len() > 0 ==> (r matches GlobOutcome::Files(v) && v@ == html_matches@),
        html_matches@.len() == 0 && !literal_exists ==> r is NotFound,
        html_matches@.len() == 0 && literal_exists && literal_is_dir ==> r is ListDirectory,
        html_matches@.len() == 0 && literal_exists && !literal_is_dir ==> r is SingleFile,
{
    if html_matches.len() > 0 {
        GlobOutcome::Files(html_matches)
    } else if !literal_exists {
        GlobOutcome::NotFound
    } else if literal_is_dir {
        GlobOutcome::ListDirectory
    } else {
        GlobOutcome::SingleFile
    }
}

/// Whether the input argument selects the standard input stream: no
/// argument at all, or the `-` token, does.
pub fn input_is_stdin(arg: &Option<String>) -> (r: bool)
    ensures
        r <==> (arg matches Some(s) ==> s@ == "-"@),
{
    match arg {
        None => true,
        Some(s) => str_eq(s.as_str(), "-"),
    }
}

/// Whether the output argument selects the standard output stream: no
/// argument at all, or the `-` token, does.
pub fn output_is_stdout(arg: &Option<String>) -> (r: bool)
    ensures
        r <==> (arg matches Some(s) ==> s@ == "-"@),
{
    match arg {
        None => true,
        Some(s) => str_eq(s.as_str(), "-"),
    }
}

/// Demands a nonempty resolved file set: an empty resolution is a
/// terminal error naming the input, never a valid empty state.
pub fn ensure_nonempty(files: Vec<PathRep>, input: &str) -> (r: Result<Vec<PathRep>, ResolveError>)
    ensures
        files@.len() > 0 ==> (r matches Ok(v) && v@ == files@),
        files@.len() == 0 ==> (r matches Err(e) && e.message@
            == "File or directory does not exist: "@ + input@),
{
    if files.len() > 0 {
        Ok(files)
    } else {
        Err(ResolveError { message: input_not_found_message(input) })
    }
}

} // verus!
