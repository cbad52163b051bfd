//! OutputPlanner: computes, for a resolved input file set, an output
//! target and a flatten flag, where every converted file is written,
//! mirroring the input hierarchy beneath the common ancestor unless the
//! output is flattened.
use vstd::prelude::*;
use crate::names::{has_extension, md_file_name, spec_extension, spec_stem};
use crate::paths::{
    common_ancestor, is_prefix_of, join, paths_equal, push_part, relativize, spec_common_ancestor,
    spec_join, PComp, PathRep,
};

verus! {

/// Where converted output goes: the standard output stream, or a
/// filesystem path naming a single file or a directory.
pub enum OutputTarget {
    Stdout,
    Fs(PathRep),
}

/// One unit of batch work: convert `source` and write the result at
/// `dest`.
#[derive(Debug)]
pub struct Job {
    pub source: PathRep,
    pub dest: PathRep,
}

/// What a resolved batch demands of the caller.
#[derive(Debug)]
pub enum BatchPlan {
    /// The resolved set is empty: report that nothing was converted.
    NothingToConvert,
    /// Convert the only input and write the result to standard output.
    SingleToStdout,
    /// Convert each job's source into its destination file, creating
    /// intermediate directories first.
    Jobs(Vec<Job>),
}

/// Why no plan could be made.
#[derive(Clone, Copy, PartialEq, Eq, Structural, Debug)]
pub enum PlanError {
    /// More than one resolved input with the standard output as target.
    MultiFileStdout,
    /// More than one resolved input with an existing regular file as
    /// target.
    MultiFileNonDirectoryOutput,
    /// A member of the set does not lie under the set's common
    /// ancestor.
    PathRelation,
    /// A single-file target names an existing directory.
    OutputIsDirectory,
    /// Two inputs would be written to the same destination file.
    DuplicateDestination,
}

impl PlanError {
    /// The diagnostic reported for the error.
    pub fn message(&self) -> (r: &'static str)
        ensures
            *self is MultiFileStdout ==> r@
                == "Output to stdout doesn't support multiple files as the input."@,
            *self is MultiFileNonDirectoryOutput ==> r@
                == "Multiple input files with non-directory output is unsupported."@,
            *self is PathRelation ==> r@
                == "Input file is not under the common ancestor of the input set."@,
            *self is OutputIsDirectory ==> r@ == "Output cannot be a directory."@,
            *self is DuplicateDestination ==> r@
                == "Multiple input files map to the same output file."@,
    {
        match self {
            PlanError::MultiFileStdout => "Output to stdout doesn't support multiple files as the input.",
            PlanError::MultiFileNonDirectoryOutput => "Multiple input files with non-directory output is unsupported.",
            PlanError::PathRelation => "Input file is not under the common ancestor of the input set.",
            PlanError::OutputIsDirectory => "Output cannot be a directory.",
            PlanError::DuplicateDestination => "Multiple input files map to the same output file.",
        }
    }
}

/// The name of the converted file: the input name's stem plus `.md`.
pub open spec fn spec_md_name(name: Seq<char>) -> Seq<char> {
    spec_stem(name) + ".md"@
}

/// The destination file-name component for an input file.
pub open spec fn spec_file_md_part(file: PathRep) -> PComp {
    PComp::Part(spec_md_name(file.parts.deep_view().last()))
}

/// A filesystem output path with no extension names a directory to
/// create, not a file to write.
pub open spec fn spec_output_as_dir(out: PathRep) -> bool {
    out.parts.len() == 0 || spec_extension(out.parts.deep_view().last()) is None
}

/// The destination of the only file of a single-file batch: the output
/// path itself, or the converted name inside it when it is a directory.
pub open spec fn spec_single_dest(file: PathRep, out: PathRep) -> Seq<PComp> {
    if spec_output_as_dir(out) {
        out.comps().push(spec_file_md_part(file))
    } else {
        out.comps()
    }
}

/// The input file's parent directory, relative to the ancestor.
pub open spec fn spec_rel_to_ancestor(file: PathRep, anc: Seq<PComp>) -> Seq<PComp> {
    file.parent_comps().subrange(anc.len() as int, file.parent_comps().len() as int)
}

/// The destination of one file of a multi-file batch: directly in the
/// output root when flattened, else beneath the output root at the same
/// relative position the file had beneath the common ancestor.
pub open spec fn spec_dest(file: PathRep, out: PathRep, flatten: bool, anc: Seq<PComp>) -> Seq<
    PComp,
> {
    if flatten {
        out.comps().push(spec_file_md_part(file))
    } else {
        spec_join(out.comps(), spec_rel_to_ancestor(file, anc)).push(spec_file_md_part(file))
    }
}

/// No two members of the batch are written to the same destination: the
/// invariant every plan must keep, checked and enforced by the planner.
pub open spec fn spec_dests_distinct(
    files: Seq<PathRep>,
    out: PathRep,
    flatten: bool,
    anc: Seq<PComp>,
) -> bool {
    forall|i: int, j: int|
        0 <= i < j < files.len() ==> #[trigger] spec_dest(files[i], out, flatten, anc)
            != #[trigger] spec_dest(files[j], out, flatten, anc)
}

/// Every member's parent lies under the common ancestor, so mirroring
/// can relativize each of them.
pub open spec fn spec_mirror_ok(files: Seq<PathRep>) -> bool {
    forall|i: int|
        0 <= i < files.len() ==> is_prefix_of(
            spec_common_ancestor(files),
            (#[trigger] files[i]).parent_comps(),
        )
}

/// The destination file name of one input file.
fn file_md_name(file: &PathRep) -> (r: String)
    requires
        file.parts@.len() > 0,
    ensures
        r@ == spec_md_name(file.parts.deep_view().last()),
{
    let name = &file.parts[file.parts.len() - 1];
    proof {
        assert(name@ == file.parts.deep_view().last());
    }
    md_file_name(name.as_str())
}

/// Computes the batch plan: which file is converted into which
/// destination, or to the standard output, or why the combination of
/// input set and output target is rejected. `output_exists` and
/// `output_is_file` report what the filesystem holds at a filesystem
/// target's path.
pub fn plan_conversion(
    files: &Vec<PathRep>,
    output: &OutputTarget,
    flatten: bool,
    output_exists: bool,
    output_is_file: bool,
) -> (r: Result<BatchPlan, PlanError>)
    requires
        forall|i: int| 0 <= i < files@.len() ==> (#[trigger] files@[i]).parts.len() > 0,
    ensures
        files@.len() == 0 ==> (r matches Ok(p) && p is NothingToConvert),
        *output is Stdout && files@.len() == 1 ==> (r matches Ok(p) && p is SingleToStdout),
        *output is Stdout && files@.len() > 1 ==> (r matches Err(e) && e is MultiFileStdout),
        *output matches OutputTarget::Fs(out) ==> (files@.len() == 1 && !spec_output_as_dir(out)
            && output_exists && !output_is_file ==> (r matches Err(e) && e is OutputIsDirectory)),
        *output matches OutputTarget::Fs(out) ==> (files@.len() == 1 && !(!spec_output_as_dir(out)
            && output_exists && !output_is_file) ==> (r matches Ok(p)
            && p matches BatchPlan::Jobs(jobs) && jobs@.len() == 1 && jobs@[0].source.comps()
            == files@[0].comps() && jobs@[0].dest.comps() == spec_single_dest(files@[0], out))),
        *output is Fs && files@.len() > 1 && output_exists && output_is_file ==> (r matches Err(e)
            && e is MultiFileNonDirectoryOutput),
        *output matches OutputTarget::Fs(out) ==> (files@.len() > 1 && !(output_exists
            && output_is_file) && (flatten || spec_mirror_ok(files@)) && spec_dests_distinct(
            files@,
            out,
            flatten,
            spec_common_ancestor(files@),
        ) ==> (r matches Ok(p) && p matches BatchPlan::Jobs(jobs) && jobs@.len() == files@.len()
            && (forall|i: int|
            0 <= i < files@.len() ==> (#[trigger] jobs@[i]).source.comps() == files@[i].comps()
                && jobs@[i].dest.comps() == spec_dest(
                files@[i],
                out,
                flatten,
                spec_common_ancestor(files@),
            )))),
        *output matches OutputTarget::Fs(out) ==> (files@.len() > 1 && !(output_exists
            && output_is_file) && (flatten || spec_mirror_ok(files@)) && !spec_dests_distinct(
            files@,
            out,
            flatten,
            spec_common_ancestor(files@),
        ) ==> (r matches Err(e) && e is DuplicateDestination)),
        *output is Fs && files@.len() > 1 && !(output_exists && output_is_file) && !flatten
            && !spec_mirror_ok(files@) ==> (r matches Err(e) && e is PathRelation),
{
    match output {
        OutputTarget::Stdout => {
            if files.len() == 0 {
                Ok(BatchPlan::NothingToConvert)
            } else if files.len() == 1 {
                Ok(BatchPlan::SingleToStdout)
            } else {
                Err(PlanError::MultiFileStdout)
            }
        },
        OutputTarget::Fs(out) => {
            if files.len() == 0 {
                Ok(BatchPlan::NothingToConvert)
            } else if files.len() == 1 {
                let file = &files[0];
                let as_dir = if out.parts.len() == 0 {
                    true
                } else {
                    !has_extension(out.parts[out.parts.len() - 1].as_str())
                };
                proof {
                    if out.parts@.len() > 0 {
                        assert(out.parts@[out.parts@.len() - 1]@ == out.parts.deep_view().last());
                    }
                }
                if !as_dir && output_exists && !output_is_file {
                    return Err(PlanError::OutputIsDirectory);
                }
                let dest = if as_dir {
                    push_part(out, file_md_name(file))
                } else {
                    out.duplicate()
                };
                let mut jobs: Vec<Job> = Vec::new();
                jobs.push(Job { source: file.duplicate(), dest });
                Ok(BatchPlan::Jobs(jobs))
            } else if output_exists && output_is_file {
                Err(PlanError::MultiFileNonDirectoryOutput)
            } else {
                let anc = match common_ancestor(files) {
                    Some(a) => a,
                    None => {
                        return Err(PlanError::PathRelation);  // unreachable: the set is nonempty
                    },
                };
                let ghost anc0 = spec_common_ancestor(files@);
                let mut jobs: Vec<Job> = Vec::new();
                let mut i: usize = 0;
                while i < files.len()
                    invariant
                        i <= files@.len(),
                        files@.len() > 1,
                        !(output_exists && output_is_file),
                        jobs@.len() == i,
                        anc.comps() == anc0,
                        anc0 == spec_common_ancestor(files@),
                        forall|k: int|
                            0 <= k < files@.len() ==> (#[trigger] files@[k]).parts.len() > 0,
                        *output matches OutputTarget::Fs(o) && o.comps() == out.comps(),
                        forall|j: int|
                            0 <= j < i ==> (#[trigger] jobs@[j]).source.comps()
                                == files@[j].comps() && jobs@[j].dest.comps() == spec_dest(
                                files@[j],
                                *out,
                                flatten,
                                anc0,
                            ),
                        !flatten ==> forall|j: int|
                            0 <= j < i ==> is_prefix_of(anc0, (#[trigger] files@[j]).parent_comps()),
                    decreases files@.len() - i,
                {
                    let file = &files[i];
                    let md = file_md_name(file);
                    let dest = if flatten {
                        push_part(out, md)
                    } else {
                        let parent = match file.parent() {
                            Some(p) => p,
                            None => {
                                return Err(
                                    PlanError::PathRelation,
                                );  // unreachable: every file has a name
                            },
                        };
                        match relativize(&parent, &anc) {
                            Ok(rel) => push_part(&join(out, &rel), md),
                            Err(_) => {
                                return Err(PlanError::PathRelation);
                            },
                        }
                    };
                    jobs.push(Job { source: file.duplicate(), dest });
                    i += 1;
                }
                proof {
                    if !flatten {
                        assert(spec_mirror_ok(files@));
                    }
                }
                let mut a: usize = 0;
                while a < jobs.len()
                    invariant
                        a <= jobs@.len(),
                        files@.len() > 1,
                        !(output_exists && output_is_file),
                        jobs@.len() == files@.len(),
                        anc0 == spec_common_ancestor(files@),
                        *output matches OutputTarget::Fs(o) && o == *out,
                        flatten || spec_mirror_ok(files@),
                        forall|j: int|
                            0 <= j < jobs@.len() ==> (#[trigger] jobs@[j]).source.comps()
                                == files@[j].comps() && jobs@[j].dest.comps() == spec_dest(
                                files@[j],
                                *out,
                                flatten,
                                anc0,
                            ),
                        forall|x: int, y: int|
                            0 <= x < y < jobs@.len() && x < a ==> (#[trigger] jobs@[x]).dest.comps()
                                != (#[trigger] jobs@[y]).dest.comps(),
                    decreases jobs@.len() - a,
                {
                    let mut b: usize = a + 1;
                    while b < jobs.len()
                        invariant
                            a < jobs@.len(),
                            a + 1 <= b <= jobs@.len(),
                            files@.len() > 1,
                            !(output_exists && output_is_file),
                            jobs@.len() == files@.len(),
                            anc0 == spec_common_ancestor(files@),
                            *output matches OutputTarget::Fs(o) && o == *out,
                            flatten || spec_mirror_ok(files@),
                            forall|j: int|
                                0 <= j < jobs@.len() ==> (#[trigger] jobs@[j]).source.comps()
                                    == files@[j].comps() && jobs@[j].dest.comps() == spec_dest(
                                    files@[j],
                                    *out,
                                    flatten,
                                    anc0,
                                ),
                            forall|y: int|
                                a < y < b ==> (#[trigger] jobs@[y]).dest.comps() != jobs@[
                                    a as int
                                ].dest.comps(),
                        decreases jobs@.len() - b,
                    {
                        if paths_equal(&jobs[a].dest, &jobs[b].dest) {
                            proof {
                                assert(spec_dest(files@[a as int], *out, flatten, anc0)
                                    == spec_dest(files@[b as int], *out, flatten, anc0));
                                assert(!spec_dests_distinct(files@, *out, flatten, anc0));
                            }
                            return Err(PlanError::DuplicateDestination);
                        }
                        b += 1;
                    }
                    a += 1;
                }
                proof {
                    assert forall|x: int, y: int| 0 <= x < y < files@.len() implies #[trigger]
                    spec_dest(files@[x], *out, flatten, anc0) != #[trigger] spec_dest(
                        files@[y],
                        *out,
                        flatten,
                        anc0,
                    ) by {
                        assert(jobs@[x].dest.comps() != jobs@[y].dest.comps());
                    }
                }
                Ok(BatchPlan::Jobs(jobs))
            }
        },
    }
}

/// Mirroring round trip: with flatten off, a converted file's directory
/// sits at exactly the position beneath the output root that the
/// source file's directory had beneath the common ancestor — the output
/// tree reproduces the input tree's relative structure.
pub proof fn lemma_mirror_round_trip(file: PathRep, out: PathRep, anc: Seq<PComp>)
    requires
        file.parts.len() > 0,
        is_prefix_of(anc, file.parent_comps()),
        anc.len() > 0 || !file.rooted,
    ensures
        is_prefix_of(out.comps(), spec_dest(file, out, false, anc).drop_last()),
        spec_dest(file, out, false, anc).drop_last().subrange(
            out.comps().len() as int,
            spec_dest(file, out, false, anc).drop_last().len() as int,
        ) == spec_rel_to_ancestor(file, anc),
{
    let rel = spec_rel_to_ancestor(file, anc);
    assert(rel.len() > 0 ==> rel[0] is Part) by {
        if rel.len() > 0 {
            let off: int = if file.rooted {
                1
            } else {
                0
            };
            assert(rel[0] == file.parent_comps()[anc.len() as int]);
            assert(file.parent_comps()[anc.len() as int] == file.comps()[anc.len() as int]);
            if file.rooted {
                assert(file.comps()[anc.len() as int] == PComp::Part(
                    file.parts.deep_view()[anc.len() - 1],
                ));
            } else {
                assert(file.comps()[anc.len() as int] == PComp::Part(
                    file.parts.deep_view()[anc.len() as int],
                ));
            }
        }
    }
    let dest = spec_dest(file, out, false, anc);
    assert(spec_join(out.comps(), rel) == out.comps() + rel);
    assert(dest.drop_last() =~= out.comps() + rel);
    assert(out.comps() =~= (out.comps() + rel).subrange(0, out.comps().len() as int));
    assert(dest.drop_last().subrange(out.comps().len() as int, dest.drop_last().len() as int)
        =~= rel);
}

/// Idempotence of planning: a file's destination is a function of the
/// file, the output root, the flatten flag and the ancestor alone, so
/// re-running the same batch plans the same destination for every file
/// and overwrites the previous outputs instead of scattering new ones.
pub proof fn lemma_replan_same_destination(
    f1: PathRep,
    f2: PathRep,
    o1: PathRep,
    o2: PathRep,
    flatten: bool,
    anc: Seq<PComp>,
)
    requires
        f1.comps() == f2.comps(),
        o1.comps() == o2.comps(),
        f1.parts.len() > 0,
    ensures
        spec_dest(f1, o1, flatten, anc) == spec_dest(f2, o2, flatten, anc),
{
    let p1 = f1.parts.deep_view();
    let p2 = f2.parts.deep_view();
    assert(f1.comps().len() == (if f1.rooted {
        1int
    } else {
        0int
    }) + p1.len());
    assert(f2.comps().len() == (if f2.rooted {
        1int
    } else {
        0int
    }) + p2.len());
    assert(f1.rooted == f2.rooted) by {
        if f1.rooted && !f2.rooted {
            assert(f1.comps()[0] is Root);
            if p2.len() > 0 {
                assert(f2.comps()[0] == PComp::Part(p2[0]));
            }
            assert(false);
        }
        if !f1.rooted && f2.rooted {
            assert(f2.comps()[0] is Root);
            if p1.len() > 0 {
                assert(f1.comps()[0] == PComp::Part(p1[0]));
            }
            assert(false);
        }
    }
    let off: int = if f1.rooted {
        1
    } else {
        0
    };
    assert(p1.len() == p2.len());
    assert(p1 =~= p2) by {
        assert forall|i: int| 0 <= i < p1.len() implies p1[i] == p2[i] by {
            assert(f1.comps()[i + off] == f2.comps()[i + off]);
            assert(f1.comps()[i + off] == PComp::Part(p1[i]));
            assert(f2.comps()[i + off] == PComp::Part(p2[i]));
        }
    }
    assert(spec_file_md_part(f1) == spec_file_md_part(f2));
    assert(f1.parent_comps() == f2.parent_comps());
}

} // verus!
