//! Construction of the child-process argument vector from a request: a
//! fixed subcommand, the working directory, the structured-output flag,
//! the extra flags, one repeated attachment flag per image, an optional
//! resume pair, and the instruction text as the terminal positional
//! argument.  Arguments are passed as a vector, never joined or escaped.

use vstd::prelude::*;

verus! {

use crate::codex::Options;

/// View of an argument list as its character sequences.
pub open spec fn args_view(v: Seq<String>) -> Seq<Seq<char>> {
    v.map_values(|s: String| s@)
}

/// One `--image` flag followed by its path, for each attachment in order.
pub open spec fn spec_image_args(paths: Seq<String>) -> Seq<Seq<char>>
    decreases paths.len(),
{
    if paths.len() == 0 {
        Seq::empty()
    } else {
        seq!["--image"@, paths[0]@] + spec_image_args(paths.skip(1))
    }
}

/// The optional resume pair.
pub open spec fn spec_resume_args(session_id: Option<String>) -> Seq<Seq<char>> {
    match session_id {
        Some(sid) => seq!["resume"@, sid@],
        None => Seq::empty(),
    }
}

/// The full argument vector for one request.
pub open spec fn spec_argv(o: Options) -> Seq<Seq<char>> {
    seq!["exec"@, "--cd"@, o.working_dir@, "--json"@] + args_view(o.additional_args@)
        + spec_image_args(o.image_paths@) + spec_resume_args(o.session_id) + seq!["--"@, o.prompt@]
}

/// Builds the argument vector the child process is invoked with.
pub fn build_argv(o: &Options) -> (r: Vec<String>)
    ensures
        args_view(r@) == spec_argv(*o),
{
    let mut v: Vec<String> = Vec::new();
    v.push("exec".to_owned());
    v.push("--cd".to_owned());
    v.push(o.working_dir.clone());
    v.push("--json".to_owned());
    proof {
        assert(args_view(v@) =~= seq!["exec"@, "--cd"@, o.working_dir@, "--json"@]);
    }
    let ghost head = args_view(v@);
    let mut i: usize = 0;
    while i < o.additional_args.len()
        invariant
            i <= o.additional_args@.len(),
            args_view(v@) == head + args_view(o.additional_args@.take(i as int)),
        decreases o.additional_args@.len() - i,
    {
        let ghost before = args_view(v@);
        v.push(o.additional_args[i].clone());
        proof {
            assert(args_view(v@) =~= before.push(o.additional_args@[i as int]@));
            assert(head + args_view(o.additional_args@.take(i + 1 as int)) =~= before.push(
                o.additional_args@[i as int]@,
            ));
        }
        i += 1;
    }
    proof {
        assert(o.additional_args@.take(o.additional_args@.len() as int) =~= o.additional_args@);
    }
    let ghost head2 = args_view(v@);
    let mut j: usize = 0;
    while j < o.image_paths.len()
        invariant
            j <= o.image_paths@.len(),
            args_view(v@) == head2 + spec_image_args(o.image_paths@.take(j as int)),
        decreases o.image_paths@.len() - j,
    {
        let ghost before = args_view(v@);
        v.push("--image".to_owned());
        v.push(o.image_paths[j].clone());
        proof {
            assert(args_view(v@) =~= before + seq!["--image"@, o.image_paths@[j as int]@]);
            lemma_image_args_snoc(o.image_paths@, j as int);
            assert(head2 + spec_image_args(o.image_paths@.take(j + 1 as int)) =~= args_view(v@));
        }
        j += 1;
    }
    proof {
        assert(o.image_paths@.take(o.image_paths@.len() as int) =~= o.image_paths@);
    }
    let ghost head3 = args_view(v@);
    match &o.session_id {
        Some(sid) => {
            let ghost before = args_view(v@);
            v.push("resume".to_owned());
            v.push(sid.clone());
            proof {
                assert(args_view(v@) =~= before + spec_resume_args(o.session_id));
            }
        },
        None => {
            proof {
                assert(args_view(v@) =~= head3 + spec_resume_args(o.session_id));
            }
        },
    }
    let ghost before = args_view(v@);
    v.push("--".to_owned());
    v.push(o.prompt.clone());
    proof {
        assert(args_view(v@) =~= before + seq!["--"@, o.prompt@]);
        assert(args_view(v@) =~= spec_argv(*o));
    }
    v
}

/// Extending the attachment list by one path appends exactly its flag
/// pair.
proof fn lemma_image_args_snoc(paths: Seq<String>, j: int)
    requires
        0 <= j < paths.len(),
    ensures
        spec_image_args(paths.take(j + 1)) == spec_image_args(paths.take(j)) + seq![
            "--image"@,
            paths[j]@,
        ],
    decreases j,
{
    let t1 = paths.take(j + 1);
    let t0 = paths.take(j);
    if j == 0 {
        assert(t1.len() == 1);
        assert(t1[0] == paths[0]);
        assert(t1.skip(1) =~= Seq::<String>::empty());
        assert(spec_image_args(t1) == seq!["--image"@, t1[0]@] + spec_image_args(t1.skip(1)));
        assert(spec_image_args(t0) =~= Seq::<Seq<char>>::empty());
        assert(spec_image_args(t1) =~= spec_image_args(t0) + seq!["--image"@, paths[0]@]);
    } else {
        lemma_image_args_snoc(paths.skip(1), j - 1);
        assert(t1.skip(1) =~= paths.skip(1).take(j));
        assert(t0.skip(1) =~= paths.skip(1).take(j - 1));
        assert(paths.skip(1)[j - 1] == paths[j]);
        assert(t1[0] == paths[0]);
        assert(t0[0] == paths[0]);
        assert(spec_image_args(t1) == seq!["--image"@, paths[0]@] + spec_image_args(
            paths.skip(1).take(j),
        ));
        assert(spec_image_args(t0) == seq!["--image"@, paths[0]@] + spec_image_args(
            paths.skip(1).take(j - 1),
        ));
        assert(spec_image_args(t1) =~= spec_image_args(t0) + seq!["--image"@, paths[j]@]);
    }
}

} // verus!
