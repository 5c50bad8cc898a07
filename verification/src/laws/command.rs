//! What a command line asks for, and what is said at the end.
use crate::cli::{
    asked, asks_usage, failure_text, generated_text, key_and_value, requested, success_text,
    takes_value, verified_text, with_option, OptionsModel, RequestModel, SeenModel, USAGE,
};
use crate::laws::lettering::{free_of, parting_is_at_the_first};
use crate::manifest::ManifestModel;
use crate::text::decimal;
use vstd::prelude::*;

verus! {

/// An option takes the argument behind it, whatever that is, and the rest is read as if the option
/// had been set from the start. Of one that is given twice, the later counts.
pub proof fn options_are_set_and_passed(
    value: Seq<char>,
    rest: Seq<Seq<char>>,
    seen: SeenModel,
    generate: bool,
)
    ensures
        asked(seq!["--manifest"@, value] + rest, seen, generate) == asked(
            rest,
            (SeenModel { manifest: Some(value), ..seen }),
            generate,
        ),
        asked(seq!["--workspace-root"@, value] + rest, seen, generate) == asked(
            rest,
            (SeenModel { workspace_root: Some(value), ..seen }),
            generate,
        ),
        asked(seq!["--target"@, value] + rest, seen, generate) == asked(
            rest,
            (SeenModel { target: value, ..seen }),
            generate,
        ),
{
    lemma_option("--manifest"@, value, rest, seen, generate);
    lemma_option("--workspace-root"@, value, rest, seen, generate);
    lemma_option("--target"@, value, rest, seen, generate);
    reveal_strlit("--manifest");
    reveal_strlit("--workspace-root");
    reveal_strlit("--target");
    assert("--manifest"@.len() == 10 && "--workspace-root"@.len() == 16 && "--target"@.len() == 8);
}

/// An option and its value are passed together.
proof fn lemma_option(
    key: Seq<char>,
    value: Seq<char>,
    rest: Seq<Seq<char>>,
    seen: SeenModel,
    generate: bool,
)
    requires
        takes_value(key),
    ensures
        asked(seq![key, value] + rest, seen, generate) == asked(
            rest,
            with_option(seen, key, value),
            generate,
        ),
{
    reveal_strlit("--manifest");
    reveal_strlit("--workspace-root");
    reveal_strlit("--target");
    reveal_strlit("-h");
    reveal_strlit("--help");
    assert(free_of(key, '='));
    parting_is_at_the_first(key, '=', Seq::empty());
    assert(key.len() > 6);
    assert(!asks_usage(key));
    let all = seq![key, value] + rest;
    assert(all[0] == key && all[1] == value);
    assert(all.skip(2) =~= rest);
}

/// An argument that does not start with a hyphen is the release directory as it stands, where none
/// was given yet. A second one is refused.
pub proof fn directory_is_given_once(
    arg: Seq<char>,
    rest: Seq<Seq<char>>,
    seen: SeenModel,
    generate: bool,
)
    requires
        arg.len() == 0 || arg[0] != '-',
    ensures
        seen.release_dir is None ==> asked(seq![arg] + rest, seen, generate) == asked(
            rest,
            (SeenModel { release_dir: Some(arg), ..seen }),
            generate,
        ),
        seen.release_dir is Some ==> asked(seq![arg] + rest, seen, generate) is Refused,
        seen.release_dir is Some && free_of(arg, '=') ==> asked(seq![arg] + rest, seen, generate)
            == RequestModel::Refused(
            "fluxora-provenance: "@ + ("unexpected argument '"@ + arg + "'"@) + "\n\n"@ + USAGE@,
        ),
{
    reveal_strlit("--manifest");
    reveal_strlit("--workspace-root");
    reveal_strlit("--target");
    reveal_strlit("-h");
    reveal_strlit("--help");
    crate::text::lemma_until(arg, '=');
    let key = key_and_value(arg).0;
    assert(key.len() > 0 ==> key[0] == arg[0]);
    let all = seq![arg] + rest;
    assert(all[0] == arg);
    assert(all.skip(1) =~= rest);
    assert(!asks_usage(arg));
    assert(!takes_value(key));
    if free_of(arg, '=') {
        parting_is_at_the_first(arg, '=', Seq::empty());
    }
}

/// At the end, what was set is what the run works on; without a directory there is nothing to do.
pub proof fn what_was_set_is_what_runs(
    dir: Seq<char>,
    manifest: Option<Seq<char>>,
    workspace_root: Option<Seq<char>>,
    target: Seq<char>,
)
    ensures
        ({
            let seen = SeenModel { release_dir: Some(dir), manifest, workspace_root, target };
            let options = OptionsModel { release_dir: dir, manifest, workspace_root, target };
            &&& asked(Seq::empty(), seen, true) == RequestModel::Generate(options)
            &&& asked(Seq::empty(), seen, false) == RequestModel::Verify(options)
        }),
        forall|generate: bool| #[trigger]
            asked(
                Seq::empty(),
                (SeenModel { release_dir: None, manifest, workspace_root, target }),
                generate,
            ) == RequestModel::Refused(
                "fluxora-provenance: "@ + "missing <release-dir>"@ + "\n\n"@ + USAGE@,
            ),
{
}

/// Help is shown wherever it is asked for among the options, whatever else follows. An option that
/// lacks its value and one that there is not are refused.
pub proof fn help_and_refusals(
    arg: Seq<char>,
    rest: Seq<Seq<char>>,
    seen: SeenModel,
    generate: bool,
)
    ensures
        asked(seq!["-h"@] + rest, seen, generate) is Usage,
        asked(seq!["--help"@] + rest, seen, generate) is Usage,
        arg == "--manifest"@ || arg == "--workspace-root"@ || arg == "--target"@ ==> asked(
            seq![arg],
            seen,
            generate,
        ) == RequestModel::Refused(
            "fluxora-provenance: "@ + ("option '"@ + arg + "' requires a value"@) + "\n\n"@ + USAGE@,
        ),
        arg.len() > 0 && arg[0] == '-' && free_of(arg, '=') && arg != "-h"@ && arg != "--help"@ && arg
            != "--manifest"@ && arg != "--workspace-root"@ && arg != "--target"@ ==> asked(
            seq![arg] + rest,
            seen,
            generate,
        ) == RequestModel::Refused(
            "fluxora-provenance: "@ + ("unknown option '"@ + arg + "'"@) + "\n\n"@ + USAGE@,
        ),
{
    reveal_strlit("--manifest");
    reveal_strlit("--workspace-root");
    reveal_strlit("--target");
    reveal_strlit("-h");
    reveal_strlit("--help");
    assert((seq!["-h"@] + rest)[0] == "-h"@);
    assert((seq!["--help"@] + rest)[0] == "--help"@);
    assert((seq![arg] + rest)[0] == arg);
    assert(seq![arg][0] == arg);
    if arg == "--manifest"@ || arg == "--workspace-root"@ || arg == "--target"@ {
        assert(free_of(arg, '='));
        parting_is_at_the_first(arg, '=', Seq::empty());
        assert(arg.len() > 6);
        assert(!asks_usage(arg));
    } else if free_of(arg, '=') {
        parting_is_at_the_first(arg, '=', Seq::empty());
    }
}

/// The first argument names the command, and the others are its own. Nothing is set before them
/// but the default target.
pub proof fn commands_are_told_apart(rest: Seq<Seq<char>>, word: Seq<char>)
    ensures
        requested(Seq::empty()) == RequestModel::Refused(USAGE@),
        requested(seq!["generate"@] + rest) == asked(
            rest,
            (SeenModel {
                release_dir: None,
                manifest: None,
                workspace_root: None,
                target: "wasm32v1-none"@,
            }),
            true,
        ),
        requested(seq!["verify"@] + rest) == asked(
            rest,
            (SeenModel {
                release_dir: None,
                manifest: None,
                workspace_root: None,
                target: "wasm32v1-none"@,
            }),
            false,
        ),
        requested(seq!["help"@] + rest) is Usage,
        requested(seq!["-h"@] + rest) is Usage,
        requested(seq!["--help"@] + rest) is Usage,
        word != "generate"@ && word != "verify"@ && word != "help"@ && word != "-h"@ && word
            != "--help"@ ==> requested(seq![word] + rest) == RequestModel::Refused(
            "fluxora-provenance: "@ + ("unknown command '"@ + word + "'"@) + "\n\n"@ + USAGE@,
        ),
{
    reveal_strlit("generate");
    reveal_strlit("verify");
    reveal_strlit("help");
    reveal_strlit("-h");
    reveal_strlit("--help");
    assert("generate"@.len() == 8 && "verify"@.len() == 6 && "help"@.len() == 4 && "-h"@.len() == 2
        && "--help"@.len() == 6);
    assert("verify"@[0] != "--help"@[0]);
    assert((seq!["generate"@] + rest)[0] == "generate"@);
    assert((seq!["verify"@] + rest)[0] == "verify"@);
    assert((seq!["help"@] + rest)[0] == "help"@);
    assert((seq!["-h"@] + rest)[0] == "-h"@);
    assert((seq!["--help"@] + rest)[0] == "--help"@);
    assert((seq![word] + rest)[0] == word);
    assert((seq!["generate"@] + rest).skip(1) =~= rest);
    assert((seq!["verify"@] + rest).skip(1) =~= rest);
}

/// The closing line of a run names the schema, the number of artifacts, the target and the first
/// eight characters of the revision, or all of a shorter one.
pub proof fn closing_lines_sum_up(m: ManifestModel, count: nat, problem: Seq<char>)
    ensures
        success_text(generated_text(m)) == "fluxora-provenance: "@ + ("wrote "@ + m.schema + " for "@
            + decimal(m.subject.len()) + " artifact(s), target "@ + m.target + ", git "@ + (
        if m.inputs.git_revision.len() < 8 {
            m.inputs.git_revision
        } else {
            m.inputs.git_revision.subrange(0, 8)
        })),
        success_text(verified_text(count)) == "fluxora-provenance: "@ + ("verified "@ + decimal(count)
            + " artifact(s) against the manifest"@),
        failure_text(problem) == "fluxora-provenance: FAILED: "@ + problem,
{
    let r = m.inputs.git_revision;
    if r.len() == 8 {
        assert(r.subrange(0, 8) =~= r);
    } else if r.len() > 8 {
        assert(r.subrange(0, 8) =~= r.take(8));
    }
}

} // verus!
