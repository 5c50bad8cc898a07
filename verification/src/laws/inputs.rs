//! The inputs of a build are what the commands printed and what the files declare.
use crate::build_inputs::{
    git_label, head_args, host_among, host_of, metadata_of, printed, status_args, OutcomeModel,
    ReadingsModel,
};
use crate::encoding::{utf8_problem, utf8_text};
use crate::failure::ErrorModel;
use crate::laws::lettering::{all_white, prefix_is_taken_off_whole, tight, trimming_keeps_the_text};
use crate::manifest::MetadataModel;
use crate::text::{after_prefix, line_list, trimmed};
use crate::workspace::{channel_of_file, profile_of_file, sdk_of_file};
use vstd::prelude::*;
use vstd::utf8::{encode_utf8, encode_utf8_decode_utf8, encode_utf8_valid_utf8, valid_utf8};

verus! {

/// The command succeeded and printed the text, with nothing but white space around it.
pub open spec fn shows(o: OutcomeModel, lead: Seq<char>, s: Seq<char>, tail: Seq<char>) -> bool {
    &&& o is Finished
    &&& o->success
    &&& o->stdout == encode_utf8(lead + s + tail)
    &&& all_white(lead)
    &&& all_white(tail)
    &&& tight(s)
}

/// Text comes back from the bytes that it is encoded in.
proof fn lemma_text_back(s: Seq<char>)
    ensures
        utf8_text(encode_utf8(s)) == Some(s),
{
    encode_utf8_valid_utf8(s);
    encode_utf8_decode_utf8(s);
}

/// What a command shows is what is taken from it.
proof fn lemma_shown(o: OutcomeModel, lead: Seq<char>, s: Seq<char>, tail: Seq<char>)
    requires
        shows(o, lead, s, tail),
    ensures
        printed(o->stdout) == Ok::<Seq<char>, ErrorModel>(s),
{
    lemma_text_back(lead + s + tail);
    trimming_keeps_the_text(lead, s, tail);
}

/// The versions of the compiler and of cargo are what the tools printed of themselves, every
/// character of it, without the white space around it.
pub proof fn versions_are_what_was_printed(
    m: ReadingsModel,
    lead: Seq<char>,
    version: Seq<char>,
    tail: Seq<char>,
)
    ensures
        metadata_of(m) is Ok && shows(m.cargo, lead, version, tail) ==> metadata_of(m)->Ok_0.cargo
            == version,
        metadata_of(m) is Ok && shows(m.rustc, lead, version, tail) ==> metadata_of(m)->Ok_0.rustc
            == version,
{
    if shows(m.cargo, lead, version, tail) {
        lemma_shown(m.cargo, lead, version, tail);
    }
    if shows(m.rustc, lead, version, tail) {
        lemma_shown(m.rustc, lead, version, tail);
    }
}

/// The revision is what git printed as the head, without the white space around it. The branch is
/// what it printed as the branch, and none where it printed nothing. The tree is dirty exactly if
/// git printed anything as its status.
pub proof fn git_is_taken_at_its_word(
    m: ReadingsModel,
    lead: Seq<char>,
    s: Seq<char>,
    tail: Seq<char>,
)
    ensures
        metadata_of(m) is Ok && shows(m.git_head, lead, s, tail) ==> metadata_of(m)->Ok_0.git_revision
            == s,
        metadata_of(m) is Ok && shows(m.git_branch, lead, s, tail) ==> metadata_of(m)->Ok_0.git_ref
            == (if s.len() > 0 {
            Some(s)
        } else {
            None
        }),
        metadata_of(m) is Ok && shows(m.git_status, lead, s, tail) ==> (
        metadata_of(m)->Ok_0.git_dirty <==> s.len() > 0),
        metadata_of(m) is Ok && (m.git_branch is NotStarted || !m.git_branch->success || !valid_utf8(
            m.git_branch->stdout,
        )) ==> metadata_of(m)->Ok_0.git_ref is None,
{
    if shows(m.git_head, lead, s, tail) {
        lemma_shown(m.git_head, lead, s, tail);
    }
    if shows(m.git_branch, lead, s, tail) {
        lemma_shown(m.git_branch, lead, s, tail);
    }
    if shows(m.git_status, lead, s, tail) {
        lemma_shown(m.git_status, lead, s, tail);
    }
}

/// The channel, the version of the sdk, the host and the profile are those of their sources, each
/// taken over as it is.
pub proof fn sources_are_taken_over(m: ReadingsModel)
    ensures
        metadata_of(m) is Ok ==> {
            let meta = metadata_of(m)->Ok_0;
            &&& channel_of_file(m.toolchain_file) == Ok::<Option<Seq<char>>, ErrorModel>(
                meta.toolchain_channel,
            )
            &&& sdk_of_file(m.lock_file) == Ok::<Seq<char>, ErrorModel>(meta.soroban_sdk)
            &&& host_of(m.rustc_verbose) == Ok::<Seq<char>, ErrorModel>(meta.host)
            &&& profile_of_file(m.workspace_file) matches Ok(profile) && profile == meta.profile
        },
{
}

/// The command succeeded and printed text.
pub open spec fn spoke(o: OutcomeModel) -> bool {
    o is Finished && o->success && valid_utf8(o->stdout)
}

/// There are inputs exactly if git told the head and the status, the compiler and cargo told their
/// versions, and the files could be read. Nothing else decides it: not the branch, and not what
/// was printed.
pub proof fn inputs_need_every_source(m: ReadingsModel)
    ensures
        metadata_of(m) is Ok <==> {
            &&& spoke(m.git_head)
            &&& spoke(m.git_status)
            &&& channel_of_file(m.toolchain_file) is Ok
            &&& spoke(m.rustc)
            &&& spoke(m.cargo)
            &&& sdk_of_file(m.lock_file) is Ok
            &&& host_of(m.rustc_verbose) is Ok
            &&& profile_of_file(m.workspace_file) is Ok
        },
{
}

/// The failure of a tool names the tool and says why: that it could not be started, or how it
/// exited. Output that is not UTF-8 is a failure too.
pub proof fn failing_tools_are_named(
    m: ReadingsModel,
    reason: Seq<char>,
    status: Seq<char>,
    stdout: Seq<u8>,
)
    requires
        spoke(m.git_head),
        spoke(m.git_status),
        channel_of_file(m.toolchain_file) is Ok,
    ensures
        m.rustc == OutcomeModel::NotStarted(reason) ==> metadata_of(m) == Err::<
            MetadataModel,
            ErrorModel,
        >(ErrorModel::ToolVersion("rustc"@, reason)),
        m.rustc == (OutcomeModel::Finished { success: false, status, stdout }) ==> metadata_of(m)
            == Err::<MetadataModel, ErrorModel>(
            ErrorModel::ToolVersion("rustc"@, "exit "@ + status),
        ),
        m.rustc == (OutcomeModel::Finished { success: true, status, stdout }) && !valid_utf8(stdout)
            ==> metadata_of(m) == Err::<MetadataModel, ErrorModel>(
            ErrorModel::Utf8(utf8_problem(stdout)),
        ),
        spoke(m.rustc) && m.cargo == OutcomeModel::NotStarted(reason) ==> metadata_of(m) == Err::<
            MetadataModel,
            ErrorModel,
        >(ErrorModel::ToolVersion("cargo"@, reason)),
        spoke(m.rustc) && m.cargo == (OutcomeModel::Finished { success: false, status, stdout })
            ==> metadata_of(m) == Err::<MetadataModel, ErrorModel>(
            ErrorModel::ToolVersion("cargo"@, "exit "@ + status),
        ),
        spoke(m.rustc) && m.cargo == (OutcomeModel::Finished { success: true, status, stdout })
            && !valid_utf8(stdout) ==> metadata_of(m) == Err::<MetadataModel, ErrorModel>(
            ErrorModel::Utf8(utf8_problem(stdout)),
        ),
{
}

/// The failure of git to tell the head comes before all others, and its failure to tell the status
/// before those of the files and tools. The message names the call and says why it failed.
pub proof fn failing_git_is_named(
    m: ReadingsModel,
    reason: Seq<char>,
    status: Seq<char>,
    stdout: Seq<u8>,
)
    ensures
        m.git_head == OutcomeModel::NotStarted(reason) ==> metadata_of(m) == Err::<
            MetadataModel,
            ErrorModel,
        >(ErrorModel::Git("could not run `git rev-parse HEAD`: "@ + reason)),
        m.git_head == (OutcomeModel::Finished { success: false, status, stdout }) ==> metadata_of(m)
            == Err::<MetadataModel, ErrorModel>(
            ErrorModel::Git("`git rev-parse HEAD` exited with "@ + status),
        ),
        m.git_head == (OutcomeModel::Finished { success: true, status, stdout }) && !valid_utf8(
            stdout,
        ) ==> metadata_of(m) == Err::<MetadataModel, ErrorModel>(
            ErrorModel::Utf8(utf8_problem(stdout)),
        ),
        spoke(m.git_head) && m.git_status == OutcomeModel::NotStarted(reason) ==> metadata_of(m)
            == Err::<MetadataModel, ErrorModel>(
            ErrorModel::Git("could not run `git status --porcelain`: "@ + reason),
        ),
        spoke(m.git_head) && m.git_status == (OutcomeModel::Finished {
            success: false,
            status,
            stdout,
        }) ==> metadata_of(m) == Err::<MetadataModel, ErrorModel>(
            ErrorModel::Git("`git status --porcelain` exited with "@ + status),
        ),
{
    reveal_with_fuel(crate::text::joined, 3);
    let head = head_args();
    let stat = status_args();
    let a = crate::build_inputs::arg_texts(head);
    let b = crate::build_inputs::arg_texts(stat);
    assert(a.drop_last() =~= seq!["rev-parse"@]);
    assert(b.drop_last() =~= seq!["status"@]);
    reveal_strlit("git ");
    reveal_strlit(" ");
    reveal_strlit("rev-parse");
    reveal_strlit("HEAD");
    reveal_strlit("status");
    reveal_strlit("--porcelain");
    reveal_strlit("`");
    reveal_strlit("could not run `");
    reveal_strlit("`: ");
    reveal_strlit("` exited with ");
    reveal_strlit("could not run `git rev-parse HEAD`: ");
    reveal_strlit("`git rev-parse HEAD` exited with ");
    reveal_strlit("could not run `git status --porcelain`: ");
    reveal_strlit("`git status --porcelain` exited with ");
    assert(git_label(head) =~= "git "@ + ("rev-parse"@ + " "@ + "HEAD"@));
    assert(git_label(stat) =~= "git "@ + ("status"@ + " "@ + "--porcelain"@));
    assert("could not run `"@ + git_label(head) + "`: "@ =~= "could not run `git rev-parse HEAD`: "@);
    assert("`"@ + git_label(head) + "` exited with "@ =~= "`git rev-parse HEAD` exited with "@);
    assert("could not run `"@ + git_label(stat) + "`: "@
        =~= "could not run `git status --porcelain`: "@);
    assert("`"@ + git_label(stat) + "` exited with "@ =~= "`git status --porcelain` exited with "@);
}

/// The host is what follows `host: ` on the first line that starts so, without the white space
/// around it, whatever the other lines are and however the compiler exited. Where no line starts
/// so, the whole output is reported.
pub proof fn host_stands_on_its_line(
    success: bool,
    status: Seq<char>,
    text: Seq<char>,
    at: int,
    lead: Seq<char>,
    host: Seq<char>,
    tail: Seq<char>,
)
    requires
        all_white(lead),
        all_white(tail),
        tight(host),
        forall|j: int|
            0 <= j < line_list(text).len() && j < at ==> !"host: "@.is_prefix_of(
                #[trigger] line_list(text)[j],
            ),
    ensures
        0 <= at < line_list(text).len() && line_list(text)[at] == "host: "@ + (lead + host + tail)
            ==> host_of(
            OutcomeModel::Finished { success, status, stdout: encode_utf8(text) },
        ) == Ok::<Seq<char>, ErrorModel>(host),
        at >= line_list(text).len() ==> host_of(
            OutcomeModel::Finished { success, status, stdout: encode_utf8(text) },
        ) == Err::<Seq<char>, ErrorModel>(ErrorModel::HostParse(text)),
{
    lemma_text_back(text);
    let list = line_list(text);
    trimming_keeps_the_text(lead, host, tail);
    prefix_is_taken_off_whole("host: "@, lead + host + tail, Seq::empty());
    if at >= list.len() {
        lemma_host_among(list, list.len() as int);
    } else if at >= 0 && list[at] == "host: "@ + (lead + host + tail) {
        lemma_host_among(list, at);
    }
}

/// Lines without the mark are passed over.
proof fn lemma_host_among(list: Seq<Seq<char>>, at: int)
    requires
        0 <= at <= list.len(),
        forall|j: int| 0 <= j < at ==> !"host: "@.is_prefix_of(#[trigger] list[j]),
    ensures
        host_among(list) == host_among(list.skip(at)),
        at == list.len() ==> host_among(list) is None,
        at < list.len() && after_prefix(list[at], "host: "@) is Some ==> host_among(list) == Some(
            trimmed(after_prefix(list[at], "host: "@).unwrap()),
        ),
    decreases at,
{
    if at == 0 {
        assert(list.skip(0) =~= list);
    } else {
        let rest = list.skip(1);
        assert(!"host: "@.is_prefix_of(list[0]));
        if after_prefix(list[0], "host: "@) is Some {
            assert("host: "@.is_prefix_of(list[0]));
        }
        assert forall|j: int| 0 <= j < at - 1 implies !"host: "@.is_prefix_of(
            #[trigger] rest[j],
        ) by {
            assert(rest[j] == list[j + 1]);
        }
        lemma_host_among(rest, at - 1);
        assert(rest.skip(at - 1) =~= list.skip(at));
    }
}

/// Where the compiler could not be started, or printed what is not UTF-8, there is no host.
pub proof fn silent_compiler_has_no_host(
    reason: Seq<char>,
    success: bool,
    status: Seq<char>,
    stdout: Seq<u8>,
)
    ensures
        host_of(OutcomeModel::NotStarted(reason)) == Err::<Seq<char>, ErrorModel>(
            ErrorModel::ToolVersion("rustc -vV"@, reason),
        ),
        !valid_utf8(stdout) ==> host_of(OutcomeModel::Finished { success, status, stdout }) == Err::<
            Seq<char>,
            ErrorModel,
        >(ErrorModel::Utf8(utf8_problem(stdout))),
{
}

} // verus!
