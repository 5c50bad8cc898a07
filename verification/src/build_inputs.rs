//! The inputs of a build, from what the commands printed and what the files hold.
use crate::encoding::{text_from_utf8, utf8_problem, utf8_text};
use crate::failure::{Error, ErrorModel, IoFailure, IoModel};
use crate::manifest::{optional, BuildMetadata, MetadataModel, Profile};
use crate::text::{
    after_prefix, char_count, join, joined, line_list, lines, strip_prefix, texts, trim, trimmed, two,
};
use crate::workspace::{
    channel_of_file, optional_reading, profile_from_workspace, profile_of_file, reading,
    sdk_of_file, soroban_sdk_version, toolchain_channel,
};
use vstd::prelude::*;

verus! {

/// What came of running a command.
#[derive(Clone, Debug, PartialEq, Eq)]
pub enum CommandOutcome {
    /// It could not be started, for this reason.
    NotStarted(String),
    /// It ended with this status and printed these bytes.
    Finished { success: bool, status: String, stdout: Vec<u8> },
}

/// The mathematical value of a `CommandOutcome`.
#[verifier::ext_equal]
pub enum OutcomeModel {
    NotStarted(Seq<char>),
    Finished { success: bool, status: Seq<char>, stdout: Seq<u8> },
}

impl View for CommandOutcome {
    type V = OutcomeModel;

    open spec fn view(&self) -> OutcomeModel {
        match self {
            CommandOutcome::NotStarted(e) => OutcomeModel::NotStarted(e@),
            CommandOutcome::Finished { success, status, stdout } => OutcomeModel::Finished {
                success: *success,
                status: status@,
                stdout: stdout@,
            },
        }
    }
}

/// All that is read of the checkout and the toolchain.
#[derive(Debug, PartialEq, Eq)]
pub struct BuildReadings {
    /// `git rev-parse HEAD`.
    pub git_head: CommandOutcome,
    /// `git branch --show-current`.
    pub git_branch: CommandOutcome,
    /// `git status --porcelain`.
    pub git_status: CommandOutcome,
    /// `rust-toolchain.toml`, where it exists.
    pub toolchain_file: Option<Result<String, IoFailure>>,
    /// `rustc --version`.
    pub rustc: CommandOutcome,
    /// `cargo --version`.
    pub cargo: CommandOutcome,
    /// `Cargo.lock`.
    pub lock_file: Result<String, IoFailure>,
    /// `rustc -vV`.
    pub rustc_verbose: CommandOutcome,
    /// `Cargo.toml`.
    pub workspace_file: Result<String, IoFailure>,
}

/// The mathematical value of a `BuildReadings`.
#[verifier::ext_equal]
pub struct ReadingsModel {
    pub git_head: OutcomeModel,
    pub git_branch: OutcomeModel,
    pub git_status: OutcomeModel,
    pub toolchain_file: Option<Result<Seq<char>, IoModel>>,
    pub rustc: OutcomeModel,
    pub cargo: OutcomeModel,
    pub lock_file: Result<Seq<char>, IoModel>,
    pub rustc_verbose: OutcomeModel,
    pub workspace_file: Result<Seq<char>, IoModel>,
}

impl View for BuildReadings {
    type V = ReadingsModel;

    open spec fn view(&self) -> ReadingsModel {
        ReadingsModel {
            git_head: self.git_head@,
            git_branch: self.git_branch@,
            git_status: self.git_status@,
            toolchain_file: optional_reading(self.toolchain_file),
            rustc: self.rustc@,
            cargo: self.cargo@,
            lock_file: reading(self.lock_file),
            rustc_verbose: self.rustc_verbose@,
            workspace_file: reading(self.workspace_file),
        }
    }
}

/// What a command printed, as text without the white space around it.
pub open spec fn printed(stdout: Seq<u8>) -> Result<Seq<char>, ErrorModel> {
    match utf8_text(stdout) {
        Some(s) => Ok(trimmed(s)),
        None => Err(ErrorModel::Utf8(utf8_problem(stdout))),
    }
}

/// The texts of the arguments of a command.
pub open spec fn arg_texts(args: Seq<&'static str>) -> Seq<Seq<char>> {
    args.map_values(|a: &'static str| a@)
}

/// How a call of git is named in messages.
pub open spec fn git_label(args: Seq<&'static str>) -> Seq<char> {
    "git "@ + joined(arg_texts(args), " "@)
}

/// What a call of git printed.
pub open spec fn git_output(args: Seq<&'static str>, o: OutcomeModel) -> Result<
    Seq<char>,
    ErrorModel,
> {
    match o {
        OutcomeModel::NotStarted(e) => Err(
            ErrorModel::Git("could not run `"@ + git_label(args) + "`: "@ + e),
        ),
        OutcomeModel::Finished { success, status, stdout } => if !success {
            Err(ErrorModel::Git("`"@ + git_label(args) + "` exited with "@ + status))
        } else {
            printed(stdout)
        },
    }
}

/// The version that a tool printed of itself.
pub open spec fn tool_output(tool: Seq<char>, o: OutcomeModel) -> Result<Seq<char>, ErrorModel> {
    match o {
        OutcomeModel::NotStarted(e) => Err(ErrorModel::ToolVersion(tool, e)),
        OutcomeModel::Finished { success, status, stdout } => if !success {
            Err(ErrorModel::ToolVersion(tool, "exit "@ + status))
        } else {
            printed(stdout)
        },
    }
}

/// The host that the first line of the form `host: ..` names.
pub open spec fn host_among(list: Seq<Seq<char>>) -> Option<Seq<char>>
    decreases list.len(),
{
    if list.len() == 0 {
        None
    } else {
        match after_prefix(list[0], "host: "@) {
            Some(rest) => Some(trimmed(rest)),
            None => host_among(list.skip(1)),
        }
    }
}

/// The host that the compiler printed, whatever its exit status.
pub open spec fn host_of(o: OutcomeModel) -> Result<Seq<char>, ErrorModel> {
    match o {
        OutcomeModel::NotStarted(e) => Err(ErrorModel::ToolVersion("rustc -vV"@, e)),
        OutcomeModel::Finished { success, status, stdout } => match utf8_text(stdout) {
            None => Err(ErrorModel::Utf8(utf8_problem(stdout))),
            Some(s) => match host_among(line_list(s)) {
                Some(host) => Ok(host),
                None => Err(ErrorModel::HostParse(s)),
            },
        },
    }
}

/// The arguments with which git is asked for the revision.
pub open spec fn head_args() -> Seq<&'static str> {
    seq!["rev-parse", "HEAD"]
}

/// The arguments with which git is asked for the branch.
pub open spec fn branch_args() -> Seq<&'static str> {
    seq!["branch", "--show-current"]
}

/// The arguments with which git is asked for uncommitted changes.
pub open spec fn status_args() -> Seq<&'static str> {
    seq!["status", "--porcelain"]
}

/// The branch: none, where git could not tell it or named none, as on a detached head.
pub open spec fn branch_of(o: OutcomeModel) -> Option<Seq<char>> {
    match git_output(branch_args(), o) {
        Ok(name) => if name.len() > 0 {
            Some(name)
        } else {
            None
        },
        Err(_) => None,
    }
}

/// Revision, branch, and whether there are uncommitted changes.
pub open spec fn git_parts(
    head: OutcomeModel,
    branch: OutcomeModel,
    status: OutcomeModel,
) -> Result<(Seq<char>, Option<Seq<char>>, bool), ErrorModel> {
    match git_output(head_args(), head) {
        Err(e) => Err(e),
        Ok(revision) => match git_output(status_args(), status) {
            Err(e) => Err(e),
            Ok(changes) => Ok((revision, branch_of(branch), changes.len() > 0)),
        },
    }
}

/// The inputs of the build, or the first failure in the order: git, toolchain file, compiler,
/// cargo, lock file, host, profile.
pub open spec fn metadata_of(m: ReadingsModel) -> Result<MetadataModel, ErrorModel> {
    match git_parts(m.git_head, m.git_branch, m.git_status) {
        Err(e) => Err(e),
        Ok(git) => match channel_of_file(m.toolchain_file) {
            Err(e) => Err(e),
            Ok(channel) => match tool_output("rustc"@, m.rustc) {
                Err(e) => Err(e),
                Ok(rustc) => match tool_output("cargo"@, m.cargo) {
                    Err(e) => Err(e),
                    Ok(cargo) => match sdk_of_file(m.lock_file) {
                        Err(e) => Err(e),
                        Ok(sdk) => match host_of(m.rustc_verbose) {
                            Err(e) => Err(e),
                            Ok(host) => match profile_of_file(m.workspace_file) {
                                Err(e) => Err(e),
                                Ok(profile) => Ok(
                                    MetadataModel {
                                        git_revision: git.0,
                                        git_ref: git.1,
                                        git_dirty: git.2,
                                        toolchain_channel: channel,
                                        rustc,
                                        cargo,
                                        soroban_sdk: sdk,
                                        host,
                                        profile,
                                    },
                                ),
                            },
                        },
                    },
                },
            },
        },
    }
}

/// What a command printed, as text without the white space around it.
fn read_printed(stdout: &Vec<u8>) -> (r: Result<String, Error>)
    ensures
        match r {
            Ok(s) => printed(stdout@) == Ok::<Seq<char>, ErrorModel>(s@),
            Err(e) => printed(stdout@) == Err::<Seq<char>, ErrorModel>(e@),
        },
{
    let copy = stdout.clone();
    assert(copy@ =~= stdout@);
    match text_from_utf8(copy) {
        Ok(s) => Ok(trim(&s)),
        Err(problem) => Err(Error::Utf8(problem)),
    }
}

/// What a call of git printed.
pub fn run_git(args: &[&'static str], outcome: &CommandOutcome) -> (r: Result<String, Error>)
    ensures
        match r {
            Ok(s) => git_output(args@, outcome@) == Ok::<Seq<char>, ErrorModel>(s@),
            Err(e) => git_output(args@, outcome@) == Err::<Seq<char>, ErrorModel>(e@),
        },
{
    let mut words: Vec<String> = Vec::new();
    for i in 0..args.len()
        invariant
            words@.len() == i,
            forall|j: int| 0 <= j < i ==> (#[trigger] words@[j])@ == args@[j]@,
    {
        words.push(args[i].to_string());
    }
    assert(texts(words@) =~= arg_texts(args@));
    let label = two("git ", &join(&words, " "));
    match outcome {
        CommandOutcome::NotStarted(e) => {
            let mut text = two("could not run `", &label);
            text.append("`: ");
            text.append(e);
            Err(Error::Git(text))
        },
        CommandOutcome::Finished { success, status, stdout } => {
            if !*success {
                let mut text = two("`", &label);
                text.append("` exited with ");
                text.append(status);
                return Err(Error::Git(text));
            }
            read_printed(stdout)
        },
    }
}

/// The version that a tool printed of itself.
pub fn tool_version(tool: &str, outcome: &CommandOutcome) -> (r: Result<String, Error>)
    ensures
        match r {
            Ok(s) => tool_output(tool@, outcome@) == Ok::<Seq<char>, ErrorModel>(s@),
            Err(e) => tool_output(tool@, outcome@) == Err::<Seq<char>, ErrorModel>(e@),
        },
{
    match outcome {
        CommandOutcome::NotStarted(e) => Err(Error::ToolVersion(tool.to_string(), e.clone())),
        CommandOutcome::Finished { success, status, stdout } => {
            if !*success {
                return Err(Error::ToolVersion(tool.to_string(), two("exit ", status)));
            }
            read_printed(stdout)
        },
    }
}

/// The host that the compiler printed, whatever its exit status.
pub fn host_triple(outcome: &CommandOutcome) -> (r: Result<String, Error>)
    ensures
        match r {
            Ok(s) => host_of(outcome@) == Ok::<Seq<char>, ErrorModel>(s@),
            Err(e) => host_of(outcome@) == Err::<Seq<char>, ErrorModel>(e@),
        },
{
    match outcome {
        CommandOutcome::NotStarted(e) => Err(
            Error::ToolVersion("rustc -vV".to_string(), e.clone()),
        ),
        CommandOutcome::Finished { success: _, status: _, stdout } => {
            let copy = stdout.clone();
            assert(copy@ =~= stdout@);
            match text_from_utf8(copy) {
                Err(problem) => Err(Error::Utf8(problem)),
                Ok(s) => {
                    let list = lines(&s);
                    let ghost all = line_list(s@);
                    assert(all.skip(0) == all);
                    for i in 0..list.len()
                        invariant
                            texts(list@) == all,
                            utf8_text(stdout@) == Some(s@),
                            all == line_list(s@),
                            outcome@ is Finished,
                            outcome@->stdout == stdout@,
                            host_among(all) == host_among(all.skip(i as int)),
                    {
                        assert(list@[i as int]@ == all[i as int]);
                        assert(all.skip(i as int)[0] == all[i as int]);
                        assert(all.skip(i as int).skip(1) == all.skip(i + 1));
                        if let Some(rest) = strip_prefix(&list[i], "host: ") {
                            return Ok(trim(&rest));
                        }
                    }
                    Err(Error::HostParse(s))
                },
            }
        },
    }
}

/// Revision, branch, and whether there are uncommitted changes. The branch is context, not
/// identity: it may be missing.
pub fn git_metadata(
    head: &CommandOutcome,
    branch: &CommandOutcome,
    status: &CommandOutcome,
) -> (r: Result<(String, Option<String>, bool), Error>)
    ensures
        match r {
            Ok(v) => git_parts(head@, branch@, status@) == Ok::<
                (Seq<char>, Option<Seq<char>>, bool),
                ErrorModel,
            >((v.0@, optional(v.1), v.2)),
            Err(e) => git_parts(head@, branch@, status@) == Err::<
                (Seq<char>, Option<Seq<char>>, bool),
                ErrorModel,
            >(e@),
        },
{
    let head_words = ["rev-parse", "HEAD"];
    let branch_words = ["branch", "--show-current"];
    let status_words = ["status", "--porcelain"];
    assert(head_words@ =~= head_args());
    assert(branch_words@ =~= branch_args());
    assert(status_words@ =~= status_args());
    let revision = match run_git(&head_words, head) {
        Ok(s) => s,
        Err(e) => return Err(e),
    };
    let reference = match run_git(&branch_words, branch) {
        Ok(name) => if char_count(&name) > 0 {
            Some(name)
        } else {
            None
        },
        Err(_) => None,
    };
    match run_git(&status_words, status) {
        Ok(changes) => Ok((revision, reference, char_count(&changes) > 0)),
        Err(e) => Err(e),
    }
}

/// The inputs of the build, or the first failure.
pub fn collect_metadata(readings: &BuildReadings) -> (r: Result<BuildMetadata, Error>)
    ensures
        match r {
            Ok(meta) => metadata_of(readings@) == Ok::<MetadataModel, ErrorModel>(meta@),
            Err(e) => metadata_of(readings@) == Err::<MetadataModel, ErrorModel>(e@),
        },
{
    let (git_revision, git_ref, git_dirty) = match git_metadata(
        &readings.git_head,
        &readings.git_branch,
        &readings.git_status,
    ) {
        Ok(v) => v,
        Err(e) => return Err(e),
    };
    let channel = match toolchain_channel(&readings.toolchain_file) {
        Ok(v) => v,
        Err(e) => return Err(e),
    };
    let rustc = match tool_version("rustc", &readings.rustc) {
        Ok(v) => v,
        Err(e) => return Err(e),
    };
    let cargo = match tool_version("cargo", &readings.cargo) {
        Ok(v) => v,
        Err(e) => return Err(e),
    };
    let soroban_sdk = match soroban_sdk_version(&readings.lock_file) {
        Ok(v) => v,
        Err(e) => return Err(e),
    };
    let host = match host_triple(&readings.rustc_verbose) {
        Ok(v) => v,
        Err(e) => return Err(e),
    };
    let profile: Profile = match profile_from_workspace(&readings.workspace_file) {
        Ok(v) => v,
        Err(e) => return Err(e),
    };
    Ok(
        BuildMetadata {
            git_revision,
            git_ref,
            git_dirty,
            toolchain_channel: channel,
            rustc,
            cargo,
            soroban_sdk,
            host,
            profile,
        },
    )
}

} // verus!
