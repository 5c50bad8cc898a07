//! The command line of the provenance tool.
use crate::failure::{error_text, Error};
use crate::manifest::{optional, Manifest, ManifestModel, DEFAULT_TARGET};
use crate::text::{
    chars_of, decimal, decimal_text, lemma_until, lemma_until_is, parts_around, same_text,
    split_once, string_of, texts, two,
};
use vstd::prelude::*;

verus! {

/// How the tool is used.
pub const USAGE: &'static str = "fluxora-provenance — wasm provenance for Fluxora contract releases

Usage:
  fluxora-provenance generate <release-dir> [--manifest <path>] [--workspace-root <dir>] [--target <triple>]
  fluxora-provenance verify   <release-dir> [--manifest <path>] [--workspace-root <dir>] [--target <triple>]
  fluxora-provenance help

Commands:
  generate   Hash every *.wasm in <release-dir> and write provenance.json and
             SHASUMS next to the artifacts.
  verify     Re-hash the artifacts and compare against provenance.json; exit
             non-zero on any mismatch. This is the release gate.

Options:
  --manifest <path>       Manifest path (default: <release-dir>/provenance.json).
  --workspace-root <dir>  Workspace root to read toolchain, sdk, profile and git
                          from (default: discovered by walking up from <release-dir>).
  --target <triple>       Wasm target triple recorded and checked
                          (default: wasm32v1-none, per rust-toolchain.toml).

Exit codes:
  0  success
  1  generation or verification failed
  2  usage error
";

/// What a run works on.
#[derive(Debug, PartialEq, Eq)]
pub struct Options {
    pub release_dir: String,
    pub manifest: Option<String>,
    pub workspace_root: Option<String>,
    pub target: String,
}

/// What the arguments ask for.
#[derive(Debug, PartialEq, Eq)]
pub enum Request {
    /// To show how the tool is used.
    Usage,
    /// Nothing that can be done: this text goes to the error output.
    Refused(String),
    /// To generate provenance.
    Generate(Options),
    /// To verify provenance.
    Verify(Options),
}

/// The mathematical value of an `Options`.
#[verifier::ext_equal]
pub struct OptionsModel {
    pub release_dir: Seq<char>,
    pub manifest: Option<Seq<char>>,
    pub workspace_root: Option<Seq<char>>,
    pub target: Seq<char>,
}

/// The mathematical value of a `Request`.
#[verifier::ext_equal]
pub enum RequestModel {
    Usage,
    Refused(Seq<char>),
    Generate(OptionsModel),
    Verify(OptionsModel),
}

impl View for Options {
    type V = OptionsModel;

    open spec fn view(&self) -> OptionsModel {
        OptionsModel {
            release_dir: self.release_dir@,
            manifest: optional(self.manifest),
            workspace_root: optional(self.workspace_root),
            target: self.target@,
        }
    }
}

impl View for Request {
    type V = RequestModel;

    open spec fn view(&self) -> RequestModel {
        match self {
            Request::Usage => RequestModel::Usage,
            Request::Refused(text) => RequestModel::Refused(text@),
            Request::Generate(options) => RequestModel::Generate(options@),
            Request::Verify(options) => RequestModel::Verify(options@),
        }
    }
}

/// What the arguments have set so far.
#[verifier::ext_equal]
pub struct SeenModel {
    pub release_dir: Option<Seq<char>>,
    pub manifest: Option<Seq<char>>,
    pub workspace_root: Option<Seq<char>>,
    pub target: Seq<char>,
}

/// What the arguments have set so far.
struct Seen {
    release_dir: Option<String>,
    manifest: Option<String>,
    workspace_root: Option<String>,
    target: String,
}

impl View for Seen {
    type V = SeenModel;

    closed spec fn view(&self) -> SeenModel {
        SeenModel {
            release_dir: optional(self.release_dir),
            manifest: optional(self.manifest),
            workspace_root: optional(self.workspace_root),
            target: self.target@,
        }
    }
}

/// What the error output gets: what is wrong, an empty line, and how the tool is used.
pub open spec fn refusal(problem: Seq<char>) -> RequestModel {
    RequestModel::Refused("fluxora-provenance: "@ + problem + "\n\n"@ + USAGE@)
}

/// The argument asks how the tool is used.
pub open spec fn asks_usage(arg: Seq<char>) -> bool {
    arg == "-h"@ || arg == "--help"@
}

/// The key of an option that takes a value.
pub open spec fn takes_value(key: Seq<char>) -> bool {
    key == "--manifest"@ || key == "--workspace-root"@ || key == "--target"@
}

/// An argument of the form `key=value`, taken apart at the first equals sign.
pub open spec fn key_and_value(arg: Seq<char>) -> (Seq<char>, Option<Seq<char>>) {
    match parts_around(arg, '=') {
        Some((key, value)) => (key, Some(value)),
        None => (arg, None),
    }
}

/// What is set after the option `key` got the value `value`.
pub open spec fn with_option(seen: SeenModel, key: Seq<char>, value: Seq<char>) -> SeenModel {
    if key == "--manifest"@ {
        SeenModel { manifest: Some(value), ..seen }
    } else if key == "--workspace-root"@ {
        SeenModel { workspace_root: Some(value), ..seen }
    } else {
        SeenModel { target: value, ..seen }
    }
}

/// What the arguments ask for, where those before them have set `seen`.
pub open spec fn asked(args: Seq<Seq<char>>, seen: SeenModel, generate: bool) -> RequestModel
    decreases args.len(),
{
    if args.len() == 0 {
        match seen.release_dir {
            None => refusal("missing <release-dir>"@),
            Some(release_dir) => {
                let options = OptionsModel {
                    release_dir,
                    manifest: seen.manifest,
                    workspace_root: seen.workspace_root,
                    target: seen.target,
                };
                if generate {
                    RequestModel::Generate(options)
                } else {
                    RequestModel::Verify(options)
                }
            },
        }
    } else if asks_usage(args[0]) {
        RequestModel::Usage
    } else {
        let (key, inline) = key_and_value(args[0]);
        if takes_value(key) {
            match inline {
                Some(value) => asked(args.skip(1), with_option(seen, key, value), generate),
                None => if args.len() > 1 {
                    asked(args.skip(2), with_option(seen, key, args[1]), generate)
                } else {
                    refusal("option '"@ + key + "' requires a value"@)
                },
            }
        } else if key.len() > 0 && key[0] == '-' {
            refusal("unknown option '"@ + key + "'"@)
        } else if seen.release_dir is Some {
            refusal("unexpected argument '"@ + key + "'"@)
        } else {
            asked(args.skip(1), SeenModel { release_dir: Some(args[0]), ..seen }, generate)
        }
    }
}

/// What is set before any argument.
pub open spec fn nothing_seen() -> SeenModel {
    SeenModel {
        release_dir: None,
        manifest: None,
        workspace_root: None,
        target: DEFAULT_TARGET@,
    }
}

/// What a command line, without the name of the program, asks for.
pub open spec fn requested(argv: Seq<Seq<char>>) -> RequestModel {
    if argv.len() == 0 {
        RequestModel::Refused(USAGE@)
    } else if asks_usage(argv[0]) || argv[0] == "help"@ {
        RequestModel::Usage
    } else if argv[0] == "generate"@ {
        asked(argv.skip(1), nothing_seen(), true)
    } else if argv[0] == "verify"@ {
        asked(argv.skip(1), nothing_seen(), false)
    } else {
        refusal("unknown command '"@ + argv[0] + "'"@)
    }
}

/// An option may get its value in the same argument, behind an equals sign, or in the next one:
/// it comes to the same.
pub proof fn inline_value_is_the_same(
    key: Seq<char>,
    value: Seq<char>,
    rest: Seq<Seq<char>>,
    seen: SeenModel,
    generate: bool,
)
    requires
        takes_value(key),
    ensures
        asked(seq![key + "="@ + value] + rest, seen, generate) == asked(
            seq![key, value] + rest,
            seen,
            generate,
        ),
{
    reveal_strlit("=");
    reveal_strlit("--manifest");
    reveal_strlit("--workspace-root");
    reveal_strlit("--target");
    reveal_strlit("-h");
    reveal_strlit("--help");
    let arg = key + "="@ + value;
    let n = key.len() as int;
    assert(arg[n] == '=');
    assert forall|i: int| 0 <= i < n implies arg[i] != '=' by {
        assert(arg[i] == key[i]);
    }
    lemma_until_is(arg, '=', n);
    assert(arg.take(n) =~= key);
    assert(arg.skip(n + 1) =~= value);
    assert forall|i: int| 0 <= i < n implies key[i] != '=' by {}
    lemma_until_is(key, '=', n);
    assert(!asks_usage(arg)) by {
        assert(arg.len() > 6);
    }
    assert(!asks_usage(key)) by {
        assert(key.len() > 6);
    }
    assert((seq![arg] + rest).skip(1) =~= rest);
    assert((seq![key, value] + rest).skip(2) =~= rest);
    assert((seq![arg] + rest)[0] == arg);
    assert((seq![key, value] + rest)[0] == key);
    assert((seq![key, value] + rest)[1] == value);
}

/// An argument that does not start with a hyphen is the release directory as it stands, whatever
/// characters it holds.
pub proof fn directory_is_taken_as_given(arg: Seq<char>, generate: bool)
    requires
        arg.len() == 0 || arg[0] != '-',
    ensures
        asked(seq![arg], nothing_seen(), generate) == {
            let options = OptionsModel {
                release_dir: arg,
                manifest: None,
                workspace_root: None,
                target: DEFAULT_TARGET@,
            };
            if generate {
                RequestModel::Generate(options)
            } else {
                RequestModel::Verify(options)
            }
        },
{
    reveal_strlit("--manifest");
    reveal_strlit("--workspace-root");
    reveal_strlit("--target");
    reveal_strlit("-h");
    reveal_strlit("--help");
    lemma_until(arg, '=');
    let key = key_and_value(arg).0;
    assert(key.len() > 0 ==> key[0] == arg[0]);
    let given = SeenModel { release_dir: Some(arg), ..nothing_seen() };
    assert(seq![arg].skip(1).len() == 0);
    assert(asked(seq![arg].skip(1), given, generate) == asked(seq![arg], nothing_seen(), generate));
}

/// What the error output gets: what is wrong, an empty line, and how the tool is used.
fn refuse(before: &str, middle: &str, after: &str) -> (r: Request)
    ensures
        r@ == refusal(before@ + middle@ + after@),
{
    let mut text = two("fluxora-provenance: ", before);
    text.append(middle);
    text.append(after);
    text.append("\n\n");
    text.append(USAGE);
    assert(text@ =~= "fluxora-provenance: "@ + (before@ + middle@ + after@) + "\n\n"@ + USAGE@);
    Request::Refused(text)
}

/// An argument of the form `key=value`, taken apart at the first equals sign.
fn split_argument(arg: &str) -> (r: (String, Option<String>))
    ensures
        (r.0@, optional(r.1)) == key_and_value(arg@),
{
    match split_once(arg, '=') {
        Some((key, value)) => (key, Some(value)),
        None => (arg.to_string(), None),
    }
}

/// Whether a text starts with a hyphen.
fn starts_with_hyphen(s: &str) -> (r: bool)
    ensures
        r == (s@.len() > 0 && s@[0] == '-'),
{
    let chars = chars_of(s);
    chars.len() > 0 && chars[0] == '-'
}

/// What the arguments of a command ask for.
pub fn dispatch(rest: &[String], is_generate: bool) -> (r: Request)
    ensures
        r@ == asked(texts(rest@), nothing_seen(), is_generate),
{
    let ghost all = texts(rest@);
    let len: usize = rest.len();
    let mut seen = Seen {
        release_dir: None,
        manifest: None,
        workspace_root: None,
        target: DEFAULT_TARGET.to_string(),
    };
    let mut i: usize = 0;
    assert(all.skip(0) == all);
    while i < len
        invariant
            all == texts(rest@),
            len == rest@.len(),
            i <= len,
            asked(all, nothing_seen(), is_generate) == asked(
                all.skip(i as int),
                seen@,
                is_generate,
            ),
        decreases len - i,
    {
        let arg: &str = &rest[i];
        let ghost left = all.skip(i as int);
        assert(left[0] == arg@);
        assert(left.skip(1) == all.skip(i + 1));
        if same_text(arg, "-h") || same_text(arg, "--help") {
            return Request::Usage;
        }
        let (key, inline) = split_argument(arg);
        let is_manifest = same_text(&key, "--manifest");
        let is_root = same_text(&key, "--workspace-root");
        if is_manifest || is_root || same_text(&key, "--target") {
            let value = match inline {
                Some(value) => value,
                None => {
                    i = i + 1;
                    if i >= len {
                        return refuse("option '", &key, "' requires a value");
                    }
                    assert(left[1] == rest@[i as int]@);
                    assert(left.skip(2) == all.skip(i + 1));
                    rest[i].clone()
                },
            };
            let ghost before = seen@;
            if is_manifest {
                seen.manifest = Some(value);
            } else if is_root {
                seen.workspace_root = Some(value);
            } else {
                seen.target = value;
            }
            assert(seen@ == with_option(before, key@, value@));
        } else if starts_with_hyphen(&key) {
            return refuse("unknown option '", &key, "'");
        } else if seen.release_dir.is_some() {
            return refuse("unexpected argument '", &key, "'");
        } else {
            seen.release_dir = Some(arg.to_string());
        }
        i = i + 1;
    }
    assert(all.skip(len as int).len() == 0);
    match seen.release_dir {
        None => {
            let r = refuse("missing <release-dir>", "", "");
            proof {
                reveal_strlit("");
                assert("missing <release-dir>"@ + ""@ + ""@ =~= "missing <release-dir>"@);
            }
            r
        },
        Some(release_dir) => {
            let options = Options {
                release_dir,
                manifest: seen.manifest,
                workspace_root: seen.workspace_root,
                target: seen.target,
            };
            if is_generate {
                Request::Generate(options)
            } else {
                Request::Verify(options)
            }
        },
    }
}

/// What a command line, without the name of the program, asks for.
pub fn parse_command_line(argv: &[String]) -> (r: Request)
    ensures
        r@ == requested(texts(argv@)),
{
    if argv.len() == 0 {
        return Request::Refused(USAGE.to_string());
    }
    let command: &str = &argv[0];
    assert(texts(argv@)[0] == command@);
    if same_text(command, "-h") || same_text(command, "--help") || same_text(command, "help") {
        return Request::Usage;
    }
    let rest = vstd::slice::slice_subrange(argv, 1, argv.len());
    assert(texts(rest@) =~= texts(argv@).skip(1));
    if same_text(command, "generate") {
        dispatch(rest, true)
    } else if same_text(command, "verify") {
        dispatch(rest, false)
    } else {
        refuse("unknown command '", command, "'")
    }
}

/// The first characters of a text, at most `n` of them.
pub open spec fn shortened(s: Seq<char>, n: int) -> Seq<char> {
    if s.len() <= n {
        s
    } else {
        s.take(n)
    }
}

/// What is said of a manifest that was generated.
pub open spec fn generated_text(m: ManifestModel) -> Seq<char> {
    "wrote "@ + m.schema + " for "@ + decimal(m.subject.len()) + " artifact(s), target "@ + m.target
        + ", git "@ + shortened(m.inputs.git_revision, 8)
}

/// What is said of a manifest that was verified.
pub open spec fn verified_text(count: nat) -> Seq<char> {
    "verified "@ + decimal(count) + " artifact(s) against the manifest"@
}

/// The line that a run ends with where it succeeded.
pub open spec fn success_text(summary: Seq<char>) -> Seq<char> {
    "fluxora-provenance: "@ + summary
}

/// The line that a run ends with where it failed.
pub open spec fn failure_text(problem: Seq<char>) -> Seq<char> {
    "fluxora-provenance: FAILED: "@ + problem
}

/// What is said of a manifest that was generated.
pub fn generated_line(manifest: &Manifest) -> (r: String)
    ensures
        r@ == success_text(generated_text(manifest@)),
{
    let revision = chars_of(&manifest.build.git_revision);
    let short = if revision.len() <= 8 {
        string_of(&revision)
    } else {
        string_of(vstd::slice::slice_subrange(&revision, 0, 8))
    };
    assert(short@ =~= shortened(manifest@.inputs.git_revision, 8));
    assert(manifest@.subject.len() == manifest.subject@.len());
    let mut r = two("fluxora-provenance: ", "wrote ");
    r.append(&manifest.schema);
    r.append(" for ");
    r.append(&decimal_text(manifest.subject.len() as u128));
    r.append(" artifact(s), target ");
    r.append(&manifest.build.target);
    r.append(", git ");
    r.append(&short);
    assert(r@ =~= success_text(generated_text(manifest@)));
    r
}

/// What is said of a manifest that was verified.
pub fn verified_line(count: usize) -> (r: String)
    ensures
        r@ == success_text(verified_text(count as nat)),
{
    let mut r = two("fluxora-provenance: ", "verified ");
    r.append(&decimal_text(count as u128));
    r.append(" artifact(s) against the manifest");
    assert(r@ =~= success_text(verified_text(count as nat)));
    r
}

/// What is said of a run that failed.
pub fn failure_line(error: &Error) -> (r: String)
    ensures
        r@ == failure_text(error_text(error@)),
{
    two("fluxora-provenance: FAILED: ", &error.message())
}

} // verus!
