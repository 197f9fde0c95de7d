//! Extraction of launcher-internal tokens from the argument vector, and
//! resolution of the CAS-config directory.
//!
//! Two layers run before a command is assembled. The CAS-config flag and
//! its value are consumed wherever they stand, and the directory they (or
//! the environment) name is validated under the precedence rules. Then a
//! leading help or quiet token is consumed, and what remains is the
//! pass-through tail forwarded verbatim to the containerized tool.

use vstd::prelude::*;
use vstd::string::StrSliceExecFns;

use crate::LauncherError;
use crate::strutil::mount_frag;
use crate::strutil::spec_mount_frag;
use crate::strutil::opt_view;
use crate::strutil::str_eq;

verus! {

/// The command-line flag that names the CAS-config directory.
pub open spec fn spec_cas_flag() -> Seq<char> {
    "--cas-config"@
}

/// The in-container target of the CAS-config mount.
pub open spec fn spec_cas_target() -> Seq<char> {
    "/home/nonroot/.cas"@
}

/// The host directory mounted when no CAS-config directory is set.
pub open spec fn spec_default_cas_host() -> Seq<char> {
    "$HOME/.cas"@
}

/// The first position of the CAS flag in `args`, if it occurs at all.
pub open spec fn spec_flag_pos(args: Seq<String>) -> Option<int>
    decreases args.len(),
{
    if args.len() == 0 {
        None
    } else if args[0]@ == spec_cas_flag() {
        Some(0int)
    } else {
        match spec_flag_pos(args.drop_first()) {
            None => None,
            Some(i) => Some(i + 1),
        }
    }
}

/// The flag position, where present, is in range, names the flag, and is
/// the first occurrence.
pub proof fn lemma_flag_pos_props(args: Seq<String>)
    ensures
        match spec_flag_pos(args) {
            None => forall|j: int| 0 <= j < args.len() ==> (#[trigger] args[j])@ != spec_cas_flag(),
            Some(i) => 0 <= i < args.len() && args[i]@ == spec_cas_flag() && forall|j: int|
                0 <= j < i ==> (#[trigger] args[j])@ != spec_cas_flag(),
        },
    decreases args.len(),
{
    if args.len() == 0 {
    } else if args[0]@ == spec_cas_flag() {
    } else {
        lemma_flag_pos_props(args.drop_first());
        assert forall|j: int| 1 <= j < args.len() implies args.drop_first()[j - 1] == args[j] by {}
    }
}

/// A scan that saw no flag before `i`, and the flag at `i` if `i` is in
/// range, pins the spec-level position down.
proof fn lemma_flag_pos_of_scan(args: Seq<String>, i: int)
    requires
        0 <= i <= args.len(),
        forall|j: int| 0 <= j < i ==> (#[trigger] args[j])@ != spec_cas_flag(),
        i < args.len() ==> args[i]@ == spec_cas_flag(),
    ensures
        i < args.len() ==> spec_flag_pos(args) == Some(i),
        i == args.len() ==> spec_flag_pos(args) is None,
    decreases args.len(),
{
    if args.len() == 0 {
    } else if args[0]@ == spec_cas_flag() {
        assert(i == 0);
    } else {
        assert(i >= 1);
        assert forall|j: int| 0 <= j < i - 1 implies (#[trigger] args.drop_first()[j])@
            != spec_cas_flag() by {
            assert(args.drop_first()[j] == args[j + 1]);
        }
        assert(i - 1 < args.drop_first().len() ==> args.drop_first()[i - 1]@ == spec_cas_flag());
        lemma_flag_pos_of_scan(args.drop_first(), i - 1);
    }
}

/// What the argument list looks like once the flag and its value are
/// consumed; unchanged when the flag is absent or valueless.
pub open spec fn spec_cas_remaining(args: Seq<String>) -> Seq<String> {
    match spec_flag_pos(args) {
        None => args,
        Some(i) => if i + 1 < args.len() {
            args.subrange(0, i) + args.subrange(i + 2, args.len() as int)
        } else {
            args
        },
    }
}

/// The command-line value handed to the precedence rules, if the flag
/// occurs and a value follows it.
pub open spec fn spec_cli_value(args: Seq<String>) -> Option<Seq<char>> {
    match spec_flag_pos(args) {
        None => None,
        Some(i) => if i + 1 < args.len() {
            Some(args[i + 1]@)
        } else {
            None
        },
    }
}

/// The directory the precedence rules pick: a non-empty command-line value
/// wins, then a non-empty environment value; otherwise none.
pub open spec fn spec_chosen_dir(cli: Option<Seq<char>>, env: Option<Seq<char>>) -> Option<
    Seq<char>,
> {
    if cli matches Some(v) && v.len() > 0 {
        cli
    } else if env matches Some(e) && e.len() > 0 {
        env
    } else {
        None
    }
}

/// Outcome of CAS-config resolution, at the specification level.
pub enum CasOutcome {
    /// The flag stood last, with no value after it.
    MissingValue,
    /// A directory was supplied but is not absolute.
    Relative(Seq<char>),
    /// Resolution succeeded: the directory (if any), the mount directive,
    /// and the arguments left for the downstream tool.
    Resolved(Option<Seq<char>>, Seq<char>, Seq<String>),
}

/// Validation and mount choice for the directory the precedence rules
/// picked.
pub open spec fn spec_finish_cas(chosen: Option<Seq<char>>, remaining: Seq<String>) -> CasOutcome {
    match chosen {
        None => CasOutcome::Resolved(
            None,
            spec_mount_frag(spec_default_cas_host(), spec_cas_target()),
            remaining,
        ),
        Some(d) => if d[0] == '/' {
            CasOutcome::Resolved(Some(d), spec_mount_frag(d, spec_cas_target()), remaining)
        } else {
            CasOutcome::Relative(d)
        },
    }
}

/// The whole resolution: flag extraction, precedence, validation and mount
/// choice.
pub open spec fn spec_resolve_cas(args: Seq<String>, env: Option<Seq<char>>) -> CasOutcome {
    match spec_flag_pos(args) {
        Some(i) => if i + 1 >= args.len() {
            CasOutcome::MissingValue
        } else {
            spec_finish_cas(
                spec_chosen_dir(Some(args[i + 1]@), env),
                spec_cas_remaining(args),
            )
        },
        None => spec_finish_cas(spec_chosen_dir(None, env), args),
    }
}

/// The result of a successful CAS-config resolution.
pub struct CasResolution {
    /// The resolved absolute directory; `None` when neither source set one.
    pub directory: Option<String>,
    /// The mount directive that binds the chosen host directory.
    pub mount: String,
    /// The argument vector with the flag and its value removed.
    pub remaining: Vec<String>,
}

impl CasResolution {
    /// View of the resolved directory.
    pub open spec fn spec_directory(&self) -> Option<Seq<char>> {
        match self.directory {
            None => None,
            Some(d) => Some(d@),
        }
    }
}

/// Precedence and validation once the command-line value is known.
fn finish_cas(cli: Option<String>, env: Option<&str>, remaining: Vec<String>) -> (r: Result<
    CasResolution,
    LauncherError,
>)
    ensures
        ({
            let out = spec_finish_cas(
                spec_chosen_dir(
                    match cli {
                        None => None,
                        Some(v) => Some(v@),
                    },
                    opt_view(env),
                ),
                remaining@,
            );
            &&& (r matches Ok(res) ==> out == CasOutcome::Resolved(
                res.spec_directory(),
                res.mount@,
                res.remaining@,
            ))
            &&& (r is Err <==> out is Relative)
            &&& (r is Err ==> r == Err::<CasResolution, LauncherError>(
                LauncherError::RelativeCasPath,
            ))
        }),
{
    let env_dir: Option<String> = match env {
        Some(e) => if e.unicode_len() > 0 {
            Some(e.to_owned())
        } else {
            None
        },
        None => None,
    };
    let chosen: Option<String> = match cli {
        Some(v) => if v.as_str().unicode_len() > 0 {
            Some(v)
        } else {
            env_dir
        },
        None => env_dir,
    };
    match chosen {
        None => Ok(
            CasResolution {
                directory: None,
                mount: mount_frag("$HOME/.cas", "/home/nonroot/.cas"),
                remaining,
            },
        ),
        Some(d) => {
            if d.as_str().get_char(0) == '/' {
                let mount = mount_frag(d.as_str(), "/home/nonroot/.cas");
                Ok(CasResolution { directory: Some(d), mount, remaining })
            } else {
                Err(LauncherError::RelativeCasPath)
            }
        },
    }
}

/// Scans the arguments for the CAS-config flag, removes it together with
/// its value, applies the precedence rules against the environment value,
/// and validates what they picked.
///
/// A relative directory is rejected here, before any filesystem work: the
/// caller provisions the resolved directory only on a successful return.
pub fn extract_cas_config_dir_and_volume(args: Vec<String>, cas_env: Option<&str>) -> (r: Result<
    CasResolution,
    LauncherError,
>)
    ensures
        r matches Ok(res) ==> spec_resolve_cas(args@, opt_view(cas_env)) == CasOutcome::Resolved(
            res.spec_directory(),
            res.mount@,
            res.remaining@,
        ),
        r == Err::<CasResolution, LauncherError>(LauncherError::MissingFlagValue)
            <==> spec_resolve_cas(args@, opt_view(cas_env)) is MissingValue,
        r == Err::<CasResolution, LauncherError>(LauncherError::RelativeCasPath)
            <==> spec_resolve_cas(args@, opt_view(cas_env)) is Relative,
        r is Err ==> (r == Err::<CasResolution, LauncherError>(LauncherError::MissingFlagValue)
            || r == Err::<CasResolution, LauncherError>(LauncherError::RelativeCasPath)),
{
    let n = args.len();
    let mut i: usize = 0;
    while i < n && !str_eq(args[i].as_str(), "--cas-config")
        invariant
            n == args@.len(),
            i <= n,
            forall|j: int| 0 <= j < i ==> (#[trigger] args@[j])@ != spec_cas_flag(),
        decreases n - i,
    {
        i = i + 1;
    }
    proof {
        lemma_flag_pos_of_scan(args@, i as int);
    }
    if i < n {
        if i + 1 >= n {
            return Err(LauncherError::MissingFlagValue);
        }
        let value = args[i + 1].clone();
        let mut remaining: Vec<String> = Vec::new();
        let mut j: usize = 0;
        while j < i
            invariant
                j <= i,
                i + 1 < n,
                n == args@.len(),
                remaining@ == args@.subrange(0, j as int),
            decreases i - j,
        {
            remaining.push(args[j].clone());
            j = j + 1;
            proof {
                assert(remaining@ =~= args@.subrange(0, j as int));
            }
        }
        let mut k: usize = i + 2;
        while k < n
            invariant
                i + 1 < n,
                n == args@.len(),
                i + 2 <= k <= n,
                remaining@ == args@.subrange(0, i as int) + args@.subrange(i + 2, k as int),
            decreases n - k,
        {
            remaining.push(args[k].clone());
            k = k + 1;
            proof {
                assert(remaining@ =~= args@.subrange(0, i as int) + args@.subrange(
                    i + 2,
                    k as int,
                ));
            }
        }
        proof {
            assert(remaining@ =~= spec_cas_remaining(args@));
        }
        finish_cas(Some(value), cas_env, remaining)
    } else {
        finish_cas(None, cas_env, args)
    }
}

/// Outcome of the pass-through split, at the specification level.
pub enum SplitOutcome {
    /// A leading help token: show help and exit successfully.
    Help,
    /// Nothing is left to forward: a command must be specified.
    MissingCommand,
    /// Run: whether progress display is off, and the forwarded tokens.
    Run(bool, Seq<String>),
}

/// How the vector splits: a help token right after the program name
/// short-circuits; a quiet token there is consumed; every further token is
/// forwarded in order, and an empty tail is a usage error.
pub open spec fn spec_split_args(args: Seq<String>) -> SplitOutcome {
    if args.len() >= 2 && args[1]@ == "--help"@ {
        SplitOutcome::Help
    } else {
        let quiet = args.len() >= 2 && args[1]@ == "--quiet"@;
        let start: int = if quiet {
            2
        } else {
            1
        };
        if args.len() <= start {
            SplitOutcome::MissingCommand
        } else {
            SplitOutcome::Run(quiet, args.skip(start))
        }
    }
}

/// The pass-through tail and the flags consumed ahead of it.
pub struct PassThrough {
    /// Progress display disabled by a leading quiet token.
    pub quiet: bool,
    /// Tokens forwarded verbatim, in their original order.
    pub tokens: Vec<String>,
}

/// What the launcher does with its argument vector.
pub enum ArgDisposition {
    /// Show the help text and exit successfully.
    ShowHelp,
    /// Run the command the pass-through tokens name.
    Run(PassThrough),
}

/// Splits the argument vector (program name first, CAS flag already
/// removed) into consumed leading flags and the pass-through tail.
pub fn split_pass_through(args: &Vec<String>) -> (r: Result<ArgDisposition, LauncherError>)
    ensures
        spec_split_args(args@) is Help <==> r matches Ok(ArgDisposition::ShowHelp),
        spec_split_args(args@) is MissingCommand <==> r == Err::<ArgDisposition, LauncherError>(
            LauncherError::MissingCommand,
        ),
        r is Err ==> spec_split_args(args@) is MissingCommand,
        r matches Ok(ArgDisposition::Run(p)) ==> spec_split_args(args@) == SplitOutcome::Run(
            p.quiet,
            p.tokens@,
        ),
{
    let n = args.len();
    if n >= 2 && str_eq(args[1].as_str(), "--help") {
        return Ok(ArgDisposition::ShowHelp);
    }
    let quiet = n >= 2 && str_eq(args[1].as_str(), "--quiet");
    let start: usize = if quiet {
        2
    } else {
        1
    };
    if n <= start {
        return Err(LauncherError::MissingCommand);
    }
    let mut tokens: Vec<String> = Vec::new();
    let mut j: usize = start;
    while j < n
        invariant
            start <= j <= n,
            n == args@.len(),
            tokens@ == args@.subrange(start as int, j as int),
        decreases n - j,
    {
        tokens.push(args[j].clone());
        j = j + 1;
        proof {
            assert(tokens@ =~= args@.subrange(start as int, j as int));
        }
    }
    proof {
        assert(tokens@ =~= args@.skip(start as int));
    }
    Ok(ArgDisposition::Run(PassThrough { quiet, tokens }))
}

/// Argument extraction is a partition: the tokens the launcher consumes and
/// the pass-through tokens together are exactly the input, and the
/// pass-through tail keeps its original relative order.
pub proof fn lemma_arg_partition(args: Seq<String>)
    ensures
        match spec_flag_pos(args) {
            Some(i) => i + 1 < args.len() ==> args =~= spec_cas_remaining(args).subrange(0, i)
                + args.subrange(i, i + 2) + spec_cas_remaining(args).skip(i),
            None => spec_cas_remaining(args) == args,
        },
        spec_split_args(args) matches SplitOutcome::Run(quiet, toks) ==> args =~= args.subrange(
            0,
            if quiet {
                2int
            } else {
                1int
            },
        ) + toks,
{
    lemma_flag_pos_props(args);
    match spec_flag_pos(args) {
        Some(i) => {
            if i + 1 < args.len() {
                let rem = spec_cas_remaining(args);
                assert(rem.subrange(0, i) =~= args.subrange(0, i));
                assert(rem.skip(i) =~= args.subrange(i + 2, args.len() as int));
            }
        },
        None => {},
    }
}

/// The directories that exist after one provisioning pass over `dir`.
pub open spec fn spec_dirs_after(existing: Set<Seq<char>>, dir: Seq<char>) -> Set<Seq<char>> {
    existing.insert(dir)
}

/// Whether a provisioning pass over `dir` must create it.
pub open spec fn spec_must_create(existing: Set<Seq<char>>, dir: Seq<char>) -> bool {
    !existing.contains(dir)
}

/// Provisioning the same absolute directory twice is idempotent: after the
/// first pass the directory exists, so a second pass creates nothing — and
/// a pass that creates nothing cannot fail.
pub proof fn lemma_provision_idempotent(existing: Set<Seq<char>>, dir: Seq<char>)
    ensures
        !spec_must_create(spec_dirs_after(existing, dir), dir),
        spec_dirs_after(spec_dirs_after(existing, dir), dir) == spec_dirs_after(existing, dir),
{
    assert(spec_dirs_after(spec_dirs_after(existing, dir), dir) =~= spec_dirs_after(
        existing,
        dir,
    ));
}

/// CAS directory precedence: when the command line carries the flag with a
/// non-empty value, the command line wins over whatever the environment
/// says, and the flag together with its value is gone from the remaining
/// arguments.
pub proof fn lemma_cas_cli_precedence(args: Seq<String>, env: Option<Seq<char>>, i: int)
    requires
        spec_flag_pos(args) == Some(i),
        i + 1 < args.len(),
        args[i + 1]@.len() > 0,
    ensures
        spec_cli_value(args) == Some(args[i + 1]@),
        match spec_resolve_cas(args, env) {
            CasOutcome::Resolved(dir, _mount, remaining) => dir == Some(args[i + 1]@) && remaining
                == args.subrange(0, i) + args.subrange(i + 2, args.len() as int),
            CasOutcome::Relative(d) => d == args[i + 1]@,
            CasOutcome::MissingValue => false,
        },
{
    lemma_flag_pos_props(args);
}

/// A relative path from either source is rejected, and the rejection
/// precedes any filesystem mutation: a `Relative` outcome carries no
/// resolved directory that a caller would create.
pub proof fn lemma_cas_relative_rejected(args: Seq<String>, env: Option<Seq<char>>)
    requires
        spec_flag_pos(args) matches Some(i) ==> i + 1 < args.len(),
        match spec_chosen_dir(spec_cli_value(args), env) {
            Some(d) => d[0] != '/',
            None => false,
        },
    ensures
        spec_resolve_cas(args, env) is Relative,
{
    lemma_flag_pos_props(args);
}

} // verus!
