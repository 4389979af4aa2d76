//! The arguments of the `pam mobile` commands. Paths are positions in the
//! argument list; `None` stands for the current directory.

use vstd::prelude::*;
use crate::cli::Argument;
use crate::text::{concat_str, str_eq, debug_quoted};
use crate::mobile::{AndroidAbi, BuildMode, default_abis, valid_pascal_name, is_pascal_name};

verus! {

/// The options of the build commands: project, build mode and ABIs.
pub struct MobileOptions {
    pub project: Option<usize>,
    pub mode: BuildMode,
    pub abis: Vec<AndroidAbi>,
}

/// The ABI an Android name or alias stands for.
pub open spec fn abi_named(v: Seq<char>) -> Option<AndroidAbi> {
    if v == "arm64-v8a"@ || v == "arm64"@ || v == "aarch64"@ {
        Some(AndroidAbi::Arm64)
    } else if v == "x86_64"@ || v == "x64"@ {
        Some(AndroidAbi::X86_64)
    } else {
        None
    }
}

/// The ABIs with `abi` added, unless it is there already.
pub open spec fn with_abi(abis: Seq<AndroidAbi>, abi: AndroidAbi) -> Seq<AndroidAbi> {
    if abis.contains(abi) {
        abis
    } else {
        abis.push(abi)
    }
}

/// What the build options read from `args[i..]` give on top of `st`: the
/// project's position, the mode and the ABIs asked for so far.
pub open spec fn mobile_scan(
    args: Seq<Argument>,
    i: int,
    st: (Option<usize>, BuildMode, Seq<AndroidAbi>),
    allow_release: bool,
) -> Result<(Option<usize>, BuildMode, Seq<AndroidAbi>), Seq<char>>
    decreases args.len() - i,
{
    if i < 0 || i >= args.len() {
        Ok(st)
    } else {
        let w = args[i].text@;
        if w == "--release"@ {
            if allow_release {
                mobile_scan(args, i + 1, (st.0, BuildMode::Release, st.2), allow_release)
            } else {
                Err("`pam mobile dev` only supports debug builds"@)
            }
        } else if w == "--abi"@ {
            if i + 1 >= args.len() {
                Err("--abi requires arm64-v8a or x86_64"@)
            } else {
                match abi_named(args[i + 1].text@) {
                    None => Err(
                        "unsupported Android ABI "@ + debug_quoted(args[i + 1].text@)
                            + "; expected arm64-v8a or x86_64"@,
                    ),
                    Some(abi) => mobile_scan(args, i + 2, (st.0, st.1, with_abi(st.2, abi)), allow_release),
                }
            }
        } else if w.len() > 0 && w[0] == '-' {
            Err("unknown mobile option "@ + w)
        } else if st.0 is None {
            mobile_scan(args, i + 1, (Some(i as usize), st.1, st.2), allow_release)
        } else {
            Err("mobile commands accept at most one project directory"@)
        }
    }
}

/// What the build options give: as read, with both ABIs where none is asked
/// for.
pub open spec fn mobile_request(args: Seq<Argument>, allow_release: bool) -> Result<
    (Option<usize>, BuildMode, Seq<AndroidAbi>),
    Seq<char>,
> {
    match mobile_scan(args, 0, (None, BuildMode::Debug, Seq::empty()), allow_release) {
        Err(e) => Err(e),
        Ok((project, mode, abis)) => Ok(
            (
                project,
                mode,
                if abis.len() == 0 {
                    seq![AndroidAbi::Arm64, AndroidAbi::X86_64]
                } else {
                    abis
                },
            ),
        ),
    }
}

fn add_abi(abis: &mut Vec<AndroidAbi>, abi: AndroidAbi)
    ensures
        final(abis)@ == with_abi(old(abis)@, abi),
{
    let mut i: usize = 0;
    while i < abis.len()
        invariant
            i <= abis@.len(),
            forall|k: int| 0 <= k < i ==> abis@[k] != abi,
        decreases abis.len() - i,
    {
        if abis[i] == abi {
            assert(abis@.contains(abi)) by {
                assert(abis@[i as int] == abi);
            }
            return;
        }
        i = i + 1;
    }
    abis.push(abi);
}

/// Reads the options of `pam mobile build` (`allow_release`) and
/// `pam mobile dev`.
pub fn parse_mobile_options(args: &Vec<Argument>, allow_release: bool) -> (r: Result<MobileOptions, String>)
    ensures
        match (r, mobile_request(args@, allow_release)) {
            (Ok(o), Ok((project, mode, abis))) => o.project == project && o.mode == mode && o.abis@ == abis,
            (Err(e), Err(m)) => e@ == m,
            _ => false,
        },
{
    let mut project: Option<usize> = None;
    let mut mode = BuildMode::Debug;
    let mut abis: Vec<AndroidAbi> = Vec::new();
    let n = args.len();
    let mut i: usize = 0;
    while i < n
        invariant
            n == args@.len(),
            i <= n + 1,
            mobile_scan(args@, 0, (None, BuildMode::Debug, Seq::empty()), allow_release) == mobile_scan(
                args@,
                i as int,
                (project, mode, abis@),
                allow_release,
            ),
        decreases n + 1 - i,
    {
        let w = args[i].text.as_str();
        if str_eq(w, "--release") {
            if !allow_release {
                return Err(String::from_str("`pam mobile dev` only supports debug builds"));
            }
            mode = BuildMode::Release;
            i = i + 1;
        } else if str_eq(w, "--abi") {
            if i + 1 >= n {
                return Err(String::from_str("--abi requires arm64-v8a or x86_64"));
            }
            match AndroidAbi::parse(args[i + 1].text.as_str()) {
                Err(e) => {
                    return Err(e);
                },
                Ok(abi) => {
                    proof {
                        reveal_strlit("arm64-v8a");
                        reveal_strlit("arm64");
                        reveal_strlit("aarch64");
                        reveal_strlit("x86_64");
                        reveal_strlit("x64");
                        assert("arm64-v8a"@.len() == 9 && "arm64"@.len() == 5 && "aarch64"@.len() == 7);
                        assert("x86_64"@.len() == 6 && "x64"@.len() == 3);
                        assert(abi_named(args@[i + 1].text@) == Some(abi));
                    }
                    add_abi(&mut abis, abi);
                    i = i + 2;
                },
            }
        } else if w.unicode_len() > 0 && w.get_char(0) == '-' {
            return Err(concat_str("unknown mobile option ", w));
        } else if project.is_none() {
            project = Some(i);
            i = i + 1;
        } else {
            return Err(String::from_str("mobile commands accept at most one project directory"));
        }
    }
    if abis.len() == 0 {
        abis = default_abis();
    }
    Ok(MobileOptions { project, mode, abis })
}

/// What a command that takes only an optional project makes of its
/// arguments: the project's position.
pub open spec fn project_only(args: Seq<Argument>) -> Result<Option<usize>, Seq<char>> {
    if args.len() > 1 {
        Err("unexpected mobile argument "@ + args[1].text@)
    } else if args.len() == 1 {
        Ok(Some(0))
    } else {
        Ok(None)
    }
}

/// Reads the arguments of a mobile command that takes only a project.
pub fn parse_project_only(args: &Vec<Argument>) -> (r: Result<Option<usize>, String>)
    ensures
        match (r, project_only(args@)) {
            (Ok(p), Ok(q)) => p == q,
            (Err(e), Err(m)) => e@ == m,
            _ => false,
        },
{
    if args.len() > 1 {
        Err(concat_str("unexpected mobile argument ", args[1].text.as_str()))
    } else if args.len() == 1 {
        Ok(Some(0))
    } else {
        Ok(None)
    }
}

/// What `pam mobile runtime:use VERSION [PROJECT]` makes of its arguments:
/// the PHP version text and the project's position.
pub open spec fn runtime_use(args: Seq<Argument>) -> Result<(Seq<char>, Option<usize>), Seq<char>> {
    if args.len() == 0 {
        Err("`pam mobile runtime:use` requires 8.4 or 8.5"@)
    } else if !args[0].utf8 {
        Err("PHP runtime version must be valid UTF-8"@)
    } else if args.len() > 2 {
        Err("unexpected runtime argument "@ + args[2].text@)
    } else {
        Ok((args[0].text@, if args.len() == 2 { Some(1usize) } else { None }))
    }
}

/// Reads the arguments of `pam mobile runtime:use`.
pub fn parse_runtime_use(args: &Vec<Argument>) -> (r: Result<(String, Option<usize>), String>)
    ensures
        match (r, runtime_use(args@)) {
            (Ok((v, p)), Ok((w, q))) => v@ == w && p == q,
            (Err(e), Err(m)) => e@ == m,
            _ => false,
        },
{
    if args.len() == 0 {
        return Err(String::from_str("`pam mobile runtime:use` requires 8.4 or 8.5"));
    }
    if !args[0].utf8 {
        return Err(String::from_str("PHP runtime version must be valid UTF-8"));
    }
    if args.len() > 2 {
        return Err(concat_str("unexpected runtime argument ", args[2].text.as_str()));
    }
    Ok((args[0].text.clone(), if args.len() == 2 { Some(1) } else { None }))
}

/// What a generator command `NAME [PROJECT]` makes of its arguments: the
/// PascalCase name and the project's position.
pub open spec fn generator_request(args: Seq<Argument>) -> Result<(Seq<char>, Option<usize>), Seq<char>> {
    if args.len() == 0 {
        Err("generator commands require a PascalCase name"@)
    } else if !args[0].utf8 {
        Err("generator names must be valid UTF-8"@)
    } else if !is_pascal_name(args[0].text@) {
        Err(
            "generator names must start with an uppercase ASCII letter and contain only letters or digits"@,
        )
    } else if args.len() > 2 {
        Err("unexpected generator argument "@ + args[2].text@)
    } else {
        Ok((args[0].text@, if args.len() == 2 { Some(1usize) } else { None }))
    }
}

/// Reads the arguments of a generator command.
pub fn parse_generator(args: &Vec<Argument>) -> (r: Result<(String, Option<usize>), String>)
    ensures
        match (r, generator_request(args@)) {
            (Ok((n, p)), Ok((m, q))) => n@ == m && p == q,
            (Err(e), Err(m)) => e@ == m,
            _ => false,
        },
{
    if args.len() == 0 {
        return Err(String::from_str("generator commands require a PascalCase name"));
    }
    if !args[0].utf8 {
        return Err(String::from_str("generator names must be valid UTF-8"));
    }
    if !valid_pascal_name(args[0].text.as_str()) {
        return Err(
            String::from_str(
                "generator names must start with an uppercase ASCII letter and contain only letters or digits",
            ),
        );
    }
    if args.len() > 2 {
        return Err(concat_str("unexpected generator argument ", args[2].text.as_str()));
    }
    Ok((args[0].text.clone(), if args.len() == 2 { Some(1) } else { None }))
}

} // verus!
