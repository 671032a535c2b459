//! The runtime resolver: turns a descriptor's raw command line, memory budget
//! and optional runtime-version pin into an invocation plan — a program, its
//! arguments, and the environment overrides for the spawned process only.

use vstd::prelude::*;
use vstd::string::StringExecFns;
use crate::project::CommandType;
use crate::text::{dec_chars, split_tokens, tokens_of, u64_to_dec};

verus! {

/// The environment values the resolver may need: the user's home directory
/// and the search-path variable, each absent when unset.  Read once by the
/// embedding program and handed in as plain values.
#[derive(Debug, Clone)]
pub struct EnvInfo {
    pub home: Option<String>,
    pub path_var: Option<String>,
}

/// One environment override for the spawned process.
#[derive(Debug, Clone)]
pub struct EnvOverride {
    pub key: String,
    pub value: String,
}

/// An executable invocation plan: program token, arguments, and environment
/// overrides to merge on top of the inherited environment.
#[derive(Debug, Clone)]
pub struct InvocationPlan {
    pub program: String,
    pub args: Vec<String>,
    pub env_overrides: Vec<EnvOverride>,
}

/// A required environment value was absent while resolving a version pin.
#[derive(Debug, Clone, Copy, PartialEq, Eq, Structural)]
pub enum ConfigurationError {
    MissingHome,
    MissingPath,
}

/// The view of an optional string.
pub open spec fn opt_view(o: Option<String>) -> Option<Seq<char>> {
    match o {
        Some(s) => Some(s@),
        None => None,
    }
}

/// The program token of a raw command line: its first whitespace-delimited
/// token, or the package-manager default when there is none.
pub open spec fn spec_program(raw: Seq<char>) -> Seq<char> {
    if tokens_of(raw).len() == 0 {
        "npm"@
    } else {
        tokens_of(raw)[0]
    }
}

/// The argument tokens of a raw command line: everything after the program
/// token.
pub open spec fn spec_args(raw: Seq<char>) -> Seq<Seq<char>> {
    if tokens_of(raw).len() == 0 {
        Seq::empty()
    } else {
        tokens_of(raw).drop_first()
    }
}

/// The version-specific binary root for a pinned runtime version under a home
/// directory.
pub open spec fn node_root(home: Seq<char>, version: Seq<char>) -> Seq<char> {
    home + "/.nvm/versions/node/v"@ + version + "/bin"@
}

/// The value of the heap-size hint for a memory budget in megabytes.
pub open spec fn heap_hint_chars(mem: u32) -> Seq<char> {
    "--max_old_space_size="@ + dec_chars(mem as nat)
}

/// The error, if any, that resolving with these inputs must report: a pinned
/// version needs both the home directory and the search-path value.
pub open spec fn resolve_err_of(
    version: Option<Seq<char>>,
    home: Option<Seq<char>>,
    path_var: Option<Seq<char>>,
) -> Option<ConfigurationError> {
    if version is Some {
        if home is None {
            Some(ConfigurationError::MissingHome)
        } else if path_var is None {
            Some(ConfigurationError::MissingPath)
        } else {
            None
        }
    } else {
        None
    }
}

/// What a successful invocation plan holds for the given inputs: the parsed
/// program and arguments; with a version pin, a search-path override putting
/// the version-specific root first; and, for a positive memory budget, the
/// heap-size hint — in that order.
pub open spec fn plan_matches(
    plan: InvocationPlan,
    version: Option<Seq<char>>,
    mem: u32,
    raw: Seq<char>,
    home: Option<Seq<char>>,
    path_var: Option<Seq<char>>,
) -> bool {
    &&& plan.program@ == spec_program(raw)
    &&& plan.args.deep_view() == spec_args(raw)
    &&& match version {
        Some(v) => {
            &&& home is Some
            &&& path_var is Some
            &&& plan.env_overrides@.len() == (if mem > 0 {
                2int
            } else {
                1int
            })
            &&& plan.env_overrides@[0].key@ == "PATH"@
            &&& plan.env_overrides@[0].value@ == node_root(home->0, v) + ":"@ + path_var->0
            &&& (mem > 0 ==> plan.env_overrides@[1].key@ == "NODE_OPTIONS"@
                && plan.env_overrides@[1].value@ == heap_hint_chars(mem))
        },
        None => {
            &&& plan.env_overrides@.len() == (if mem > 0 {
                1int
            } else {
                0int
            })
            &&& (mem > 0 ==> plan.env_overrides@[0].key@ == "NODE_OPTIONS"@
                && plan.env_overrides@[0].value@ == heap_hint_chars(mem))
        },
    }
}

/// The version-specific binary root for `version` under `home`.
pub fn get_specific_version_node_path(home: &String, version: &String) -> (r: String)
    ensures
        r@ == node_root(home@, version@),
{
    let mut r = home.clone();
    r.append("/.nvm/versions/node/v");
    r.append(version.as_str());
    r.append("/bin");
    r
}

/// The command form for a pinned version: a version-specific root to search
/// first, rather than an absolute program path.
pub fn get_npm_version_command(home: &String, version: &String) -> (r: CommandType)
    ensures
        (r matches CommandType::Specific(p) && p@ == node_root(home@, version@)),
{
    CommandType::Specific(get_specific_version_node_path(home, version))
}

/// The absolute path of the package-manager binary inside a pinned version's
/// root.
pub fn get_node_version_command(home: &String, version: &String) -> (r: String)
    ensures
        r@ == node_root(home@, version@) + "/npm"@,
{
    let mut r = get_specific_version_node_path(home, version);
    r.append("/npm");
    r
}

/// Resolves an invocation plan from a descriptor's version pin, memory budget
/// and raw command line, using the given environment values.  Fails if and
/// only if a version pin is given and a needed environment value is absent.
pub fn resolve_invocation(
    version: &Option<String>,
    min_memory_mb: u32,
    raw_command: &String,
    env: &EnvInfo,
) -> (r: Result<InvocationPlan, ConfigurationError>)
    ensures
        match r {
            Ok(plan) => resolve_err_of(opt_view(*version), opt_view(env.home), opt_view(env.path_var))
                is None && plan_matches(
                plan,
                opt_view(*version),
                min_memory_mb,
                raw_command@,
                opt_view(env.home),
                opt_view(env.path_var),
            ),
            Err(e) => Some(e) == resolve_err_of(
                opt_view(*version),
                opt_view(env.home),
                opt_view(env.path_var),
            ),
        },
{
    let tokens = split_tokens(raw_command);
    let program: String;
    let mut args: Vec<String> = Vec::new();
    if tokens.len() == 0 {
        program = String::from_str("npm");
        proof {
            assert(args.deep_view() =~= Seq::<Seq<char>>::empty());
        }
    } else {
        program = tokens[0].clone();
        let mut i: usize = 1;
        while i < tokens.len()
            invariant
                1 <= i <= tokens@.len(),
                args.deep_view() == tokens.deep_view().subrange(1, i as int),
            decreases tokens@.len() - i,
        {
            let ghost prev = args.deep_view();
            args.push(tokens[i].clone());
            proof {
                assert(args.deep_view() =~= prev.push(tokens.deep_view()[i as int]));
                assert(args.deep_view() =~= tokens.deep_view().subrange(1, i as int + 1));
            }
            i = i + 1;
        }
        proof {
            assert(args.deep_view() =~= tokens.deep_view().drop_first());
        }
    }
    let mut overrides: Vec<EnvOverride> = Vec::new();
    if let Some(v) = version {
        let home = match &env.home {
            Some(h) => h,
            None => {
                return Err(ConfigurationError::MissingHome);
            },
        };
        let path_var = match &env.path_var {
            Some(p) => p,
            None => {
                return Err(ConfigurationError::MissingPath);
            },
        };
        let mut value = get_specific_version_node_path(home, v);
        value.append(":");
        value.append(path_var.as_str());
        overrides.push(EnvOverride { key: String::from_str("PATH"), value });
    }
    if min_memory_mb > 0 {
        let mut value = String::from_str("--max_old_space_size=");
        let dec = u64_to_dec(min_memory_mb as u64);
        value.append(dec.as_str());
        overrides.push(EnvOverride { key: String::from_str("NODE_OPTIONS"), value });
    }
    Ok(InvocationPlan { program, args, env_overrides: overrides })
}

} // verus!
