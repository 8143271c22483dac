//! apcore-cli: the verified core of a command-line front end for apcore
//! modules.
//!
//! The library turns JSON Schema module descriptions into command-line
//! options, resolves `$ref`s, decides which modules and built-in commands are
//! exposed, merges input, gates execution behind approval, and renders
//! results. Process I/O (terminals, files, environment variables, spawning)
//! is left to the caller, who hands the values it read to these functions.
use vstd::prelude::*;

pub mod text;
pub mod json;
pub mod pattern;
pub mod ref_resolver;
pub mod schema_parser;
pub mod builtin_group;
pub mod exposure;
pub mod approval;
pub mod cli;
pub mod discovery;
pub mod output;
pub mod openapi;
pub mod config;
pub mod acl;
pub mod bootstrap;
pub mod fs_discoverer;
pub mod dispatch;
pub mod acl_report;
pub mod scaffold;

use crate::builtin_group::ApcliGroup;

verus! {

pub const EXIT_SUCCESS: i32 = 0;
pub const EXIT_MODULE_EXECUTE_ERROR: i32 = 1;
pub const EXIT_INVALID_INPUT: i32 = 2;
pub const EXIT_MODULE_NOT_FOUND: i32 = 44;
pub const EXIT_SCHEMA_VALIDATION_ERROR: i32 = 45;
pub const EXIT_APPROVAL_DENIED: i32 = 46;
pub const EXIT_CONFIG_NOT_FOUND: i32 = 47;
pub const EXIT_SCHEMA_CIRCULAR_REF: i32 = 48;
pub const EXIT_ACL_DENIED: i32 = 77;
pub const EXIT_CONFIG_NAMESPACE_RESERVED: i32 = 78;
pub const EXIT_CONFIG_MOUNT_ERROR: i32 = 66;
pub const EXIT_CONFIG_BIND_ERROR: i32 = 65;
pub const EXIT_ERROR_FORMATTER_DUPLICATE: i32 = 70;
pub const EXIT_SIGINT: i32 = 130;

/// `apcli` subcommands registered whatever the include/exclude lists say.
pub const APCLI_ALWAYS_REGISTERED: [&'static str; 1] = ["exec"];

/// Whether the `apcli` subcommand `name` is registered: always under the
/// `all` and `none` visibilities (a hidden group keeps its subcommands
/// reachable), otherwise when it is always registered or passes the
/// group's include/exclude filter.
pub open spec fn registers_subcommand(
    g: crate::builtin_group::ApcliGroupV,
    env: Option<Seq<char>>,
    name: Seq<char>,
) -> bool {
    let mode = crate::builtin_group::visibility(g, env);
    if mode == "all"@ || mode == "none"@ {
        true
    } else if name == "exec"@ {
        true
    } else if mode == "include"@ {
        g.included.contains(name)
    } else {
        !g.exclude.contains(name)
    }
}

/// The decision `register_apcli_subcommands` makes for one subcommand.
pub fn should_register_subcommand(cfg: &ApcliGroup, env: Option<&str>, name: &str) -> (r: bool)
    ensures
        r == registers_subcommand(
            cfg@,
            match env {
                Some(x) => Some(x@),
                None => None,
            },
            name@,
        ),
{
    let mode = cfg.resolve_visibility(env);
    if crate::text::str_eq(mode, "all") || crate::text::str_eq(mode, "none") {
        return true;
    }
    proof {
        reveal_strlit("exec");
    }
    if crate::text::str_in(name, &APCLI_ALWAYS_REGISTERED) {
        proof {
            reveal_strlit("exec");
            assert(APCLI_ALWAYS_REGISTERED@.len() == 1);
            assert(APCLI_ALWAYS_REGISTERED@[0]@ == "exec"@);
        }
        return true;
    }
    proof {
        assert(APCLI_ALWAYS_REGISTERED@[0]@ == "exec"@);
    }
    cfg.is_subcommand_included(name, env)
}


/// `exec` is registered under the built-in group whatever the visibility
/// and the include/exclude lists.
pub proof fn lemma_exec_always_registered(g: crate::builtin_group::ApcliGroupV, env: Option<Seq<char>>)
    ensures
        registers_subcommand(g, env, "exec"@),
{
}

/// A hidden group (`none`) still registers every subcommand: hiding only
/// takes the group out of the root help.
pub proof fn lemma_hidden_group_registers_everything(
    g: crate::builtin_group::ApcliGroupV,
    env: Option<Seq<char>>,
    name: Seq<char>,
)
    requires
        crate::builtin_group::visibility(g, env) == "none"@,
    ensures
        registers_subcommand(g, env, name),
{
}

} // verus!
