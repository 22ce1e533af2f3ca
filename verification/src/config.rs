//! Resolving the run's configuration from the positional arguments and
//! the environment override, in a fixed precedence order.

use vstd::prelude::*;
use vstd::string::StrSliceExecFns;

verus! {

/// The resolved, immutable configuration of one run.
#[derive(Debug)]
pub struct Config {
    pub query: String,
    pub filename: String,
    pub case_sensitive: bool,
}

/// What an explicit mode token selects.
pub enum CaseFormat {
    Keep,
    Ignore,
}

/// Only the first character of the token decides, and only an uppercase
/// 'I' selects Ignore; anything else, a lowercase 'i' included, keeps
/// case.
pub open spec fn spec_case_format(s: Seq<char>) -> CaseFormat {
    if s.len() > 0 && s[0] == 'I' {
        CaseFormat::Ignore
    } else {
        CaseFormat::Keep
    }
}

impl CaseFormat {
    /// Reads a mode token by its first character alone.
    pub fn from_string(string: &str) -> (f: CaseFormat)
        ensures
            f == spec_case_format(string@),
    {
        if string.unicode_len() >= 1 && string.get_char(0) == 'I' {
            CaseFormat::Ignore
        } else {
            CaseFormat::Keep
        }
    }
}

/// The case mode a run resolves to: an explicit mode token, when present,
/// decides by itself; otherwise the environment override selects
/// case-insensitive matching, and the default keeps case.
pub open spec fn resolved_case_sensitive(args: Seq<Seq<char>>, env_case_insensitive: bool) -> bool {
    if args.len() >= 4 {
        spec_case_format(args[3]) is Keep
    } else {
        !env_case_insensitive
    }
}

/// An explicit mode token decides the case mode by itself: with a token
/// present, the environment override has no effect on the resolution.
pub proof fn lemma_mode_token_overrides_env(args: Seq<Seq<char>>, env_a: bool, env_b: bool)
    requires
        args.len() >= 4,
    ensures
        resolved_case_sensitive(args, env_a) == resolved_case_sensitive(args, env_b),
{
}

impl Config {
    /// Resolves the configuration from the argument list, whose first
    /// element is the program's own name and is ignored, and from whether
    /// the environment override is set. Fails, and says what is missing,
    /// when the query or the file is not given.
    pub fn new(args: &Vec<String>, env_case_insensitive: bool) -> (r: Result<
        Config,
        &'static str,
    >)
        ensures
            r is Ok <==> args@.len() >= 3,
            r matches Ok(c) ==> {
                &&& c.query@ == args@[1]@
                &&& c.filename@ == args@[2]@
                &&& c.case_sensitive == resolved_case_sensitive(
                    args.deep_view(),
                    env_case_insensitive,
                )
            },
            args@.len() < 2 ==> (r matches Err(e) && e@ == "Query string missing!"@),
            args@.len() == 2 ==> (r matches Err(e) && e@ == "File to search missing!"@),
    {
        if args.len() < 2 {
            return Err("Query string missing!");
        }
        if args.len() < 3 {
            return Err("File to search missing!");
        }
        let query: String = args[1].clone();
        let filename: String = args[2].clone();
        let case_sensitive: bool;
        if args.len() >= 4 {
            case_sensitive = match CaseFormat::from_string(args[3].as_str()) {
                CaseFormat::Keep => true,
                CaseFormat::Ignore => false,
            };
            proof {
                assert(args.deep_view()[3] == args@[3]@);
            }
        } else {
            case_sensitive = !env_case_insensitive;
        }
        Ok(Config { query, filename, case_sensitive })
    }
}

} // verus!
