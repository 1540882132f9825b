//! A planned invocation of an external program, and the path and program
//! name rules shared by the invocations.

use vstd::prelude::*;
use crate::text::concatenate;

verus! {

/// An external program with its arguments.
pub struct ToolInvocation {
    pub program: String,
    pub args: Vec<String>,
}

/// `name` under the directory `dir`, as `Path::join` forms it for a relative
/// name.
pub open spec fn join_path(dir: Seq<char>, name: Seq<char>) -> Seq<char> {
    if dir.len() == 0 || dir.last() == '/' {
        dir + name
    } else {
        dir + seq!['/'] + name
    }
}

/// The configured program, or `default` where none is configured.
pub open spec fn program_or(configured: Option<String>, default: Seq<char>) -> Seq<char> {
    match configured {
        Some(p) => p@,
        None => default,
    }
}

/// `name` under the directory `dir`.
pub fn join(dir: &str, name: &str) -> (r: String)
    ensures
        r@ == join_path(dir@, name@),
{
    let n = dir.unicode_len();
    if n == 0 || dir.get_char(n - 1) == '/' {
        concatenate(dir, name)
    } else {
        let mut r = String::from_str(dir);
        r.append("/");
        r.append(name);
        proof {
            reveal_strlit("/");
        }
        r
    }
}

/// The configured program, or `default` where none is configured.
pub fn program_or_default(configured: &Option<String>, default: &str) -> (r: String)
    ensures
        r@ == program_or(*configured, default@),
{
    match configured {
        Some(p) => p.clone(),
        None => String::from_str(default),
    }
}

} // verus!
