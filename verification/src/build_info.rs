//! Build metadata taken from git: what a git command printed, the defaults
//! used when it printed nothing, and how a path named in a `.git` file is
//! resolved.
use vstd::prelude::*;
use crate::network::{trim, trim_str};
use crate::text::str_from_utf8;

verus! {

/// What a successful git command printed, trimmed; none when that is empty
/// or not UTF-8.
pub open spec fn spec_git_output(stdout: Seq<u8>) -> Option<Seq<char>> {
    if vstd::utf8::valid_utf8(stdout) && trim(vstd::utf8::decode_utf8(stdout)).len() > 0 {
        Some(trim(vstd::utf8::decode_utf8(stdout)))
    } else {
        None
    }
}

pub fn git_output(stdout: &[u8]) -> (r: Option<String>)
    ensures
        match r {
            Some(s) => spec_git_output(stdout@) == Some(s@),
            None => spec_git_output(stdout@) is None,
        },
{
    match str_from_utf8(stdout) {
        Some(text) => {
            let trimmed = trim_str(text);
            if trimmed.unicode_len() == 0 {
                None
            } else {
                Some(trimmed.to_owned())
            }
        },
        None => None,
    }
}

/// The dirty flag from the output of `git status --porcelain`: `true` when
/// it printed anything.
pub fn git_dirty_state(status_stdout: &[u8]) -> (r: String)
    ensures
        r@ == if status_stdout@.len() == 0 {
            "false"@
        } else {
            "true"@
        },
{
    if status_stdout.len() == 0 {
        "false".to_owned()
    } else {
        "true".to_owned()
    }
}

/// The build's git identity; each part `unknown` (the branch `detached`)
/// when git could not tell.
#[derive(Debug)]
pub struct GitBuildMetadata {
    pub sha_short: String,
    pub sha_full: String,
    pub git_ref: String,
    pub dirty: String,
}

pub open spec fn or_default(v: Option<Seq<char>>, default: Seq<char>) -> Seq<char> {
    match v {
        Some(s) => s,
        None => default,
    }
}

pub open spec fn opt_view(v: Option<String>) -> Option<Seq<char>> {
    match v {
        Some(s) => Some(s@),
        None => None,
    }
}

fn or_else(v: Option<String>, default: &str) -> (r: String)
    ensures
        r@ == or_default(opt_view(v), default@),
{
    match v {
        Some(s) => s,
        None => default.to_owned(),
    }
}

impl GitBuildMetadata {
    /// Gathers what the git commands answered (none where one failed).
    pub fn collect(
        sha_full: Option<String>,
        sha_short: Option<String>,
        git_ref: Option<String>,
        dirty: Option<String>,
    ) -> (m: Self)
        ensures
            m.sha_full@ == or_default(opt_view(sha_full), "unknown"@),
            m.sha_short@ == or_default(opt_view(sha_short), "unknown"@),
            m.git_ref@ == or_default(opt_view(git_ref), "detached"@),
            m.dirty@ == or_default(opt_view(dirty), "unknown"@),
    {
        let sha_full = or_else(sha_full, "unknown");
        let sha_short = or_else(sha_short, "unknown");
        let git_ref = or_else(git_ref, "detached");
        let dirty = or_else(dirty, "unknown");
        GitBuildMetadata { sha_short, sha_full, git_ref, dirty }
    }
}

/// `base.join(raw)` for Unix paths: an absolute `raw` replaces the base;
/// otherwise it is appended after a separator, unless the base is empty or
/// already ends with one.
pub open spec fn spec_resolve_git_path(base: Seq<char>, raw: Seq<char>) -> Seq<char> {
    if raw.len() > 0 && raw[0] == '/' {
        raw
    } else if base.len() == 0 || base.last() == '/' {
        base + raw
    } else {
        base + seq!['/'] + raw
    }
}

pub fn resolve_git_path(base: &str, raw: &str) -> (r: String)
    ensures
        r@ == spec_resolve_git_path(base@, raw@),
{
    if raw.unicode_len() > 0 && raw.get_char(0) == '/' {
        return raw.to_owned();
    }
    let n = base.unicode_len();
    let mut out = base.to_owned();
    if !(n == 0 || base.get_char(n - 1) == '/') {
        out.append("/");
        proof {
            reveal_strlit("/");
        }
    }
    out.append(raw);
    out
}

} // verus!
