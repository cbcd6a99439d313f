//! Taking secrets out of text with regular expressions.

use vstd::prelude::*;
use vstd::string::*;
use crate::text::opt_text;

verus! {

/// A secret that something is assigned or set to.
pub const ASSIGNED_SECRET: &'static str = "(?i)(password|passwd|pwd|token|secret|api[_-]?key|authorization)\\s*[:=]\\s*[\"']?[^\"',\\s;]+";

/// A bearer token of an HTTP header.
pub const BEARER_TOKEN: &'static str = "(?i)bearer\\s+[A-Za-z0-9._~+/=-]{12,}";

/// A token that its service marks with a prefix.
pub const PREFIXED_TOKEN: &'static str = "(?i)(gho|ghp|sk|xoxb|xoxp)_[A-Za-z0-9_=-]{12,}";

/// A secret that stands behind its name in a line of output.
pub const NAMED_SECRET: &'static str = "(?i)\\b(token|password|secret|api[_-]?key)\\s*[:=]\\s*[^\\s]+";

/// An API key that begins with `sk-`.
pub const SK_API_KEY: &'static str = "\\bsk-[A-Za-z0-9_-]{20,}";

/// An API key behind its name.
pub const API_KEY_VALUE: &'static str = "(?i)(api[_-]?key\\s*[:=]\\s*)[^\\s]+";

/// A token behind its name.
pub const TOKEN_VALUE: &'static str = "(?i)(token\\s*[:=]\\s*)[^\\s]+";

/// A secret behind its name.
pub const SECRET_VALUE: &'static str = "(?i)(secret\\s*[:=]\\s*)[^\\s]+";

/// A password behind its name.
pub const PASSWORD_VALUE: &'static str = "(?i)(password\\s*[:=]\\s*)[^\\s]+";

/// What `Regex::new` and `Regex::replace_all` make of a text: every match of the
/// pattern replaced, or nothing where the pattern does not compile.
pub uninterp spec fn regex_replaced(
    pattern: Seq<char>,
    text: Seq<char>,
    replacement: Seq<char>,
) -> Option<Seq<char>>;

/// The patterns that this library hands to the regular-expression engine.
pub open spec fn is_known_pattern(pattern: Seq<char>) -> bool {
    ||| pattern == ASSIGNED_SECRET@
    ||| pattern == BEARER_TOKEN@
    ||| pattern == PREFIXED_TOKEN@
    ||| pattern == NAMED_SECRET@
    ||| pattern == SK_API_KEY@
    ||| pattern == API_KEY_VALUE@
    ||| pattern == TOKEN_VALUE@
    ||| pattern == SECRET_VALUE@
    ||| pattern == PASSWORD_VALUE@
}

/// Replaces every match of a pattern with `regex::Regex::replace_all`. The result is
/// the function [`regex_replaced`] of the arguments, and the engine compiles each of
/// the library's own patterns.
#[verifier::external_body]
fn replace_all(pattern: &str, text: &str, replacement: &str) -> (r: Option<String>)
    ensures
        opt_text(r) == regex_replaced(pattern@, text@, replacement@),
        is_known_pattern(pattern@) ==> r is Some,
{
    match regex::Regex::new(pattern) {
        Ok(engine) => Some(engine.replace_all(text, replacement).into_owned()),
        Err(_) => None,
    }
}

/// `text` with every match of a pattern replaced.
pub open spec fn replaced(pattern: Seq<char>, text: Seq<char>, replacement: Seq<char>) -> Seq<char> {
    regex_replaced(pattern, text, replacement)->0
}

fn replace_known(pattern: &str, text: &str, replacement: &str) -> (r: String)
    requires
        is_known_pattern(pattern@),
    ensures
        r@ == replaced(pattern@, text@, replacement@),
{
    match replace_all(pattern, text, replacement) {
        Some(done) => done,
        None => String::new(),
    }
}

/// `text` without the secrets that an advisor must not see.
pub open spec fn advice_redacted(text: Seq<char>) -> Seq<char> {
    let assigned = replaced(ASSIGNED_SECRET@, text, "$1=<redacted>"@);
    let bearer = replaced(BEARER_TOKEN@, assigned, "Bearer <redacted>"@);
    replaced(PREFIXED_TOKEN@, bearer, "$1_<redacted>"@)
}

/// Takes secrets out of a text that goes to an advisor.
pub fn redact_advice(text: &str) -> (r: String)
    ensures
        r@ == advice_redacted(text@),
{
    let assigned: String = replace_known(ASSIGNED_SECRET, text, "$1=<redacted>");
    let bearer: String = replace_known(BEARER_TOKEN, assigned.as_str(), "Bearer <redacted>");
    replace_known(PREFIXED_TOKEN, bearer.as_str(), "$1_<redacted>")
}

/// `text` without the secrets of a line of command output.
pub open spec fn output_redacted(text: Seq<char>) -> Seq<char> {
    let named = replaced(NAMED_SECRET@, text, "$1=<redacted>"@);
    replaced(SK_API_KEY@, named, "<redacted-api-key>"@)
}

/// Takes secrets out of a line of command output.
pub fn redact_output(text: &str) -> (r: String)
    ensures
        r@ == output_redacted(text@),
{
    let named: String = replace_known(NAMED_SECRET, text, "$1=<redacted>");
    replace_known(SK_API_KEY, named.as_str(), "<redacted-api-key>")
}

/// `text` without the secrets that must not reach a worker's context.
pub open spec fn context_redacted(text: Seq<char>) -> Seq<char> {
    let keys = replaced(API_KEY_VALUE@, text, "${1}<redacted>"@);
    let tokens = replaced(TOKEN_VALUE@, keys, "${1}<redacted>"@);
    let secrets = replaced(SECRET_VALUE@, tokens, "${1}<redacted>"@);
    replaced(PASSWORD_VALUE@, secrets, "${1}<redacted>"@)
}

/// Takes secrets out of a text that goes into a worker's context.
pub fn redact_context(text: &str) -> (r: String)
    ensures
        r@ == context_redacted(text@),
{
    let keys: String = replace_known(API_KEY_VALUE, text, "${1}<redacted>");
    let tokens: String = replace_known(TOKEN_VALUE, keys.as_str(), "${1}<redacted>");
    let secrets: String = replace_known(SECRET_VALUE, tokens.as_str(), "${1}<redacted>");
    replace_known(PASSWORD_VALUE, secrets.as_str(), "${1}<redacted>")
}

} // verus!
