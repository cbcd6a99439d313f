//! Verification of a session's work by the commands of its contract, and the review
//! that follows.
//!
//! Commands run without a shell, and only when the policy accepts exactly their
//! arguments. Nothing is staged, committed or pushed, and no branch is changed.

use vstd::prelude::*;
use vstd::string::*;
use crate::autonomous_contract::{
    AutonomousCommandProfileV1, AutonomousDevelopmentContractV1, AutonomousPolicyEngineV1,
    runs_profile,
};
use crate::coordinator::{VerificationStatusV1, VerificationSummaryV1};
use crate::json::{
    field, field_text, json_string, object, object_text, quoted, truth, truth_text,
};
use crate::provider::RuntimeError;
use crate::text::{
    blank, byte_len, contains, decimal, decode_lossy, has_text, is_blank, is_white, join, joined,
    lines_of, lossy_decoded, lowered, occurs_at, plus, same, shorten, shortened, split_lines,
    text, texts, to_decimal, to_lower, trim, trimmed, utf8_len,
};

verus! {

const MAX_CAPTURE_BYTES: usize = 24_576;

/// How a command came out.
#[derive(Clone, Debug, PartialEq, Eq)]
pub enum CommandOutcomeV1 {
    NotLaunched,
    Ended { success: bool, stdout: Vec<u8>, stderr: Vec<u8> },
}

/// Verifies the work of a session.
#[derive(Debug)]
pub struct ContractVerifierV1 {
    pub policy: AutonomousPolicyEngineV1,
    /// What the commands that have passed so far have printed.
    pub passed: Vec<String>,
    pub last_verification: Option<VerificationSummaryV1>,
}

// ---------------------------------------------------------------------------
// Output

/// A line that sets something secret.
pub open spec fn is_sensitive(line: Seq<char>) -> bool {
    let lower = lowered(line);
    ||| has_text(lower, "token="@)
    ||| has_text(lower, "password="@)
    ||| has_text(lower, "secret="@)
    ||| has_text(lower, "api_key="@)
    ||| has_text(lower, "apikey="@)
}

/// What is shown of a line.
pub open spec fn shown_line(line: Seq<char>) -> Seq<char> {
    if is_sensitive(line) {
        "<redacted-sensitive-output>"@
    } else {
        line
    }
}

/// A text whose sensitive lines are replaced.
pub open spec fn lines_redacted(value: Seq<char>) -> Seq<char> {
    joined(lines_of(value).map_values(|line: Seq<char>| shown_line(line)), "\n"@)
}

fn sensitive(line: &str) -> (r: bool)
    ensures
        r == is_sensitive(line@),
{
    let lower: String = to_lower(line);
    contains(lower.as_str(), "token=") || contains(lower.as_str(), "password=") || contains(
        lower.as_str(),
        "secret=",
    ) || contains(lower.as_str(), "api_key=") || contains(lower.as_str(), "apikey=")
}

/// Replaces every line that sets something secret.
pub fn redact_text(value: &str) -> (r: String)
    ensures
        r@ == lines_redacted(value@),
{
    let lines: Vec<String> = split_lines(value);
    let ghost all = lines_of(value@).map_values(|line: Seq<char>| shown_line(line));
    let mut shown: Vec<String> = Vec::new();
    let mut i: usize = 0;
    while i < lines.len()
        invariant
            i <= lines@.len(),
            texts(lines@) == lines_of(value@),
            all == lines_of(value@).map_values(|line: Seq<char>| shown_line(line)),
            texts(shown@) == all.take(i as int),
        decreases lines@.len() - i,
    {
        let ghost prior = texts(shown@);
        assert(texts(lines@)[i as int] == lines@[i as int]@);
        if sensitive(lines[i].as_str()) {
            shown.push(text("<redacted-sensitive-output>"));
        } else {
            shown.push(lines[i].clone());
        }
        i += 1;
        assert(texts(shown@) =~= prior.push(all[i - 1]));
        assert(all.take(i as int) =~= all.take(i - 1).push(all[i - 1]));
    }
    assert(texts(lines@).len() == lines@.len());
    assert(all.take(i as int) =~= all);
    join(&shown, "\n")
}

/// No line of a redacted text sets something secret.
pub proof fn lemma_shown_lines_are_not_sensitive(line: Seq<char>)
    ensures
        !is_sensitive(shown_line(line)),
{
    if is_sensitive(line) {
        let s = lowered("<redacted-sensitive-output>"@);
        reveal_strlit("<redacted-sensitive-output>");
        reveal_strlit("token=");
        reveal_strlit("password=");
        reveal_strlit("secret=");
        reveal_strlit("api_key=");
        reveal_strlit("apikey=");
        assert forall|i: int| 0 <= i < s.len() implies s[i] != '=' by {}
        assert forall|part: Seq<char>|
            part.len() > 0 && part.last() == '=' implies !#[trigger] has_text(s, part) by {
            if has_text(s, part) {
                let at = choose|at: int| #[trigger] occurs_at(s, part, at);
                assert(s.subrange(at, at + part.len())[part.len() - 1] == '=');
            }
        }
        assert("token="@.last() == '=');
        assert("password="@.last() == '=');
        assert("secret="@.last() == '=');
        assert("api_key="@.last() == '=');
        assert("apikey="@.last() == '=');
    }
}

/// Cuts a text to a bound.
pub fn bounded_text(value: &str, limit: usize) -> (r: String)
    ensures
        r@ == shortened(value@, limit as nat),
{
    shorten(value, limit)
}

/// What is kept of a command's output.
pub open spec fn kept_output(stdout: Seq<u8>, stderr: Seq<u8>) -> Seq<char> {
    shortened(
        lines_redacted(
            if stderr.len() > 0 {
                lossy_decoded(stdout) + "\n"@ + lossy_decoded(stderr)
            } else {
                lossy_decoded(stdout)
            },
        ),
        24_576,
    )
}

/// Takes secrets out of a command's output and cuts it to a bound.
pub fn bounded_output(stdout: &[u8], stderr: &[u8]) -> (r: String)
    ensures
        r@ == kept_output(stdout@, stderr@),
{
    let combined: String = if stderr.len() > 0 {
        decode_lossy(stdout).concat("\n").concat(decode_lossy(stderr).as_str())
    } else {
        decode_lossy(stdout)
    };
    bounded_text(redact_text(combined.as_str()).as_str(), MAX_CAPTURE_BYTES)
}

// ---------------------------------------------------------------------------
// The commands

/// Why a profile cannot be run, if it cannot.
pub open spec fn profile_refusal(
    contract: AutonomousDevelopmentContractV1,
    profile: AutonomousCommandProfileV1,
) -> Option<Seq<char>> {
    if profile.argv().len() == 0 {
        Some("autonomous verification profile does not have an exact executable command"@)
    } else if !is_allowed_command(contract, profile.argv()) {
        Some("verification command is outside the contract"@)
    } else {
        None
    }
}

/// A command is exactly an allowed profile.
pub open spec fn is_allowed_command(
    contract: AutonomousDevelopmentContractV1,
    argv: Seq<Seq<char>>,
) -> bool {
    exists|i: int|
        0 <= i < contract.allowed_command_profiles@.len() && runs_profile(
            argv,
            #[trigger] contract.allowed_command_profiles@[i],
        )
}

/// The arguments that a profile is run with.
pub fn profile_command(policy: &AutonomousPolicyEngineV1, profile: &AutonomousCommandProfileV1) -> (r:
    Result<Vec<String>, RuntimeError>)
    ensures
        match r {
            Ok(argv) => profile_refusal(policy.terms(), *profile) is None && texts(argv@)
                == profile.argv(),
            Err(RuntimeError::Validation(message)) => profile_refusal(policy.terms(), *profile)
                == Some(message@),
            Err(_) => false,
        },
{
    let argv: Vec<String> = profile.exact_argv();
    assert(texts(argv@).len() == argv@.len());
    if argv.len() == 0 {
        return Err(
            RuntimeError::Validation(
                text("autonomous verification profile does not have an exact executable command"),
            ),
        );
    }
    match policy.permit_command(&argv) {
        Ok(permitted) => {
            proof {
                let profiles = policy.terms().allowed_command_profiles@;
                let i = choose|i: int| 0 <= i < profiles.len() && profiles[i] == permitted;
                assert(runs_profile(texts(argv@), profiles[i]));
            }
            Ok(argv)
        },
        Err(_) => Err(
            RuntimeError::Validation(text("verification command is outside the contract")),
        ),
    }
}

/// What is kept of a profile that was run.
pub fn profile_outcome(outcome: &CommandOutcomeV1) -> (r: Result<String, RuntimeError>)
    ensures
        match (*outcome, r) {
            (CommandOutcomeV1::Ended { success, stdout, stderr }, Ok(kept)) => success && kept@
                == kept_output(stdout@, stderr@),
            (
                CommandOutcomeV1::Ended { success, stdout, stderr },
                Err(RuntimeError::Provider(message)),
            ) => !success && message@ == "approved verification command failed: "@ + shortened(
                kept_output(stdout@, stderr@),
                512,
            ),
            (CommandOutcomeV1::NotLaunched, Err(RuntimeError::Provider(message))) => message@
                == "approved verification command could not be launched"@,
            _ => false,
        },
{
    match outcome {
        CommandOutcomeV1::NotLaunched => Err(
            RuntimeError::Provider(text("approved verification command could not be launched")),
        ),
        CommandOutcomeV1::Ended { success, stdout, stderr } => {
            let kept: String = bounded_output(stdout.as_slice(), stderr.as_slice());
            if *success {
                Ok(kept)
            } else {
                Err(
                    RuntimeError::Provider(
                        plus(
                            "approved verification command failed: ",
                            bounded_text(kept.as_str(), 512).as_str(),
                        ),
                    ),
                )
            }
        },
    }
}

/// The diff of a session's work, as it is kept. A workspace without changes is said to
/// be clean, so that it is not taken for a diff that is missing.
pub open spec fn kept_diff(stdout: Seq<u8>, stderr: Seq<u8>) -> Seq<char> {
    if blank(kept_output(stdout, stderr)) {
        "authoritative-diff: clean"@
    } else {
        kept_output(stdout, stderr)
    }
}

/// The arguments of the command that prints the diff.
pub open spec fn diff_arguments() -> Seq<Seq<char>> {
    seq!["git"@, "--no-pager"@, "diff"@, "--no-ext-diff"@, "--binary"@, "--"@]
}

/// The arguments of the command that prints the diff.
pub fn diff_command() -> (r: Vec<String>)
    ensures
        texts(r@) == diff_arguments(),
{
    let r: Vec<String> = vec![
        text("git"),
        text("--no-pager"),
        text("diff"),
        text("--no-ext-diff"),
        text("--binary"),
        text("--"),
    ];
    assert(texts(r@) =~= diff_arguments());
    r
}

/// The diff of a session's work.
pub fn authoritative_diff(outcome: &CommandOutcomeV1) -> (r: Result<String, RuntimeError>)
    ensures
        match (*outcome, r) {
            (CommandOutcomeV1::Ended { success, stdout, stderr }, Ok(diff)) => success && diff@
                == kept_diff(stdout@, stderr@) && !blank(diff@),
            (
                CommandOutcomeV1::Ended { success, stdout, stderr },
                Err(RuntimeError::Provider(message)),
            ) => !success && message@ == "authoritative diff command failed"@,
            (CommandOutcomeV1::NotLaunched, Err(RuntimeError::Provider(message))) => message@
                == "authoritative diff could not be launched"@,
            _ => false,
        },
{
    match outcome {
        CommandOutcomeV1::NotLaunched => Err(
            RuntimeError::Provider(text("authoritative diff could not be launched")),
        ),
        CommandOutcomeV1::Ended { success, stdout, stderr } => {
            if !*success {
                return Err(RuntimeError::Provider(text("authoritative diff command failed")));
            }
            let kept: String = bounded_output(stdout.as_slice(), stderr.as_slice());
            if is_blank(kept.as_str()) {
                proof {
                    reveal_strlit("authoritative-diff: clean");
                    let s = "authoritative-diff: clean"@;
                    assert(!is_white(s[0]));
                }
                Ok(text("authoritative-diff: clean"))
            } else {
                Ok(kept)
            }
        },
    }
}

// ---------------------------------------------------------------------------
// The workspace

/// Why a workspace is not the one of the contract, if it is not: the branch is another
/// one, or `main`; the origin is another one; or the base is not below what is checked
/// out.
pub open spec fn identity_refusal(
    contract: AutonomousDevelopmentContractV1,
    branch: Seq<char>,
    origin: Seq<char>,
    base_is_ancestor: bool,
) -> Option<Seq<char>> {
    if trimmed(branch) != contract.feature_branch@ || trimmed(branch) == "main"@ {
        Some("autonomous verifier requires the contract feature branch"@)
    } else if trimmed(origin) != contract.expected_origin@ {
        Some("autonomous verifier origin does not match the contract"@)
    } else if !base_is_ancestor {
        Some("autonomous verifier base commit is not an ancestor of HEAD"@)
    } else {
        None
    }
}

/// What a Git command that identifies the workspace has printed.
pub fn git_output(outcome: &CommandOutcomeV1) -> (r: Result<String, RuntimeError>)
    ensures
        match (*outcome, r) {
            (CommandOutcomeV1::Ended { success, stdout, stderr }, Ok(kept)) => success && kept@
                == kept_output(stdout@, stderr@),
            (
                CommandOutcomeV1::Ended { success, stdout, stderr },
                Err(RuntimeError::Validation(message)),
            ) => !success && message@ == "Git identity command did not succeed"@,
            (CommandOutcomeV1::NotLaunched, Err(RuntimeError::Provider(message))) => message@
                == "Git identity command could not be launched"@,
            _ => false,
        },
{
    match outcome {
        CommandOutcomeV1::NotLaunched => Err(
            RuntimeError::Provider(text("Git identity command could not be launched")),
        ),
        CommandOutcomeV1::Ended { success, stdout, stderr } => if *success {
            Ok(bounded_output(stdout.as_slice(), stderr.as_slice()))
        } else {
            Err(RuntimeError::Validation(text("Git identity command did not succeed")))
        },
    }
}

/// Accepts a workspace that is on the contract's branch.
pub fn check_branch(contract: &AutonomousDevelopmentContractV1, branch: &str) -> (r: Result<
    (),
    RuntimeError,
>)
    ensures
        match r {
            Ok(_) => trimmed(branch@) == contract.feature_branch@ && trimmed(branch@) != "main"@,
            Err(RuntimeError::Validation(message)) => (trimmed(branch@)
                != contract.feature_branch@ || trimmed(branch@) == "main"@) && message@
                == "autonomous verifier requires the contract feature branch"@,
            Err(_) => false,
        },
{
    let branch: String = trim(branch);
    if !same(branch.as_str(), contract.feature_branch.as_str()) || same(branch.as_str(), "main") {
        return Err(
            RuntimeError::Validation(
                text("autonomous verifier requires the contract feature branch"),
            ),
        );
    }
    Ok(())
}

/// Accepts a workspace that comes from the contract's origin.
pub fn check_origin(contract: &AutonomousDevelopmentContractV1, origin: &str) -> (r: Result<
    (),
    RuntimeError,
>)
    ensures
        match r {
            Ok(_) => trimmed(origin@) == contract.expected_origin@,
            Err(RuntimeError::Validation(message)) => trimmed(origin@) != contract.expected_origin@
                && message@ == "autonomous verifier origin does not match the contract"@,
            Err(_) => false,
        },
{
    if !same(trim(origin).as_str(), contract.expected_origin.as_str()) {
        return Err(
            RuntimeError::Validation(text("autonomous verifier origin does not match the contract")),
        );
    }
    Ok(())
}

/// Accepts a workspace that is on the contract's branch, comes from the contract's
/// origin and has the contract's base below it.
pub fn verify_git_identity(
    contract: &AutonomousDevelopmentContractV1,
    branch: &str,
    origin: &str,
    base_is_ancestor: bool,
) -> (r: Result<(), RuntimeError>)
    ensures
        match r {
            Ok(_) => identity_refusal(*contract, branch@, origin@, base_is_ancestor) is None,
            Err(RuntimeError::Validation(message)) => identity_refusal(
                *contract,
                branch@,
                origin@,
                base_is_ancestor,
            ) == Some(message@),
            Err(_) => false,
        },
{
    check_branch(contract, branch)?;
    check_origin(contract, origin)?;
    if !base_is_ancestor {
        return Err(
            RuntimeError::Validation(
                text("autonomous verifier base commit is not an ancestor of HEAD"),
            ),
        );
    }
    Ok(())
}

// ---------------------------------------------------------------------------
// The verifier

/// The review of work that passed, as JSON.
pub open spec fn review_of(diff: Seq<char>) -> Seq<char> {
    object(
        seq![
            field("automaticGitPublication"@, truth(false)),
            field("diffBytes"@, decimal(utf8_len(diff))),
            field("result"@, json_string("reviewed locally"@)),
            field("schemaVersion"@, decimal(1)),
            field("verificationStatus"@, json_string("PASSED"@)),
        ],
    )
}

/// Reviews work: it must have passed, and there must be a diff.
pub fn review(verification: &VerificationSummaryV1, diff: &str) -> (r: Result<String, RuntimeError>)
    ensures
        match r {
            Ok(review) => verification.status == VerificationStatusV1::Passed && !blank(diff@)
                && review@ == review_of(diff@),
            Err(RuntimeError::Validation(message)) => (verification.status
                != VerificationStatusV1::Passed || blank(diff@)) && message@
                == "final review requires passing verification and authoritative diff"@,
            Err(_) => false,
        },
{
    if verification.status != VerificationStatusV1::Passed || is_blank(diff) {
        return Err(
            RuntimeError::Validation(
                text("final review requires passing verification and authoritative diff"),
            ),
        );
    }
    let fields: Vec<String> = vec![
        field_text("automaticGitPublication", truth_text(false).as_str()),
        field_text("diffBytes", to_decimal(byte_len(diff) as u64).as_str()),
        field_text("result", quoted("reviewed locally").as_str()),
        field_text("schemaVersion", to_decimal(1).as_str()),
        field_text("verificationStatus", quoted("PASSED").as_str()),
    ];
    assert(texts(fields@) =~= seq![
        field("automaticGitPublication"@, truth(false)),
        field("diffBytes"@, decimal(utf8_len(diff@))),
        field("result"@, json_string("reviewed locally"@)),
        field("schemaVersion"@, decimal(1)),
        field("verificationStatus"@, json_string("PASSED"@)),
    ]);
    Ok(object_text(&fields))
}

impl ContractVerifierV1 {
    /// The commands that the contract requires.
    pub open spec fn required(self) -> Seq<AutonomousCommandProfileV1> {
        self.policy.terms().verification_policy.required_commands@
    }

    /// A verifier for a workspace that is the contract's.
    pub fn new(
        policy: AutonomousPolicyEngineV1,
        branch: &str,
        origin: &str,
        base_is_ancestor: bool,
    ) -> (r: Result<Self, RuntimeError>)
        ensures
            match r {
                Ok(verifier) => {
                    &&& identity_refusal(policy.terms(), branch@, origin@, base_is_ancestor) is None
                    &&& verifier.policy == policy
                    &&& verifier.passed@.len() == 0
                    &&& verifier.last_verification is None
                },
                Err(RuntimeError::Validation(message)) => identity_refusal(
                    policy.terms(),
                    branch@,
                    origin@,
                    base_is_ancestor,
                ) == Some(message@),
                Err(_) => false,
            },
    {
        verify_git_identity(policy.contract(), branch, origin, base_is_ancestor)?;
        Ok(ContractVerifierV1 { policy, passed: Vec::new(), last_verification: None })
    }

    /// Starts verification anew.
    pub fn begin(&mut self)
        ensures
            final(self).passed@.len() == 0,
            final(self).policy == old(self).policy,
            final(self).last_verification == old(self).last_verification,
    {
        self.passed = Vec::new();
    }

    /// The command to run next, or none when every required one has passed.
    pub fn next_command(&self) -> (r: Result<Option<Vec<String>>, RuntimeError>)
        ensures
            match r {
                Ok(None) => self.passed@.len() >= self.required().len(),
                Ok(Some(argv)) => self.passed@.len() < self.required().len() && texts(argv@)
                    == self.required()[self.passed@.len() as int].argv() && profile_refusal(
                    self.policy.terms(),
                    self.required()[self.passed@.len() as int],
                ) is None,
                Err(RuntimeError::Validation(message)) => self.passed@.len() < self.required().len()
                    && profile_refusal(
                    self.policy.terms(),
                    self.required()[self.passed@.len() as int],
                ) == Some(message@),
                Err(_) => false,
            },
    {
        let required: &Vec<AutonomousCommandProfileV1> =
            &self.policy.contract().verification_policy.required_commands;
        if self.passed.len() >= required.len() {
            return Ok(None);
        }
        let argv: Vec<String> = profile_command(&self.policy, &required[self.passed.len()])?;
        Ok(Some(argv))
    }

    /// Takes in how the command that was to run next came out. Verification goes on only
    /// after a command that passed.
    pub fn accept(&mut self, outcome: &CommandOutcomeV1) -> (r: Result<(), RuntimeError>)
        ensures
            final(self).policy == old(self).policy,
            final(self).last_verification == old(self).last_verification,
            match (*outcome, r) {
                (CommandOutcomeV1::Ended { success, stdout, stderr }, Ok(_)) => {
                    &&& success
                    &&& final(self).passed@.len() == old(self).passed@.len() + 1
                    &&& final(self).passed@.drop_last() == old(self).passed@
                    &&& final(self).passed@.last()@ == kept_output(stdout@, stderr@)
                },
                (
                    CommandOutcomeV1::Ended { success, stdout, stderr },
                    Err(RuntimeError::Provider(message)),
                ) => !success && final(self).passed@ == old(self).passed@ && message@
                    == "approved verification command failed: "@ + shortened(
                    kept_output(stdout@, stderr@),
                    512,
                ),
                (CommandOutcomeV1::NotLaunched, Err(RuntimeError::Provider(message))) => final(self).passed@ == old(self).passed@ && message@
                    == "approved verification command could not be launched"@,
                _ => false,
            },
    {
        let kept: String = profile_outcome(outcome)?;
        self.passed.push(kept);
        assert(self.passed@.drop_last() =~= old(self).passed@);
        Ok(())
    }

    /// Ends verification, after every required command has passed, with the diff.
    pub fn conclude(&mut self, diff: &CommandOutcomeV1) -> (r: Result<
        (VerificationSummaryV1, String),
        RuntimeError,
    >)
        requires
            old(self).passed@.len() >= old(self).required().len(),
        ensures
            final(self).policy == old(self).policy,
            final(self).passed@ == old(self).passed@,
            match (*diff, r) {
                (CommandOutcomeV1::Ended { success, stdout, stderr }, Ok((summary, kept))) => {
                    &&& success
                    &&& summary.status == VerificationStatusV1::Passed
                    &&& summary.command@ == "contract-approved verification profiles"@
                    &&& summary.summary@ == shortened(joined(texts(old(self).passed@), "\n"@), 2048)
                    &&& kept@ == kept_diff(stdout@, stderr@)
                    &&& !blank(kept@)
                    &&& final(self).last_verification == Some(summary)
                },
                (
                    CommandOutcomeV1::Ended { success, stdout, stderr },
                    Err(RuntimeError::Provider(message)),
                ) => !success && message@ == "authoritative diff command failed"@ && final(self).last_verification == old(self).last_verification,
                (CommandOutcomeV1::NotLaunched, Err(RuntimeError::Provider(message))) => message@
                    == "authoritative diff could not be launched"@ && final(self).last_verification
                    == old(self).last_verification,
                _ => false,
            },
    {
        let verification: VerificationSummaryV1 = VerificationSummaryV1 {
            status: VerificationStatusV1::Passed,
            command: text("contract-approved verification profiles"),
            summary: bounded_text(join(&self.passed, "\n").as_str(), 2_048),
        };
        let kept: String = authoritative_diff(diff)?;
        self.last_verification = Some(verification.clone());
        Ok((verification, kept))
    }
}

} // verus!
