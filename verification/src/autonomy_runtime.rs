//! How the controllers of autonomous sessions are set up.
//!
//! The program is the operator's own configuration. A caller can name a session that
//! is kept, but never the program, its sandbox or where it gets its credentials.

use vstd::prelude::*;
use vstd::string::*;
use crate::autonomous_contract::{
    AutonomousDevelopmentContractV1, AutonomousPolicyEngineV1, engine_refusal,
};
use crate::autonomy_supervisor::ContractPathsV1;
use crate::codex_cli::{CodexCliConfigV1, CodexCliSandboxV1, CodexPathFactsV1};
use crate::hash::fingerprint;
use crate::provider::RuntimeError;
use crate::text::{debug_variant, plus, text};

verus! {

/// The name under which the controller of a session is kept.
pub open spec fn controller_name(workspace: Seq<char>, session_id: Seq<char>) -> Seq<char> {
    workspace + ":"@ + session_id
}

/// The name under which the controller of a session is kept.
pub fn controller_key(workspace: &str, session_id: &str) -> (r: String)
    ensures
        r@ == controller_name(workspace@, session_id@),
{
    text(workspace).concat(":").concat(session_id)
}

/// Two sessions of one workspace never share a controller.
pub proof fn lemma_controllers_are_apart(workspace: Seq<char>, a: Seq<char>, b: Seq<char>)
    requires
        controller_name(workspace, a) == controller_name(workspace, b),
    ensures
        a == b,
{
    let whole = workspace + ":"@;
    assert(a =~= controller_name(workspace, a).skip(whole.len() as int));
    assert(b =~= controller_name(workspace, b).skip(whole.len() as int));
}

/// The configuration with which the operator's program is run.
pub open spec fn operator_settings(
    executable: String,
    workspace: String,
    model_id: String,
) -> CodexCliConfigV1 {
    CodexCliConfigV1 {
        executable,
        working_directory: workspace,
        model_id: Some(model_id),
        sandbox: CodexCliSandboxV1::WorkspaceWrite,
        max_event_bytes: 65_536,
        max_diagnostic_bytes: 8_192,
    }
}

/// Sets up the operator's program, if the operator has named one.
pub fn operator_config(
    executable: Option<String>,
    workspace: String,
    model_id: String,
    facts: &CodexPathFactsV1,
) -> (r: Result<CodexCliConfigV1, RuntimeError>)
    ensures
        match (executable, r) {
            (Some(executable), Ok(config)) => config == operator_settings(
                executable,
                workspace,
                model_id,
            ) && config.refusal(*facts) is None,
            (Some(executable), Err(RuntimeError::Validation(message))) => operator_settings(
                executable,
                workspace,
                model_id,
            ).refusal(*facts) == Some(message@),
            (None, Err(RuntimeError::Validation(message))) => message@
                == "operator-local CATDESK_CODEX_CLI_EXECUTABLE is required for autonomous start"@,
            _ => false,
        },
{
    let executable: String = match executable {
        Some(executable) => executable,
        None => return Err(
            RuntimeError::Validation(
                text(
                    "operator-local CATDESK_CODEX_CLI_EXECUTABLE is required for autonomous start",
                ),
            ),
        ),
    };
    let mut config: CodexCliConfigV1 = CodexCliConfigV1::new(executable, workspace, facts)?;
    config.model_id = Some(model_id);
    config.sandbox = CodexCliSandboxV1::WorkspaceWrite;
    Ok(config)
}

/// Says whether the operator's program can be set up.
pub fn operator_configuration_available(
    executable: Option<String>,
    workspace: String,
    model_id: String,
    facts: &CodexPathFactsV1,
) -> (r: Result<(), RuntimeError>)
    ensures
        match (executable, r) {
            (Some(executable), Ok(_)) => operator_settings(
                executable,
                workspace,
                model_id,
            ).refusal(*facts) is None,
            (Some(executable), Err(RuntimeError::Validation(message))) => operator_settings(
                executable,
                workspace,
                model_id,
            ).refusal(*facts) == Some(message@),
            (None, Err(RuntimeError::Validation(message))) => message@
                == "operator-local CATDESK_CODEX_CLI_EXECUTABLE is required for autonomous start"@,
            _ => false,
        },
{
    match operator_config(executable, workspace, model_id, facts) {
        Ok(_) => Ok(()),
        Err(e) => Err(e),
    }
}

/// Sets up the policy of a contract that was kept.
pub fn stored_policy(
    contract: AutonomousDevelopmentContractV1,
    paths: &ContractPathsV1,
) -> (r: Result<AutonomousPolicyEngineV1, RuntimeError>)
    ensures
        ({
            let refusal = engine_refusal(
                contract,
                paths.workspace,
                paths.allowed@,
                paths.forbidden@,
            );
            match r {
                Ok(engine) => refusal is None && engine.terms() == contract && engine.hash()
                    == fingerprint(contract.json()),
                Err(RuntimeError::Validation(message)) => refusal is Some && message@
                    == "persisted autonomous contract rejected: "@ + debug_variant(
                    "Validation"@,
                    refusal->0,
                ),
                Err(_) => false,
            }
        }),
{
    match AutonomousPolicyEngineV1::new(
        contract,
        &paths.workspace,
        &paths.allowed,
        &paths.forbidden,
    ) {
        Ok(engine) => Ok(engine),
        Err(e) => Err(
            RuntimeError::Validation(
                plus("persisted autonomous contract rejected: ", e.debug_text().as_str()),
            ),
        ),
    }
}

} // verus!
