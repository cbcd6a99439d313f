//! Patches that a worker proposes, and the diff that they leave.

use vstd::prelude::*;
use vstd::string::*;
use crate::contracts::{PatchId, RunId, TurnId};

verus! {

/// One text to put in the place of another.
#[derive(Clone, Debug, PartialEq, Eq)]
pub struct ReplaceOperationV1 {
    pub path: String,
    pub old_text: String,
    pub new_text: String,
}

/// The fingerprint of a file's text.
#[derive(Clone, Debug, PartialEq, Eq)]
pub struct FileHashV1 {
    pub path: String,
    pub hash: String,
}

/// A patch that a worker proposes.
#[derive(Clone, Debug, PartialEq, Eq)]
pub struct PatchProposalV1 {
    pub schema_version: u32,
    pub patch_id: PatchId,
    pub parent_patch_id: Option<PatchId>,
    pub run_id: RunId,
    pub turn_id: TurnId,
    pub base_snapshot_hash: String,
    pub target_paths: Vec<String>,
    pub expected_preimage_hashes: Vec<FileHashV1>,
    pub operations: Vec<ReplaceOperationV1>,
    pub model_rationale: String,
    pub claimed_acceptance_criteria: Vec<String>,
}

/// The diff of a workspace against a commit, as Git prints it.
#[derive(Clone, Debug, PartialEq, Eq)]
pub struct ActualDiffArtifactV1 {
    pub base_ref: String,
    pub paths: Vec<String>,
    pub diff: String,
    pub diff_hash: String,
}

} // verus!
