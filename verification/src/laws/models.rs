//! Laws of the models: what contracts say of a value, they say of all of it.

use crate::cli;
use crate::cli::{Config, JsonScan, Request, WorkerOutput};
use crate::parse;
use crate::parse::{Assertion, DummyLiteral, Outcome, TestBlock};
use crate::rules;
use crate::rules::Issue;
use crate::text;
use crate::{AnalysisResult, FileError, LitmusError, Verdict};
use vstd::prelude::*;

verus! {

/// The model of a test block holds every field of it, and every element of
/// every field.
pub proof fn law_block_model_is_whole(block: TestBlock, i: int)
    ensures
        block@.name == block.name@,
        block@.line == block.line,
        block@.modifier == block.modifier,
        block@.has_empty_body == block.has_empty_body,
        block@.has_act == block.has_act,
        block@.mock_calls == block.mock_calls@,
        block@.catch_swallows == block.catch_swallows@,
        block@.catch_masks == block.catch_masks@,
        block@.bound_names.len() == block.bound_names@.len(),
        0 <= i < block.bound_names@.len() ==> block@.bound_names[i] == block.bound_names@[i]@,
        block@.dummy_literals.len() == block.dummy_literals@.len(),
        0 <= i < block.dummy_literals@.len() ==> block@.dummy_literals[i]
            == block.dummy_literals@[i]@,
        block@.assertions.len() == block.assertions@.len(),
        0 <= i < block.assertions@.len() ==> block@.assertions[i] == block.assertions@[i]@,
{
}

/// The models of an assertion and of a placeholder hold every field.
pub proof fn law_assertion_model_is_whole(a: Assertion, d: DummyLiteral)
    ensures
        a@.line == a.line,
        a@.target == a.target@,
        a@.target_kind == a.target_kind,
        a@.matcher == a.matcher@,
        a@.is_weak == a.is_weak,
        a@.context == a.context,
        a.target_root is None ==> a@.target_root is None,
        a.target_root matches Some(root) ==> a@.target_root == Some(root@),
        d@.value == d.value@,
        d@.line == d.line,
{
}

/// The models of a finding, an error and a result hold every field, and every
/// element.
pub proof fn law_result_model_is_whole(x: Issue, e: FileError, r: AnalysisResult, i: int)
    ensures
        x@.rule == x.rule@,
        x@.file == x.file@,
        x@.line == x.line,
        x@.test_name == x.test_name@,
        x@.detail == x.detail@,
        e@.file == e.file@,
        e@.kind == e.kind,
        e@.message == e.message@,
        r@.issues.len() == r.issues@.len(),
        0 <= i < r.issues@.len() ==> r@.issues[i] == r.issues@[i]@,
        r@.errors.len() == r.errors@.len(),
        0 <= i < r.errors@.len() ==> r@.errors[i] == r.errors@[i]@,
{
}

/// What a parse came to: every test block if it succeeded, the message if it
/// failed.
pub proof fn law_outcome_is_whole(tests: Vec<TestBlock>, message: String, i: int)
    ensures
        parse::outcome(Ok(tests)) matches Outcome::Blocks(models) && models.len() == tests@.len()
            && (0 <= i < tests@.len() ==> models[i] == tests@[i]@),
        parse::outcome(Err(message)) == Outcome::Message(message@),
{
}

/// What an analysis came to: every finding if it succeeded, the message if it
/// failed.
pub proof fn law_verdict_is_whole(issues: Vec<Issue>, message: String, i: int)
    ensures
        crate::verdict(Ok(issues)) matches Verdict::Issues(models) && models.len() == issues@.len()
            && (0 <= i < issues@.len() ==> models[i] == issues@[i]@),
        crate::verdict(Err(message)) == Verdict::Message(message@),
        rules::issue_models(issues@).len() == issues@.len(),
        0 <= i < issues@.len() ==> rules::issue_models(issues@)[i] == issues@[i]@,
{
}

/// What the arguments came to.
pub proof fn law_request_is_whole(config: Config, message: String)
    ensures
        cli::request(Ok(config)) matches Request::Run(model) && model.dir == config.dir@
            && model.json == config.json && (config.worker_file is None
            ==> model.worker_file is None) && (config.worker_file matches Some(file)
            ==> model.worker_file == Some(file@)),
        cli::request(Err(LitmusError::Usage(message))) == Request::Usage(message@),
        cli::request(Err(LitmusError::Internal(message))) == Request::Internal(message@),
{
}

/// What a worker writes, and what the parent has gathered.
pub proof fn law_scan_model_is_whole(
    out: WorkerOutput,
    scan: JsonScan,
    e: FileError,
    notes: Seq<(u32, String)>,
    parts: Seq<String>,
    i: int,
)
    ensures
        out@.stderr == out.stderr@,
        out@.code == out.code,
        out.stdout is None ==> out@.stdout is None,
        out.stdout matches Some(s) ==> out@.stdout == Some(s@),
        scan@.max == scan.max,
        scan@.issue_frags == text::views(scan.issue_frags@),
        scan@.error_frags == text::views(scan.error_frags@),
        cli::optional_error(Some(e)) == Some(e@),
        cli::optional_error(None) is None,
        rules::note_models(notes).len() == notes.len(),
        0 <= i < notes.len() ==> rules::note_models(notes)[i] == (notes[i].0, notes[i].1@),
        text::views(parts).len() == parts.len(),
        0 <= i < parts.len() ==> text::views(parts)[i] == parts[i]@,
{
}

} // verus!
