//! Test blocks: what the analysis extracts from one test file.

use crate::blocks;
use crate::disposal;
use crate::parser;
use crate::parser::{Parsed, BRACKET_DEPTH_LIMIT};
use crate::source;
use crate::syntax;
use crate::syntax::Stmt;
use crate::text;
use vstd::prelude::*;
use vstd::utf8::*;

verus! {

/// The modifier of a test, as in `test.skip(...)`.
#[derive(Debug, Clone, Copy, PartialEq, Eq, Structural)]
pub enum TestModifier {
    Skip,
    Todo,
    Only,
}

/// Where in the control flow of a test an assertion stands.
#[derive(Debug, Clone, Copy, PartialEq, Eq, Structural)]
pub enum AssertionContext {
    TopLevel,
    IfBranch,
    TryBlock,
    CatchBlock,
}

/// What kind of expression an assertion is made about.
#[derive(Debug, Clone, Copy, PartialEq, Eq, Structural)]
pub enum TargetKind {
    Literal,
    Identifier,
    CallResult,
    Other,
}

/// How a mock is set up. `vi` and `jest` share the first three.
#[derive(Debug, Clone, Copy, PartialEq, Eq, Structural)]
pub enum MockKind {
    ViFn,
    ViMock,
    ViSpyOn,
    BunMock,
}

/// One `test(...)` or `it(...)` call and what was found in its body.
#[derive(Debug, Clone, PartialEq)]
pub struct TestBlock {
    pub name: String,
    pub line: u32,
    pub assertions: Vec<Assertion>,
    pub mock_calls: Vec<MockCall>,
    pub modifier: Option<TestModifier>,
    pub has_empty_body: bool,
    /// Whether the body invokes production code (the "Act" step of AAA). False
    /// when the test only arranges data and asserts on it, with no SUT call.
    pub has_act: bool,
    /// Names the body binds locally (the "Arrange" step), e.g. `x` in
    /// `const x = 42`. missing-act fires only when an assertion targets one of
    /// these names with no Act, separating data arranged-and-asserted in the
    /// body from data whose arrange/act lives in setup hooks.
    pub bound_names: Vec<String>,
    /// Lines of the catch handlers that neither assert nor rethrow.
    pub catch_swallows: Vec<u32>,
    /// Lines of the catch handlers that assert without rethrowing while the
    /// try block asserts too: the failure of the try assertion is swallowed and
    /// replaced by a passing catch assertion.
    pub catch_masks: Vec<u32>,
    pub dummy_literals: Vec<DummyLiteral>,
}

/// A string literal inside a test body whose value is a known placeholder.
#[derive(Debug, Clone, PartialEq)]
pub struct DummyLiteral {
    pub value: String,
    pub line: u32,
}

#[derive(Debug, Clone, PartialEq)]
pub struct Assertion {
    pub line: u32,
    pub target: String,
    pub target_kind: TargetKind,
    /// Root identifier of the assertion target, e.g. `user` in
    /// `expect(user.name)`. None when the target is a literal or call result.
    pub target_root: Option<String>,
    pub matcher: String,
    pub is_weak: bool,
    pub context: AssertionContext,
}

#[derive(Debug, Clone, Copy, PartialEq, Eq, Structural)]
pub struct MockCall {
    pub line: u32,
    pub kind: MockKind,
}

#[verifier::ext_equal]
pub ghost struct BlockModel {
    pub name: Seq<char>,
    pub line: u32,
    pub assertions: Seq<AssertionModel>,
    pub mock_calls: Seq<MockCall>,
    pub modifier: Option<TestModifier>,
    pub has_empty_body: bool,
    pub has_act: bool,
    pub bound_names: Seq<Seq<char>>,
    pub catch_swallows: Seq<u32>,
    pub catch_masks: Seq<u32>,
    pub dummy_literals: Seq<DummyModel>,
}

#[verifier::ext_equal]
pub ghost struct DummyModel {
    pub value: Seq<char>,
    pub line: u32,
}

#[verifier::ext_equal]
pub ghost struct AssertionModel {
    pub line: u32,
    pub target: Seq<char>,
    pub target_kind: TargetKind,
    pub target_root: Option<Seq<char>>,
    pub matcher: Seq<char>,
    pub is_weak: bool,
    pub context: AssertionContext,
}

impl View for DummyLiteral {
    type V = DummyModel;

    open spec fn view(&self) -> DummyModel {
        DummyModel { value: self.value@, line: self.line }
    }
}

impl View for Assertion {
    type V = AssertionModel;

    open spec fn view(&self) -> AssertionModel {
        AssertionModel {
            line: self.line,
            target: self.target@,
            target_kind: self.target_kind,
            target_root: match self.target_root {
                Some(root) => Some(root@),
                None => None,
            },
            matcher: self.matcher@,
            is_weak: self.is_weak,
            context: self.context,
        }
    }
}

impl View for TestBlock {
    type V = BlockModel;

    open spec fn view(&self) -> BlockModel {
        BlockModel {
            name: self.name@,
            line: self.line,
            assertions: assertion_models(self.assertions@),
            mock_calls: self.mock_calls@,
            modifier: self.modifier,
            has_empty_body: self.has_empty_body,
            has_act: self.has_act,
            bound_names: crate::text::views(self.bound_names@),
            catch_swallows: self.catch_swallows@,
            catch_masks: self.catch_masks@,
            dummy_literals: dummy_models(self.dummy_literals@),
        }
    }
}

pub open spec fn assertion_models(s: Seq<Assertion>) -> Seq<AssertionModel> {
    Seq::new(s.len(), |i: int| s[i]@)
}

pub open spec fn dummy_models(s: Seq<DummyLiteral>) -> Seq<DummyModel> {
    Seq::new(s.len(), |i: int| s[i]@)
}

pub open spec fn block_models(s: Seq<TestBlock>) -> Seq<BlockModel> {
    Seq::new(s.len(), |i: int| s[i]@)
}

/// The outcome of extracting test blocks, or the message of the error.
pub ghost enum Outcome {
    Blocks(Seq<BlockModel>),
    Message(Seq<char>),
}

pub open spec fn outcome(r: Result<Vec<TestBlock>, String>) -> Outcome {
    match r {
        Ok(blocks) => Outcome::Blocks(block_models(blocks@)),
        Err(message) => Outcome::Message(message@),
    }
}

/// What is made of a parsed file: its test blocks, unless the parser had
/// anything to say.
pub open spec fn outcome_of(parsed: Parsed, source: Seq<char>) -> Outcome {
    if parsed.diagnostics.len() > 0 {
        Outcome::Message(text::joined(parsed.diagnostics, "; "@))
    } else {
        Outcome::Blocks(blocks::suite_blocks(parsed.statements, source))
    }
}

pub open spec fn nesting_message() -> Seq<char> {
    "bracket nesting depth exceeds limit of "@ + text::decimal(BRACKET_DEPTH_LIMIT as nat)
}

/// What is made of a source text: a text that is nested too deeply is not
/// parsed at all.
pub open spec fn file_outcome(source: Seq<char>, path: Seq<char>) -> Outcome {
    if source::bracket_depth(encode_utf8(source)) > BRACKET_DEPTH_LIMIT {
        Outcome::Message(nesting_message())
    } else {
        outcome_of(parser::parsed(source, parser::language(path)), source)
    }
}

/// The test blocks of a parsed program, or the diagnostics in one message.
pub fn blocks_of_program(program: Result<Vec<Stmt>, Vec<String>>, source: &str) -> (r: Result<
    Vec<TestBlock>,
    String,
>)
    ensures
        match program {
            Ok(statements) => outcome(r) == Outcome::Blocks(
                blocks::suite_blocks(syntax::stmt_trees(statements@), source@),
            ),
            Err(messages) => outcome(r) == Outcome::Message(
                text::joined(text::views(messages@), "; "@),
            ),
        },
{
    match program {
        Ok(statements) => {
            let found: Vec<TestBlock> = blocks::test_blocks(&statements, source);
            disposal::discard(statements);
            Ok(found)
        },
        Err(messages) => Err(text::join(&messages, "; ")),
    }
}

/// Extracts the test blocks of a source text. `path` tells the language.
pub fn parse_test_file(source: &str, path: &str) -> (r: Result<Vec<TestBlock>, String>)
    ensures
        outcome(r) == file_outcome(source@, path@),
{
    if source::max_bracket_depth(source) > BRACKET_DEPTH_LIMIT {
        let mut message: String = "bracket nesting depth exceeds limit of ".to_owned();
        text::push_decimal(&mut message, BRACKET_DEPTH_LIMIT as u64);
        return Err(message);
    }
    blocks_of_program(parser::parse_program(source, path), source)
}

} // verus!
