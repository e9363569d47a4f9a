//! Laws of extraction: which calls are tests and suites, and what a test block
//! holds.

use crate::act;
use crate::blocks;
use crate::collect;
use crate::laws::walk;
use crate::parse;
use crate::parse::{AssertionContext, BlockModel, Outcome, TestModifier};
use crate::parser;
use crate::parser::Parsed;
use crate::source;
use crate::syntax::{CallTree, ExprTree, ItemTree, StmtTree};
use crate::text;
use vstd::prelude::*;
use vstd::utf8::*;

verus! {

/// A call of a variable goes by the name of the variable.
pub proof fn law_plain_call_goes_by_its_name(name: Seq<char>)
    ensures
        ExprTree::Identifier(name).callee_name() == Some((name, None::<TestModifier>)),
{
}

/// A call of a member of a variable goes by the name of the variable if the
/// member is `skip`, `todo` or `only`, and by none otherwise.
pub proof fn law_modifiers_are_skip_todo_and_only(name: Seq<char>, property: Seq<char>)
    ensures
        ({
            let member = ExprTree::Member {
                object: Box::new(ExprTree::Identifier(name)),
                property,
            };
            &&& property == "skip"@ ==> member.callee_name() == Some(
                (name, Some(TestModifier::Skip)),
            )
            &&& property == "todo"@ ==> member.callee_name() == Some(
                (name, Some(TestModifier::Todo)),
            )
            &&& property == "only"@ ==> member.callee_name() == Some(
                (name, Some(TestModifier::Only)),
            )
            &&& property != "skip"@ && property != "todo"@ && property != "only"@
                ==> member.callee_name() is None
        }),
{
    reveal_strlit("skip");
    reveal_strlit("todo");
    reveal_strlit("only");
    assert("skip"@[0] == 's' && "todo"@[0] == 't' && "only"@[0] == 'o');
}

/// `it.each(table)`, `test.each(table)` and `describe.each(table)` go by the
/// names `it`, `test` and `describe`, whatever the table is; a call of the
/// result of any other call goes by no name.
pub proof fn law_each_is_seen_through(inner: CallTree)
    ensures
        ExprTree::Call(inner).callee_name() is Some <==> ({
            &&& *inner.callee matches ExprTree::Member { object, property }
            &&& property == "each"@
            &&& (*object == ExprTree::Identifier("it"@) || *object == ExprTree::Identifier("test"@)
                || *object == ExprTree::Identifier("describe"@))
        }),
        ExprTree::Call(inner).callee_name() is Some ==> (*inner.callee matches ExprTree::Member {
            object,
            ..
        } && (*object matches ExprTree::Identifier(name) && ExprTree::Call(inner).callee_name()
            == Some((name, None::<TestModifier>)))),
{
}

/// Nothing but a variable, a member of a variable and a call has a name to go
/// by.
pub proof fn law_other_callees_have_no_name(e: ExprTree)
    requires
        !(e is Identifier),
        !(e is Call),
        e matches ExprTree::Member { object, .. } ==> !(*object is Identifier),
    ensures
        e.callee_name() is None,
{
}

/// Whether `body` is that of the first function among some arguments, which
/// stands at `k`.
pub open spec fn is_first_function(args: Seq<ItemTree>, k: int, body: Seq<StmtTree>) -> bool {
    &&& 0 <= k < args.len()
    &&& !args[k].spread
    &&& args[k].value == ExprTree::Function(body)
    &&& forall|j: int|
        0 <= j < k ==> (#[trigger] args[j]).spread || !(args[j].value is Function)
}

/// Whether there is no function among some arguments.
pub open spec fn has_no_function(args: Seq<ItemTree>) -> bool {
    forall|j: int|
        0 <= j < args.len() ==> (#[trigger] args[j]).spread || !(args[j].value is Function)
}

proof fn lemma_first_function(args: Seq<ItemTree>, k: int, body: Seq<StmtTree>)
    requires
        is_first_function(args, k, body),
    ensures
        blocks::callback_at(args) == Some(k),
        args[k].function_body() == Some(body),
{
    walk::law_callback_is_the_first_function(args);
    assert(args[k].function_body() is Some);
    match blocks::callback_at(args) {
        Some(i) => {
            if i < k {
                assert(args[i].spread || !(args[i].value is Function));
            } else if k < i {
                assert(args[k].function_body() is None);
            }
        },
        None => {
            assert(args[k].function_body() is None);
        },
    }
}

proof fn lemma_no_function(args: Seq<ItemTree>)
    requires
        has_no_function(args),
    ensures
        blocks::callback_at(args) is None,
{
    walk::law_callback_is_the_first_function(args);
    match blocks::callback_at(args) {
        Some(i) => {
            assert(args[i].spread || !(args[i].value is Function));
        },
        None => {},
    }
}

/// A call of `test` or `it`, with or without a modifier or `each`, whose first
/// argument is a string and that has a function among its arguments, is one
/// test. Its name is that string, its line is where the call starts, and the
/// rest is read off the body of that function.
pub proof fn law_test_call_is_one_test(
    call: CallTree,
    name: Seq<char>,
    modifier: Option<TestModifier>,
    title: Seq<char>,
    k: int,
    body: Seq<StmtTree>,
    source: Seq<char>,
)
    requires
        call.callee.callee_name() == Some((name, modifier)),
        name == "test"@ || name == "it"@,
        call.arguments.len() > 0,
        !call.arguments[0].spread,
        call.arguments[0].value matches ExprTree::Text { value, .. } && value == title,
        is_first_function(call.arguments, k, body),
    ensures
        ExprTree::Call(call).blocks(source).len() == 1,
        ({
            let block = ExprTree::Call(call).blocks(source)[0];
            let found = collect::stmts_found(body, source, AssertionContext::TopLevel);
            &&& block.name == title
            &&& block.line == source::line_at(source, call.start)
            &&& block.modifier == modifier
            &&& block.has_empty_body == (body.len() == 0)
            &&& block.has_act == (exists|i: int|
                0 <= i < body.len() && (#[trigger] body[i]).has_act())
            &&& block.bound_names == act::stmt_names(body)
            &&& block.assertions == found.assertions
            &&& block.mock_calls == found.mocks
            &&& block.catch_swallows == found.catch_swallows
            &&& block.catch_masks == found.catch_masks
            &&& block.dummy_literals == found.dummies
        }),
{
    lemma_first_function(call.arguments, k, body);
}

/// A call of `test` or `it` without a string for a title is no test.
pub proof fn law_untitled_call_is_no_test(
    call: CallTree,
    name: Seq<char>,
    modifier: Option<TestModifier>,
    source: Seq<char>,
)
    requires
        call.callee.callee_name() == Some((name, modifier)),
        name == "test"@ || name == "it"@,
        call.arguments.len() == 0 || call.arguments[0].spread || !(call.arguments[0].value is Text),
    ensures
        ExprTree::Call(call).blocks(source).len() == 0,
{
}

/// A titled call of `test` or `it` without a function is a test only if it is
/// marked todo: one with an empty body, in which nothing is found.
pub proof fn law_todo_needs_no_function(
    call: CallTree,
    name: Seq<char>,
    modifier: Option<TestModifier>,
    title: Seq<char>,
    source: Seq<char>,
)
    requires
        call.callee.callee_name() == Some((name, modifier)),
        name == "test"@ || name == "it"@,
        call.arguments.len() > 0,
        !call.arguments[0].spread,
        call.arguments[0].value matches ExprTree::Text { value, .. } && value == title,
        has_no_function(call.arguments),
    ensures
        modifier != Some(TestModifier::Todo) ==> ExprTree::Call(call).blocks(source).len() == 0,
        modifier == Some(TestModifier::Todo) ==> ExprTree::Call(call).blocks(source) == seq![
            BlockModel {
                name: title,
                line: source::line_at(source, call.start),
                assertions: seq![],
                mock_calls: seq![],
                modifier: Some(TestModifier::Todo),
                has_empty_body: true,
                has_act: false,
                bound_names: seq![],
                catch_swallows: seq![],
                catch_masks: seq![],
                dummy_literals: seq![],
            },
        ],
{
    lemma_no_function(call.arguments);
}

/// The tests of a suite are the tests among the statements of its callback,
/// whatever its title, its modifier and its other arguments are; a suite
/// without a callback has none.
pub proof fn law_suite_holds_the_tests_of_its_callback(
    call: CallTree,
    modifier: Option<TestModifier>,
    k: int,
    body: Seq<StmtTree>,
    source: Seq<char>,
)
    requires
        call.callee.callee_name() == Some(("describe"@, modifier)),
    ensures
        is_first_function(call.arguments, k, body) ==> ExprTree::Call(call).blocks(source)
            == blocks::suite_blocks(body, source),
        has_no_function(call.arguments) ==> ExprTree::Call(call).blocks(source).len() == 0,
{
    reveal_strlit("describe");
    reveal_strlit("test");
    reveal_strlit("it");
    assert("describe"@[0] == 'd' && "test"@[0] == 't' && "it"@[0] == 'i');
    if is_first_function(call.arguments, k, body) {
        lemma_first_function(call.arguments, k, body);
    }
    if has_no_function(call.arguments) {
        lemma_no_function(call.arguments);
    }
}

/// Two suites with the same callback have the same tests, however else they
/// differ.
pub proof fn law_title_of_a_suite_does_not_matter(
    a: CallTree,
    b: CallTree,
    m: Option<TestModifier>,
    n: Option<TestModifier>,
    i: int,
    k: int,
    body: Seq<StmtTree>,
    source: Seq<char>,
)
    requires
        a.callee.callee_name() == Some(("describe"@, m)),
        b.callee.callee_name() == Some(("describe"@, n)),
        is_first_function(a.arguments, i, body),
        is_first_function(b.arguments, k, body),
    ensures
        ExprTree::Call(a).blocks(source) == ExprTree::Call(b).blocks(source),
{
    law_suite_holds_the_tests_of_its_callback(a, m, i, body, source);
    law_suite_holds_the_tests_of_its_callback(b, n, k, body, source);
}

/// A statement of a file or suite gives the tests of its expression, if it is
/// an expression statement, and none otherwise; a call by another name, and
/// what is no call, gives none.
pub proof fn law_tests_stand_in_expression_statements(
    s: StmtTree,
    e: ExprTree,
    source: Seq<char>,
)
    ensures
        blocks::suite_blocks(seq![StmtTree::Expression(e)], source) == e.blocks(source),
        !(s is Expression) ==> blocks::suite_blocks(seq![s], source).len() == 0,
        !(e is Call) ==> e.blocks(source).len() == 0,
        (e matches ExprTree::Call(call) && (call.callee.callee_name() matches Some((name, _))
            ==> name != "test"@ && name != "it"@ && name != "describe"@)) ==> e.blocks(
            source,
        ).len() == 0,
{
    let one = seq![StmtTree::Expression(e)];
    assert(one.drop_last() =~= seq![]);
    assert(blocks::suite_blocks(one.drop_last(), source) =~= seq![]);
    assert(blocks::suite_blocks(one, source) =~= e.blocks(source));
    assert(seq![s].drop_last() =~= seq![]);
    assert(blocks::suite_blocks(seq![s].drop_last(), source) =~= seq![]);
}

/// A file that parses without a diagnostic gives the tests of its statements;
/// one with diagnostics gives an error that holds all of them.
pub proof fn law_diagnostics_decide(parsed: Parsed, source: Seq<char>)
    ensures
        parsed.diagnostics.len() == 0 ==> parse::outcome_of(parsed, source) == Outcome::Blocks(
            blocks::suite_blocks(parsed.statements, source),
        ),
        parsed.diagnostics.len() == 1 ==> parse::outcome_of(parsed, source) == Outcome::Message(
            parsed.diagnostics[0],
        ),
        parsed.diagnostics.len() > 1 ==> ({
            let before = Parsed { diagnostics: parsed.diagnostics.drop_last(), ..parsed };
            &&& parse::outcome_of(before, source) matches Outcome::Message(message)
            &&& parse::outcome_of(parsed, source) == Outcome::Message(
                message + "; "@ + parsed.diagnostics.last(),
            )
        }),
{
}

/// Exactly a text that nests more than five hundred brackets is refused
/// unparsed; any other is parsed, in the language of its path.
pub proof fn law_nesting_limit(text: Seq<char>, path: Seq<char>)
    ensures
        source::bracket_depth(encode_utf8(text)) <= 500 ==> parse::file_outcome(text, path)
            == parse::outcome_of(parser::parsed(text, parser::language(path)), text),
        source::bracket_depth(encode_utf8(text)) > 500 ==> parse::file_outcome(text, path)
            == Outcome::Message("bracket nesting depth exceeds limit of "@ + text::decimal(500)),
        parser::language_of(path) is Some ==> Some(parser::language(path)) == parser::language_of(
            path,
        ),
        parser::language_of(path) is None ==> parser::language(path) == parser::language_of(
            "test.ts"@,
        )->0,
{
}

/// An opening bracket opens one more, a closing one closes one if any is open,
/// and no other byte counts; the depth is the most that were open at once.
pub proof fn law_brackets_nest(bytes: Seq<u8>, byte: u8)
    ensures
        source::bracket_depth(seq![]) == 0,
        source::open_brackets(seq![]) == 0,
        byte == '{' as u8 || byte == '[' as u8 || byte == '(' as u8 ==> source::open_brackets(
            bytes.push(byte),
        ) == source::open_brackets(bytes) + 1,
        byte == '}' as u8 || byte == ']' as u8 || byte == ')' as u8 ==> source::open_brackets(
            bytes.push(byte),
        ) == (if source::open_brackets(bytes) > 0 {
            source::open_brackets(bytes) - 1
        } else {
            0
        }),
        byte != '{' as u8 && byte != '[' as u8 && byte != '(' as u8 && byte != '}' as u8 && byte
            != ']' as u8 && byte != ')' as u8 ==> source::open_brackets(bytes.push(byte))
            == source::open_brackets(bytes),
        source::bracket_depth(bytes) >= source::open_brackets(bytes),
        source::bracket_depth(bytes.push(byte)) == (if source::open_brackets(bytes.push(byte))
            > source::bracket_depth(bytes) {
            source::open_brackets(bytes.push(byte))
        } else {
            source::bracket_depth(bytes)
        }),
{
    assert(bytes.push(byte).drop_last() =~= bytes);
}

/// The line of an offset goes up by one behind a line feed and stays behind
/// any other byte; the first line has the number 1.
pub proof fn law_line_feeds_count_lines(text: Seq<char>, offset: u32)
    requires
        offset < u32::MAX,
    ensures
        source::line_at(text, 0) == 1,
        source::line_at(text, offset) < u32::MAX ==> source::line_at(text, (offset + 1) as u32)
            == source::line_at(text, offset) + (if offset < encode_utf8(text).len() && encode_utf8(
            text,
        )[offset as int] == '\n' as u8 {
            1int
        } else {
            0int
        }),
{
    assert('\n' as u8 == 10);
}

proof fn lemma_encoded_concat(a: Seq<char>, b: Seq<char>)
    ensures
        encode_utf8(a + b) == encode_utf8(a) + encode_utf8(b),
        is_char_boundary(encode_utf8(a + b), encode_utf8(a).len() as int),
    decreases a.len(),
{
    let whole = a + b;
    encode_utf8_valid_utf8(whole);
    if a.len() == 0 {
        assert(whole =~= b);
        assert(encode_utf8(a) + encode_utf8(b) =~= encode_utf8(b));
    } else {
        let rest = a.drop_first();
        lemma_encoded_concat(rest, b);
        assert(whole.drop_first() =~= rest + b);
        assert(whole[0] == a[0]);
        encode_utf8_first_scalar(whole);
        assert(pop_first_scalar(encode_utf8(whole)) =~= encode_utf8(rest + b));
        assert(encode_utf8(whole) =~= encode_utf8(a) + encode_utf8(b));
        assert(encode_utf8(a).len() == encode_scalar(a[0] as u32).len() + encode_utf8(rest).len());
    }
}

/// The text between two offsets is what stands there: where a text is made of
/// three pieces, the middle one stands between the ends of the first two.
pub proof fn law_text_between_is_what_stands_there(a: Seq<char>, b: Seq<char>, c: Seq<char>)
    requires
        encode_utf8(a).len() + encode_utf8(b).len() <= u32::MAX,
    ensures
        source::text_between(
            a + b + c,
            encode_utf8(a).len() as u32,
            (encode_utf8(a).len() + encode_utf8(b).len()) as u32,
        ) == b,
{
    let bytes = encode_utf8(a + b + c);
    let start = encode_utf8(a).len() as int;
    let end = start + encode_utf8(b).len();
    lemma_encoded_concat(a + b, c);
    lemma_encoded_concat(a, b);
    let head = bytes.subrange(0, end);
    assert(head =~= encode_utf8(a + b));
    assert(head.subrange(start, head.len() as int) =~= encode_utf8(b));
    encode_utf8_decode_utf8(b);
}

} // verus!
