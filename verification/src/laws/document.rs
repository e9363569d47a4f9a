//! Laws of the JSON documents: what a JSON reader gets out of them.

use crate::json;
use crate::laws::output;
use crate::rules::IssueModel;
use crate::text;
use crate::{ErrorModel, FileErrorKind, LitmusError, ResultModel};
use vstd::prelude::*;

verus! {

/// A JSON value, as far as the documents use them: strings, whole numbers,
/// arrays and objects. The members of an object are in order.
pub ghost enum JsonValue {
    Text(Seq<char>),
    Number(nat),
    Array(Seq<JsonValue>),
    Object(Seq<(Seq<char>, JsonValue)>),
}

/// Reads a string literal from behind its opening quote: the text that it
/// stands for, and what follows the closing quote.
pub open spec fn text_read(s: Seq<char>) -> Option<(Seq<char>, Seq<char>)>
    decreases s.len(),
{
    if s.len() == 0 {
        None
    } else if s[0] == '"' {
        Some((seq![], s.skip(1)))
    } else {
        match output::first_unescaped(s) {
            Some((c, n)) => if 0 < n <= s.len() {
                match text_read(s.skip(n)) {
                    Some((t, rest)) => Some((seq![c] + t, rest)),
                    None => None,
                }
            } else {
                None
            },
            None => None,
        }
    }
}

pub open spec fn is_digit(c: char) -> bool {
    '0' <= c <= '9'
}

/// How many digits a text begins with.
pub open spec fn digit_count(s: Seq<char>) -> nat
    decreases s.len(),
{
    if s.len() == 0 || !is_digit(s[0]) {
        0
    } else {
        1 + digit_count(s.skip(1))
    }
}

/// The number that some digits stand for.
pub open spec fn digits_value(s: Seq<char>) -> nat
    decreases s.len(),
{
    if s.len() == 0 {
        0
    } else {
        digits_value(s.drop_last()) * 10 + (s.last() as int - '0' as int) as nat
    }
}

/// Reads a whole number, which has no leading zeros, and what follows it.
pub open spec fn number_read(s: Seq<char>) -> Option<(nat, Seq<char>)> {
    let n = digit_count(s) as int;
    if n == 0 || (n > 1 && s[0] == '0') {
        None
    } else {
        Some((digits_value(s.take(n)), s.skip(n)))
    }
}

/// Reads a value and what follows it (RFC 8259, without white space).
pub open spec fn value_read(s: Seq<char>) -> Option<(JsonValue, Seq<char>)>
    decreases s.len(), 0nat,
{
    if s.len() == 0 {
        None
    } else if s[0] == '"' {
        match text_read(s.skip(1)) {
            Some((t, rest)) => Some((JsonValue::Text(t), rest)),
            None => None,
        }
    } else if s[0] == '[' {
        if s.len() > 1 && s[1] == ']' {
            Some((JsonValue::Array(seq![]), s.skip(2)))
        } else {
            match elements_read(s.skip(1)) {
                Some((elements, rest)) => Some((JsonValue::Array(elements), rest)),
                None => None,
            }
        }
    } else if s[0] == '{' {
        if s.len() > 1 && s[1] == '}' {
            Some((JsonValue::Object(seq![]), s.skip(2)))
        } else {
            match members_read(s.skip(1)) {
                Some((members, rest)) => Some((JsonValue::Object(members), rest)),
                None => None,
            }
        }
    } else {
        match number_read(s) {
            Some((n, rest)) => Some((JsonValue::Number(n), rest)),
            None => None,
        }
    }
}

/// Reads the elements of an array up to and with its closing bracket.
pub open spec fn elements_read(s: Seq<char>) -> Option<(Seq<JsonValue>, Seq<char>)>
    decreases s.len(), 1nat,
{
    match value_read(s) {
        Some((value, rest)) => if rest.len() == 0 || rest.len() > s.len() {
            None
        } else if rest[0] == ']' {
            Some((seq![value], rest.skip(1)))
        } else if rest[0] == ',' {
            match elements_read(rest.skip(1)) {
                Some((more, end)) => Some((seq![value] + more, end)),
                None => None,
            }
        } else {
            None
        },
        None => None,
    }
}

/// Reads the name of a member and the colon behind it.
pub open spec fn name_read(s: Seq<char>) -> Option<(Seq<char>, Seq<char>)> {
    if s.len() == 0 || s[0] != '"' {
        None
    } else {
        match text_read(s.skip(1)) {
            Some((name, rest)) => if rest.len() > 0 && rest[0] == ':' {
                Some((name, rest.skip(1)))
            } else {
                None
            },
            None => None,
        }
    }
}

/// Reads the members of an object up to and with its closing brace.
pub open spec fn members_read(s: Seq<char>) -> Option<(Seq<(Seq<char>, JsonValue)>, Seq<char>)>
    decreases s.len(), 1nat,
{
    match name_read(s) {
        Some((name, body)) => if body.len() >= s.len() {
            None
        } else {
            match value_read(body) {
                Some((value, rest)) => if rest.len() == 0 || rest.len() > s.len() {
                    None
                } else if rest[0] == '}' {
                    Some((seq![(name, value)], rest.skip(1)))
                } else if rest[0] == ',' {
                    match members_read(rest.skip(1)) {
                        Some((more, end)) => Some((seq![(name, value)] + more, end)),
                        None => None,
                    }
                } else {
                    None
                },
                None => None,
            }
        },
        None => None,
    }
}

/// The value that a whole text stands for.
pub open spec fn document_read(s: Seq<char>) -> Option<JsonValue> {
    match value_read(s) {
        Some((value, rest)) => if rest.len() == 0 {
            Some(value)
        } else {
            None
        },
        None => None,
    }
}

pub open spec fn quoted(t: Seq<char>) -> Seq<char> {
    seq!['"'] + json::escaped(t) + seq!['"']
}

impl JsonValue {
    /// The value as JSON text.
    pub open spec fn written(self) -> Seq<char>
        decreases self,
    {
        match self {
            JsonValue::Text(t) => quoted(t),
            JsonValue::Number(n) => text::decimal(n),
            JsonValue::Array(elements) => seq!['['] + elements_written(elements) + seq![']'],
            JsonValue::Object(members) => seq!['{'] + members_written(members) + seq!['}'],
        }
    }
}

pub open spec fn elements_written(s: Seq<JsonValue>) -> Seq<char>
    decreases s,
{
    if s.len() == 0 {
        seq![]
    } else if s.len() == 1 {
        s[0].written()
    } else {
        s[0].written() + seq![','] + elements_written(s.drop_first())
    }
}

pub open spec fn members_written(s: Seq<(Seq<char>, JsonValue)>) -> Seq<char>
    decreases s,
{
    if s.len() == 0 {
        seq![]
    } else {
        let first = quoted(s[0].0) + seq![':'] + s[0].1.written();
        if s.len() == 1 {
            first
        } else {
            first + seq![','] + members_written(s.drop_first())
        }
    }
}

proof fn lemma_text_read(t: Seq<char>, rest: Seq<char>)
    ensures
        text_read(json::escaped(t) + seq!['"'] + rest) == Some((t, rest)),
    decreases t.len(),
{
    let whole = json::escaped(t) + seq!['"'] + rest;
    if t.len() == 0 {
        assert(whole[0] == '"');
        assert(whole.skip(1) =~= rest);
        assert(t =~= seq![]);
    } else {
        let head = seq![t[0]];
        let tail = t.skip(1);
        assert(head + tail =~= t);
        output::lemma_escaped_concat(head, tail);
        assert(json::escaped(head.drop_last()) =~= seq![]);
        assert(json::escaped(head) =~= json::escape_of(t[0]));
        let first = json::escape_of(t[0]);
        let after = json::escaped(tail) + seq!['"'] + rest;
        assert(whole =~= first + after);
        output::lemma_first_unescaped(t[0], after);
        assert(whole.skip(first.len() as int) =~= after);
        lemma_text_read(tail, rest);
    }
}

proof fn lemma_digit_count(digits: Seq<char>, rest: Seq<char>)
    requires
        forall|i: int| 0 <= i < digits.len() ==> is_digit(#[trigger] digits[i]),
        rest.len() == 0 || !is_digit(rest[0]),
    ensures
        digit_count(digits + rest) == digits.len(),
    decreases digits.len(),
{
    let whole = digits + rest;
    if digits.len() == 0 {
        assert(whole =~= rest);
    } else {
        assert(is_digit(digits[0]));
        assert(whole[0] == digits[0]);
        assert(whole.skip(1) =~= digits.skip(1) + rest);
        lemma_digit_count(digits.skip(1), rest);
    }
}

proof fn lemma_decimal(n: nat)
    ensures
        digits_value(text::decimal(n)) == n,
        text::decimal(n).len() > 0,
        forall|i: int| 0 <= i < text::decimal(n).len() ==> is_digit(#[trigger] text::decimal(n)[i]),
        n > 0 ==> text::decimal(n)[0] != '0',
        n == 0 ==> text::decimal(n).len() == 1,
    decreases n,
{
    let digits = text::decimal(n);
    if n < 10 {
        assert(digits.drop_last() =~= seq![]);
        assert(digits_value(digits.drop_last()) == 0);
    } else {
        lemma_decimal(n / 10);
        assert(digits.drop_last() =~= text::decimal(n / 10));
        assert(digits.last() == text::digit((n % 10) as int));
        assert(digits[0] == text::decimal(n / 10)[0]);
    }
}

proof fn lemma_number_read(n: nat, rest: Seq<char>)
    requires
        rest.len() == 0 || !is_digit(rest[0]),
    ensures
        number_read(text::decimal(n) + rest) == Some((n, rest)),
        text::decimal(n).len() > 0,
        is_digit(text::decimal(n)[0]),
{
    let digits = text::decimal(n);
    let whole = digits + rest;
    lemma_decimal(n);
    lemma_digit_count(digits, rest);
    assert(whole.take(digits.len() as int) =~= digits);
    assert(whole.skip(digits.len() as int) =~= rest);
    assert(whole[0] == digits[0]);
}

proof fn lemma_written_start(v: JsonValue)
    ensures
        v.written().len() > 0,
        v.written()[0] != ']',
{
    match v {
        JsonValue::Number(n) => {
            lemma_decimal(n);
            assert(is_digit(text::decimal(n)[0]));
        },
        JsonValue::Text(t) => {
            assert(v.written()[0] == '"');
        },
        JsonValue::Array(s) => {
            assert(v.written()[0] == '[');
        },
        JsonValue::Object(s) => {
            assert(v.written()[0] == '{');
        },
    }
}

/// A value written as JSON is read back as that very value, whatever follows
/// it, but that a digit right behind it would belong to a number.
pub proof fn law_written_value_is_read_back(v: JsonValue, rest: Seq<char>)
    requires
        rest.len() == 0 || !is_digit(rest[0]),
    ensures
        value_read(v.written() + rest) == Some((v, rest)),
    decreases v, 0nat,
{
    let whole = v.written() + rest;
    match v {
        JsonValue::Text(t) => {
            assert(whole[0] == '"');
            assert(whole.skip(1) =~= json::escaped(t) + seq!['"'] + rest);
            lemma_text_read(t, rest);
        },
        JsonValue::Number(n) => {
            lemma_number_read(n, rest);
            assert(whole[0] == text::decimal(n)[0]);
        },
        JsonValue::Array(s) => {
            lemma_array_read(s, rest);
        },
        JsonValue::Object(s) => {
            lemma_object_read(s, rest);
        },
    }
}

proof fn lemma_array_read(s: Seq<JsonValue>, rest: Seq<char>)
    ensures
        value_read(seq!['['] + elements_written(s) + seq![']'] + rest) == Some(
            (JsonValue::Array(s), rest),
        ),
    decreases s, 1nat,
{
    let whole = seq!['['] + elements_written(s) + seq![']'] + rest;
    if s.len() == 0 {
        assert(whole[1] == ']');
        assert(whole.skip(2) =~= rest);
        assert(s =~= seq![]);
    } else {
        assert(whole.skip(1) =~= elements_written(s) + seq![']'] + rest);
        lemma_written_start(s[0]);
        assert(elements_written(s)[0] == s[0].written()[0]);
        assert(whole[1] == elements_written(s)[0]);
        lemma_elements_read(s, rest);
    }
}

proof fn lemma_object_read(s: Seq<(Seq<char>, JsonValue)>, rest: Seq<char>)
    ensures
        value_read(seq!['{'] + members_written(s) + seq!['}'] + rest) == Some(
            (JsonValue::Object(s), rest),
        ),
    decreases s, 1nat,
{
    let whole = seq!['{'] + members_written(s) + seq!['}'] + rest;
    if s.len() == 0 {
        assert(whole[1] == '}');
        assert(whole.skip(2) =~= rest);
        assert(s =~= seq![]);
    } else {
        assert(whole.skip(1) =~= members_written(s) + seq!['}'] + rest);
        assert(members_written(s)[0] == '"');
        assert(whole[1] == members_written(s)[0]);
        lemma_members_read(s, rest);
    }
}

proof fn lemma_elements_read(s: Seq<JsonValue>, rest: Seq<char>)
    requires
        s.len() > 0,
    ensures
        elements_read(elements_written(s) + seq![']'] + rest) == Some((s, rest)),
    decreases s, 0nat,
{
    let whole = elements_written(s) + seq![']'] + rest;
    let first = s[0].written();
    if s.len() == 1 {
        let after = seq![']'] + rest;
        assert(whole =~= first + after);
        law_written_value_is_read_back(s[0], after);
        assert(after.skip(1) =~= rest);
        assert(seq![s[0]] =~= s);
    } else {
        let tail = elements_written(s.drop_first()) + seq![']'] + rest;
        let after = seq![','] + tail;
        assert(whole =~= first + after);
        law_written_value_is_read_back(s[0], after);
        assert(after.skip(1) =~= tail);
        lemma_elements_read(s.drop_first(), rest);
        assert(seq![s[0]] + s.drop_first() =~= s);
    }
}

proof fn lemma_name_read(name: Seq<char>, rest: Seq<char>)
    ensures
        name_read(quoted(name) + seq![':'] + rest) == Some((name, rest)),
{
    let whole = quoted(name) + seq![':'] + rest;
    let after = seq![':'] + rest;
    assert(whole.skip(1) =~= json::escaped(name) + seq!['"'] + after);
    lemma_text_read(name, after);
    assert(after.skip(1) =~= rest);
}

proof fn lemma_members_read(s: Seq<(Seq<char>, JsonValue)>, rest: Seq<char>)
    requires
        s.len() > 0,
    ensures
        members_read(members_written(s) + seq!['}'] + rest) == Some((s, rest)),
    decreases s, 0nat,
{
    let whole = members_written(s) + seq!['}'] + rest;
    let name = quoted(s[0].0) + seq![':'];
    let first = s[0].1.written();
    if s.len() == 1 {
        let after = seq!['}'] + rest;
        assert(whole =~= name + (first + after));
        lemma_name_read(s[0].0, first + after);
        law_written_value_is_read_back(s[0].1, after);
        assert(after.skip(1) =~= rest);
        assert(seq![s[0]] =~= s);
    } else {
        let tail = members_written(s.drop_first()) + seq!['}'] + rest;
        let after = seq![','] + tail;
        assert(whole =~= name + (first + after));
        lemma_name_read(s[0].0, first + after);
        law_written_value_is_read_back(s[0].1, after);
        assert(after.skip(1) =~= tail);
        lemma_members_read(s.drop_first(), rest);
        assert(seq![s[0]] + s.drop_first() =~= s);
    }
}

/// A finding as a JSON value.
pub open spec fn issue_value(issue: IssueModel) -> JsonValue {
    JsonValue::Object(
        seq![
            ("rule"@, JsonValue::Text(issue.rule)),
            ("severity"@, JsonValue::Text(json::severity_name(issue.severity()))),
            ("file"@, JsonValue::Text(issue.file)),
            ("line"@, JsonValue::Number(issue.line as nat)),
            ("test_name"@, JsonValue::Text(issue.test_name)),
            ("detail"@, JsonValue::Text(issue.detail)),
        ],
    )
}

/// A file error as a JSON value.
pub open spec fn error_value(error: ErrorModel) -> JsonValue {
    JsonValue::Object(
        seq![
            ("file"@, JsonValue::Text(error.file)),
            ("kind"@, JsonValue::Text(json::error_kind_name(error.kind))),
            ("message"@, JsonValue::Text(error.message)),
        ],
    )
}

pub open spec fn issue_values(issues: Seq<IssueModel>) -> Seq<JsonValue> {
    Seq::new(issues.len(), |i: int| issue_value(issues[i]))
}

pub open spec fn error_values(errors: Seq<ErrorModel>) -> Seq<JsonValue> {
    Seq::new(errors.len(), |i: int| error_value(errors[i]))
}

/// An analysis result as a JSON value: its findings and its errors, each in
/// order.
pub open spec fn result_value(result: ResultModel) -> JsonValue {
    JsonValue::Object(
        seq![
            ("issues"@, JsonValue::Array(issue_values(result.issues))),
            ("errors"@, JsonValue::Array(error_values(result.errors))),
        ],
    )
}

proof fn lemma_plain(s: Seq<char>)
    requires
        output::is_printable(s),
        !s.contains('"'),
        !s.contains('\\'),
    ensures
        json::escaped(s) == s,
    decreases s.len(),
{
    if s.len() > 0 {
        let before = s.drop_last();
        assert forall|i: int| 0 <= i < before.len() implies (#[trigger] before[i]) as int >= 0x20
            && before[i] != '"' && before[i] != '\\' by {
            assert(before[i] == s[i]);
            assert(s.contains(s[i]));
        }
        lemma_plain(before);
        assert(s.contains(s[s.len() - 1]));
        assert(s =~= before + seq![s.last()]);
    }
}

proof fn lemma_more_members(first: (Seq<char>, JsonValue), more: Seq<(Seq<char>, JsonValue)>)
    requires
        more.len() > 0,
    ensures
        members_written(seq![first] + more) == quoted(first.0) + seq![':'] + first.1.written()
            + seq![','] + members_written(more),
{
    assert((seq![first] + more).drop_first() =~= more);
}

/// What stands before the value of a member: `before`, its name and a colon.
spec fn opening(before: Seq<char>, name: Seq<char>) -> Seq<char> {
    before + quoted(name) + seq![':']
}

/// A member whose value is a string, with `tail` behind that string.
proof fn lemma_text_member(
    before: Seq<char>,
    name: Seq<char>,
    t: Seq<char>,
    more: Seq<(Seq<char>, JsonValue)>,
    tail: Seq<char>,
)
    requires
        more.len() > 0,
        seq!['"', ','] + members_written(more) + seq!['}'] == tail,
    ensures
        before + members_written(seq![(name, JsonValue::Text(t))] + more) + seq!['}'] == (opening(
            before,
            name,
        ) + seq!['"']) + json::escaped(t) + tail,
{
    lemma_more_members((name, JsonValue::Text(t)), more);
    assert(JsonValue::Text(t).written() == quoted(t));
    assert(before + members_written(seq![(name, JsonValue::Text(t))] + more) + seq!['}'] =~= (
    opening(before, name) + seq!['"']) + json::escaped(t) + (seq!['"', ','] + members_written(more)
        + seq!['}']));
}

/// The last member of an object, where its value is a string.
proof fn lemma_last_text_member(before: Seq<char>, name: Seq<char>, t: Seq<char>)
    ensures
        before + members_written(seq![(name, JsonValue::Text(t))]) + seq!['}'] == (opening(
            before,
            name,
        ) + seq!['"']) + json::escaped(t) + seq!['"', '}'],
{
    assert(JsonValue::Text(t).written() == quoted(t));
    assert(members_written(seq![(name, JsonValue::Text(t))]) == quoted(name) + seq![':'] + quoted(
        t,
    ));
    assert(before + members_written(seq![(name, JsonValue::Text(t))]) + seq!['}'] =~= (opening(
        before,
        name,
    ) + seq!['"']) + json::escaped(t) + seq!['"', '}']);
}

/// A member whose value is not a string, with `tail` behind that value.
proof fn lemma_value_member(
    before: Seq<char>,
    name: Seq<char>,
    v: JsonValue,
    more: Seq<(Seq<char>, JsonValue)>,
    tail: Seq<char>,
)
    requires
        more.len() > 0,
        seq![','] + members_written(more) + seq!['}'] == tail,
    ensures
        before + members_written(seq![(name, v)] + more) + seq!['}'] == opening(before, name)
            + v.written() + tail,
{
    lemma_more_members((name, v), more);
    assert(before + members_written(seq![(name, v)] + more) + seq!['}'] =~= opening(before, name)
        + v.written() + (seq![','] + members_written(more) + seq!['}']));
}

proof fn lemma_error_literals()
    ensures
        "{\"file\":\""@ == opening(seq!['{'], "file"@) + seq!['"'],
        "\",\"kind\":\""@ == opening(seq!['"', ','], "kind"@) + seq!['"'],
        "\",\"message\":\""@ == opening(seq!['"', ','], "message"@) + seq!['"'],
        "\"}"@ == seq!['"', '}'],
{
    reveal_strlit("{\"file\":\"");
    reveal_strlit("\",\"kind\":\"");
    reveal_strlit("\",\"message\":\"");
    reveal_strlit("\"}");
    reveal_strlit("file");
    reveal_strlit("kind");
    reveal_strlit("message");
    lemma_plain("file"@);
    lemma_plain("kind"@);
    lemma_plain("message"@);
    assert("{\"file\":\""@ =~= opening(seq!['{'], "file"@) + seq!['"']);
    assert("\",\"kind\":\""@ =~= opening(seq!['"', ','], "kind"@) + seq!['"']);
    assert("\",\"message\":\""@ =~= opening(seq!['"', ','], "message"@) + seq!['"']);
    assert("\"}"@ =~= seq!['"', '}']);
}

proof fn lemma_kind_is_plain(error: ErrorModel)
    ensures
        json::escaped(json::error_kind_name(error.kind)) == json::error_kind_name(error.kind),
{
    reveal_strlit("read");
    reveal_strlit("parse");
    reveal_strlit("crash");
    lemma_plain(json::error_kind_name(error.kind));
}

proof fn lemma_error_object_is_written(error: ErrorModel)
    ensures
        json::error_object(error) == error_value(error).written(),
{
    lemma_error_literals();
    lemma_kind_is_plain(error);
    let kind = json::error_kind_name(error.kind);
    let third = seq![("message"@, JsonValue::Text(error.message))];
    let second = seq![("kind"@, JsonValue::Text(kind))] + third;
    let first = seq![("file"@, JsonValue::Text(error.file))] + second;
    assert(error_value(error)->Object_0 =~= first);
    let t3 = "\",\"message\":\""@ + json::escaped(error.message) + "\"}"@;
    lemma_last_text_member(seq!['"', ','], "message"@, error.message);
    let t2 = "\",\"kind\":\""@ + kind + t3;
    lemma_text_member(seq!['"', ','], "kind"@, kind, third, t3);
    lemma_text_member(seq!['{'], "file"@, error.file, second, t2);
    assert(json::error_object(error) =~= "{\"file\":\""@ + json::escaped(error.file) + t2);
}

proof fn lemma_issue_literals()
    ensures
        "{\"rule\":\""@ == opening(seq!['{'], "rule"@) + seq!['"'],
        "\",\"severity\":\""@ == opening(seq!['"', ','], "severity"@) + seq!['"'],
        "\",\"file\":\""@ == opening(seq!['"', ','], "file"@) + seq!['"'],
        "\",\"line\":"@ == opening(seq!['"', ','], "line"@),
        ",\"test_name\":\""@ == opening(seq![','], "test_name"@) + seq!['"'],
        "\",\"detail\":\""@ == opening(seq!['"', ','], "detail"@) + seq!['"'],
        "\"}"@ == seq!['"', '}'],
{
    reveal_strlit("{\"rule\":\"");
    reveal_strlit("\",\"severity\":\"");
    reveal_strlit("\",\"file\":\"");
    reveal_strlit("\",\"line\":");
    reveal_strlit(",\"test_name\":\"");
    reveal_strlit("\",\"detail\":\"");
    reveal_strlit("\"}");
    reveal_strlit("rule");
    reveal_strlit("severity");
    reveal_strlit("file");
    reveal_strlit("line");
    reveal_strlit("test_name");
    reveal_strlit("detail");
    lemma_plain("rule"@);
    lemma_plain("severity"@);
    lemma_plain("file"@);
    lemma_plain("line"@);
    lemma_plain("test_name"@);
    lemma_plain("detail"@);
    assert("{\"rule\":\""@ =~= opening(seq!['{'], "rule"@) + seq!['"']);
    assert("\",\"severity\":\""@ =~= opening(seq!['"', ','], "severity"@) + seq!['"']);
    assert("\",\"file\":\""@ =~= opening(seq!['"', ','], "file"@) + seq!['"']);
    assert("\",\"line\":"@ =~= opening(seq!['"', ','], "line"@));
    assert(",\"test_name\":\""@ =~= opening(seq![','], "test_name"@) + seq!['"']);
    assert("\",\"detail\":\""@ =~= opening(seq!['"', ','], "detail"@) + seq!['"']);
    assert("\"}"@ =~= seq!['"', '}']);
}

proof fn lemma_severity_is_plain(issue: IssueModel)
    ensures
        json::escaped(json::severity_name(issue.severity())) == json::severity_name(
            issue.severity(),
        ),
{
    reveal_strlit("warning");
    reveal_strlit("blocking");
    lemma_plain(json::severity_name(issue.severity()));
}

proof fn lemma_regroup(before: Seq<char>, name: Seq<char>, value: Seq<char>, tail: Seq<char>)
    ensures
        before + name + value + tail == before + (name + value + tail),
{
    assert(before + name + value + tail =~= before + (name + value + tail));
}

/// The object of a finding, put together from its end.
spec fn issue_object_from_end(issue: IssueModel) -> Seq<char> {
    "{\"rule\":\""@ + json::escaped(issue.rule) + ("\",\"severity\":\""@ + json::severity_name(
        issue.severity(),
    ) + ("\",\"file\":\""@ + json::escaped(issue.file) + ("\",\"line\":"@ + text::decimal(
        issue.line as nat,
    ) + (",\"test_name\":\""@ + json::escaped(issue.test_name) + ("\",\"detail\":\""@
        + json::escaped(issue.detail) + "\"}"@)))))
}

proof fn lemma_issue_object_from_end(issue: IssueModel)
    ensures
        json::issue_object(issue) == issue_object_from_end(issue),
{
    let rule = json::escaped(issue.rule);
    let severity = json::severity_name(issue.severity());
    let file = json::escaped(issue.file);
    let line = text::decimal(issue.line as nat);
    let name = json::escaped(issue.test_name);
    let detail = json::escaped(issue.detail);
    let p1 = "{\"rule\":\""@ + rule;
    let p2 = p1 + "\",\"severity\":\""@ + severity;
    let p3 = p2 + "\",\"file\":\""@ + file;
    let p4 = p3 + "\",\"line\":"@ + line;
    let p5 = p4 + ",\"test_name\":\""@ + name;
    let t6 = "\",\"detail\":\""@ + detail + "\"}"@;
    let t5 = ",\"test_name\":\""@ + name + t6;
    let t4 = "\",\"line\":"@ + line + t5;
    let t3 = "\",\"file\":\""@ + file + t4;
    lemma_regroup(p5, "\",\"detail\":\""@, detail, "\"}"@);
    lemma_regroup(p4, ",\"test_name\":\""@, name, t6);
    lemma_regroup(p3, "\",\"line\":"@, line, t5);
    lemma_regroup(p2, "\",\"file\":\""@, file, t4);
    lemma_regroup(p1, "\",\"severity\":\""@, severity, t3);
}

proof fn lemma_issue_object_is_written(issue: IssueModel)
    ensures
        json::issue_object(issue) == issue_value(issue).written(),
{
    lemma_issue_literals();
    lemma_severity_is_plain(issue);
    lemma_issue_object_from_end(issue);
    let severity = json::severity_name(issue.severity());
    let line = JsonValue::Number(issue.line as nat);
    let m6 = seq![("detail"@, JsonValue::Text(issue.detail))];
    let m5 = seq![("test_name"@, JsonValue::Text(issue.test_name))] + m6;
    let m4 = seq![("line"@, line)] + m5;
    let m3 = seq![("file"@, JsonValue::Text(issue.file))] + m4;
    let m2 = seq![("severity"@, JsonValue::Text(severity))] + m3;
    let m1 = seq![("rule"@, JsonValue::Text(issue.rule))] + m2;
    assert(issue_value(issue)->Object_0 =~= m1);
    assert(line.written() == text::decimal(issue.line as nat));
    let between = seq!['"', ','];
    let t6 = "\",\"detail\":\""@ + json::escaped(issue.detail) + "\"}"@;
    let t5 = ",\"test_name\":\""@ + json::escaped(issue.test_name) + t6;
    let t4 = "\",\"line\":"@ + line.written() + t5;
    let t3 = "\",\"file\":\""@ + json::escaped(issue.file) + t4;
    let t2 = "\",\"severity\":\""@ + severity + t3;
    lemma_last_text_member(between, "detail"@, issue.detail);
    lemma_text_member(seq![','], "test_name"@, issue.test_name, m6, t6);
    lemma_value_member(between, "line"@, line, m5, t5);
    lemma_text_member(between, "file"@, issue.file, m4, t4);
    lemma_text_member(between, "severity"@, severity, m3, t3);
    lemma_text_member(seq!['{'], "rule"@, issue.rule, m2, t2);
}

proof fn lemma_elements_are_joined(s: Seq<JsonValue>, parts: Seq<Seq<char>>)
    requires
        s.len() == parts.len(),
        forall|i: int| 0 <= i < s.len() ==> (#[trigger] parts[i]) == s[i].written(),
    ensures
        text::joined(parts, ","@) == elements_written(s),
    decreases s.len(),
{
    reveal_strlit(",");
    if s.len() == 1 {
        assert(parts[0] == s[0].written());
    } else if s.len() > 1 {
        let head = seq![parts[0]];
        let tail = parts.drop_first();
        assert(head + tail =~= parts);
        output::lemma_joined_concat(head, tail, ","@);
        lemma_elements_are_joined(s.drop_first(), tail);
        assert(parts[0] == s[0].written());
        assert(","@ =~= seq![',']);
    }
}

proof fn lemma_document_literals()
    ensures
        "{\"issues\":["@ == opening(seq!['{'], "issues"@) + seq!['['],
        "],\"errors\":["@ == seq![']'] + opening(seq![','], "errors"@) + seq!['['],
        "]}"@ == seq![']', '}'],
{
    reveal_strlit("{\"issues\":[");
    reveal_strlit("],\"errors\":[");
    reveal_strlit("]}");
    reveal_strlit("issues");
    reveal_strlit("errors");
    lemma_plain("issues"@);
    lemma_plain("errors"@);
    assert("{\"issues\":["@ =~= opening(seq!['{'], "issues"@) + seq!['[']);
    assert("],\"errors\":["@ =~= seq![']'] + opening(seq![','], "errors"@) + seq!['[']);
    assert("]}"@ =~= seq![']', '}']);
}

proof fn lemma_two_arrays_are_written(issues: Seq<JsonValue>, errors: Seq<JsonValue>)
    ensures
        json::document(elements_written(issues), elements_written(errors)) == JsonValue::Object(
            seq![("issues"@, JsonValue::Array(issues)), ("errors"@, JsonValue::Array(errors))],
        ).written(),
{
    lemma_document_literals();
    let listed = JsonValue::Array(issues);
    let failed = JsonValue::Array(errors);
    let second = seq![("errors"@, failed)];
    let first = seq![("issues"@, listed)] + second;
    assert(first =~= seq![("issues"@, listed), ("errors"@, failed)]);
    assert(listed.written() == seq!['['] + elements_written(issues) + seq![']']);
    assert(failed.written() == seq!['['] + elements_written(errors) + seq![']']);
    assert(members_written(second) == quoted("errors"@) + seq![':'] + failed.written());
    let tail = seq![','] + members_written(second) + seq!['}'];
    assert(tail =~= opening(seq![','], "errors"@) + failed.written() + seq!['}']);
    lemma_value_member(seq!['{'], "issues"@, listed, second, tail);
    assert(json::document(elements_written(issues), elements_written(errors)) =~= opening(
        seq!['{'],
        "issues"@,
    ) + listed.written() + tail);
}

proof fn lemma_document_is_written(result: ResultModel)
    ensures
        json::document(
            json::issues_fragment(result.issues),
            json::errors_fragment(result.errors),
        ) == result_value(result).written(),
{
    let issues = issue_values(result.issues);
    let errors = error_values(result.errors);
    assert forall|i: int| 0 <= i < issues.len() implies (#[trigger] json::issue_objects(
        result.issues,
    )[i]) == issues[i].written() by {
        lemma_issue_object_is_written(result.issues[i]);
    }
    lemma_elements_are_joined(issues, json::issue_objects(result.issues));
    assert forall|i: int| 0 <= i < errors.len() implies (#[trigger] json::error_objects(
        result.errors,
    )[i]) == errors[i].written() by {
        lemma_error_object_is_written(result.errors[i]);
    }
    lemma_elements_are_joined(errors, json::error_objects(result.errors));
    lemma_two_arrays_are_written(issues, errors);
}

/// The document of an analysis result is one JSON object with the members
/// `issues` and `errors`, both arrays. Reading it gives, in order, rule,
/// severity, file, line, test name and detail of every finding, and file, kind
/// and message of every error.
pub proof fn law_document_is_read_back(result: ResultModel)
    ensures
        document_read(
            json::document(
                json::issues_fragment(result.issues),
                json::errors_fragment(result.errors),
            ),
        ) == Some(result_value(result)),
{
    lemma_document_is_written(result);
    let written = result_value(result).written();
    assert(written + seq![] =~= written);
    law_written_value_is_read_back(result_value(result), seq![]);
}

proof fn lemma_kind_names_differ(a: FileErrorKind, b: FileErrorKind)
    requires
        json::error_kind_name(a) == json::error_kind_name(b),
    ensures
        a == b,
{
    reveal_strlit("read");
    reveal_strlit("parse");
    reveal_strlit("crash");
    assert("read"@[0] == 'r' && "parse"@[0] == 'p' && "crash"@[0] == 'c');
}

proof fn lemma_issue_values_differ(a: IssueModel, b: IssueModel)
    requires
        issue_value(a) == issue_value(b),
    ensures
        a == b,
{
    let x = issue_value(a)->Object_0;
    let y = issue_value(b)->Object_0;
    assert(x[0] == y[0] && x[2] == y[2] && x[3] == y[3] && x[4] == y[4] && x[5] == y[5]);
}

proof fn lemma_error_values_differ(a: ErrorModel, b: ErrorModel)
    requires
        error_value(a) == error_value(b),
    ensures
        a == b,
{
    let x = error_value(a)->Object_0;
    let y = error_value(b)->Object_0;
    assert(x[0] == y[0] && x[1] == y[1] && x[2] == y[2]);
    lemma_kind_names_differ(a.kind, b.kind);
}

proof fn lemma_issue_lists_differ(a: Seq<IssueModel>, b: Seq<IssueModel>)
    requires
        issue_values(a) == issue_values(b),
    ensures
        a == b,
{
    assert(issue_values(a).len() == a.len() && issue_values(b).len() == b.len());
    assert forall|i: int| 0 <= i < a.len() implies a[i] == b[i] by {
        assert(issue_values(a)[i] == issue_value(a[i]));
        assert(issue_values(b)[i] == issue_value(b[i]));
        lemma_issue_values_differ(a[i], b[i]);
    }
    assert(a =~= b);
}

proof fn lemma_error_lists_differ(a: Seq<ErrorModel>, b: Seq<ErrorModel>)
    requires
        error_values(a) == error_values(b),
    ensures
        a == b,
{
    assert(error_values(a).len() == a.len() && error_values(b).len() == b.len());
    assert forall|i: int| 0 <= i < a.len() implies a[i] == b[i] by {
        assert(error_values(a)[i] == error_value(a[i]));
        assert(error_values(b)[i] == error_value(b[i]));
        lemma_error_values_differ(a[i], b[i]);
    }
    assert(a =~= b);
}

proof fn lemma_result_values_differ(a: ResultModel, b: ResultModel)
    requires
        result_value(a) == result_value(b),
    ensures
        a == b,
{
    let x = result_value(a)->Object_0;
    let y = result_value(b)->Object_0;
    assert(x[0] == y[0] && x[1] == y[1]);
    lemma_issue_lists_differ(a.issues, b.issues);
    lemma_error_lists_differ(a.errors, b.errors);
}

/// Nothing of a result is lost in its document: only equal results have equal
/// documents.
pub proof fn law_document_determines_the_result(a: ResultModel, b: ResultModel)
    requires
        json::document(json::issues_fragment(a.issues), json::errors_fragment(a.errors))
            == json::document(json::issues_fragment(b.issues), json::errors_fragment(b.errors)),
    ensures
        a == b,
{
    assert(result_value(a) == result_value(b)) by {
        law_document_is_read_back(a);
        law_document_is_read_back(b);
    }
    lemma_result_values_differ(a, b);
}

/// Reading the document that the parent merges from its workers gives the
/// findings and errors of all of them, in the order of the files.
pub proof fn law_merged_document_is_read_back(files: Seq<Seq<char>>, results: Seq<ResultModel>)
    requires
        files.len() == results.len(),
    ensures
        document_read(output::gathered(files, results).document()) == Some(
            result_value(output::merged(results)),
        ),
{
    output::law_merged_document_is_the_whole_document(files, results);
    law_document_is_read_back(output::merged(results));
}

/// A command-line error as a JSON value.
pub open spec fn report_value(err: LitmusError) -> JsonValue {
    let (kind, message, next_step, candidates) = match err {
        LitmusError::Usage(message) => (
            "usage"@,
            message@,
            "Pass at most one directory path; the only accepted flag is --json."@,
            seq![JsonValue::Text("--json"@)],
        ),
        LitmusError::Internal(message) => (
            "internal"@,
            message@,
            "Rerun to confirm reproducibility, then report it as a litmus bug."@,
            seq![],
        ),
    };
    JsonValue::Object(
        seq![
            ("error"@, JsonValue::Text(kind)),
            ("message"@, JsonValue::Text(message)),
            ("next_step"@, JsonValue::Text(next_step)),
            ("candidates"@, JsonValue::Array(candidates)),
        ],
    )
}

proof fn lemma_report_literals()
    ensures
        "{\"error\":\""@ == opening(seq!['{'], "error"@) + seq!['"'],
        "\",\"message\":\""@ == opening(seq!['"', ','], "message"@) + seq!['"'],
        "\",\"next_step\":\""@ == opening(seq!['"', ','], "next_step"@) + seq!['"'],
        "\",\"candidates\":["@ == opening(seq!['"', ','], "candidates"@) + seq!['['],
        "]}"@ == seq![']', '}'],
        "\""@ == seq!['"'],
        ""@ == Seq::<char>::empty(),
        json::escaped("usage"@) == "usage"@,
        json::escaped("internal"@) == "internal"@,
{
    reveal_strlit("{\"error\":\"");
    reveal_strlit("\",\"message\":\"");
    reveal_strlit("\",\"next_step\":\"");
    reveal_strlit("\",\"candidates\":[");
    reveal_strlit("]}");
    reveal_strlit("\"");
    reveal_strlit("");
    reveal_strlit("error");
    reveal_strlit("message");
    reveal_strlit("next_step");
    reveal_strlit("candidates");
    reveal_strlit("usage");
    reveal_strlit("internal");
    lemma_plain("error"@);
    lemma_plain("message"@);
    lemma_plain("next_step"@);
    lemma_plain("candidates"@);
    lemma_plain("usage"@);
    lemma_plain("internal"@);
    assert("{\"error\":\""@ =~= opening(seq!['{'], "error"@) + seq!['"']);
    assert("\",\"message\":\""@ =~= opening(seq!['"', ','], "message"@) + seq!['"']);
    assert("\",\"next_step\":\""@ =~= opening(seq!['"', ','], "next_step"@) + seq!['"']);
    assert("\",\"candidates\":["@ =~= opening(seq!['"', ','], "candidates"@) + seq!['[']);
    assert("]}"@ =~= seq![']', '}']);
    assert("\""@ =~= seq!['"']);
    assert(""@ =~= Seq::<char>::empty());
}

proof fn lemma_report_is_written(
    kind: Seq<char>,
    message: Seq<char>,
    next_step: Seq<char>,
    candidates: Seq<JsonValue>,
)
    requires
        json::escaped(kind) == kind,
    ensures
        json::error_report(kind, message, next_step, elements_written(candidates))
            == JsonValue::Object(
            seq![
                ("error"@, JsonValue::Text(kind)),
                ("message"@, JsonValue::Text(message)),
                ("next_step"@, JsonValue::Text(next_step)),
                ("candidates"@, JsonValue::Array(candidates)),
            ],
        ).written(),
{
    lemma_report_literals();
    let listed = JsonValue::Array(candidates);
    let inside = elements_written(candidates);
    let between = seq!['"', ','];
    let m4 = seq![("candidates"@, listed)];
    let m3 = seq![("next_step"@, JsonValue::Text(next_step))] + m4;
    let m2 = seq![("message"@, JsonValue::Text(message))] + m3;
    let m1 = seq![("error"@, JsonValue::Text(kind))] + m2;
    assert(m1 =~= seq![
        ("error"@, JsonValue::Text(kind)),
        ("message"@, JsonValue::Text(message)),
        ("next_step"@, JsonValue::Text(next_step)),
        ("candidates"@, listed),
    ]);
    assert(listed.written() == seq!['['] + inside + seq![']']);
    assert(members_written(m4) == quoted("candidates"@) + seq![':'] + listed.written());
    let t4 = "\",\"candidates\":["@ + inside + "]}"@;
    assert(between + members_written(m4) + seq!['}'] =~= t4);
    let t3 = "\",\"next_step\":\""@ + json::escaped(next_step) + t4;
    let t2 = "\",\"message\":\""@ + json::escaped(message) + t3;
    lemma_text_member(between, "next_step"@, next_step, m4, t4);
    lemma_text_member(between, "message"@, message, m3, t3);
    lemma_text_member(seq!['{'], "error"@, kind, m2, t2);
    let p1 = "{\"error\":\""@ + kind;
    let p2 = p1 + "\",\"message\":\""@ + json::escaped(message);
    let p3 = p2 + "\",\"next_step\":\""@ + json::escaped(next_step);
    lemma_regroup(p3, "\",\"candidates\":["@, inside, "]}"@);
    lemma_regroup(p2, "\",\"next_step\":\""@, json::escaped(next_step), t4);
    lemma_regroup(p1, "\",\"message\":\""@, json::escaped(message), t3);
}

/// The JSON report of a command-line error is one JSON object. Reading it
/// gives the kind of the error, its message, the next step, and as candidates
/// the one accepted flag for a usage error and none for an internal one.
pub proof fn law_error_report_is_read_back(err: LitmusError)
    ensures
        document_read(json::litmus_error_object(err)) == Some(report_value(err)),
{
    lemma_report_literals();
    match err {
        LitmusError::Usage(message) => {
            let flag = JsonValue::Text("--json"@);
            assert(flag.written() == quoted("--json"@));
            assert(elements_written(seq![flag]) == flag.written());
            lemma_report_is_written(
                "usage"@,
                message@,
                "Pass at most one directory path; the only accepted flag is --json."@,
                seq![flag],
            );
        },
        LitmusError::Internal(message) => {
            lemma_report_is_written(
                "internal"@,
                message@,
                "Rerun to confirm reproducibility, then report it as a litmus bug."@,
                seq![],
            );
        },
    }
    let written = report_value(err).written();
    assert(written + seq![] =~= written);
    law_written_value_is_read_back(report_value(err), seq![]);
}

} // verus!
