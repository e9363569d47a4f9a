use litmus::cli::{worker_output, JsonScan};
use litmus::json::{render_error, render_result};
use litmus::rules::Issue;
use litmus::{AnalysisResult, FileError, FileErrorKind, LitmusError};

#[derive(Debug, PartialEq)]
enum Json {
    Text(String),
    Number(u64),
    Array(Vec<Json>),
    Object(Vec<(String, Json)>),
}

/// Reads compact JSON: strings, whole numbers, arrays and objects.
struct Reader {
    chars: Vec<char>,
    at: usize,
}

impl Reader {
    fn next(&mut self) -> char {
        self.at += 1;
        self.chars[self.at - 1]
    }

    fn take(&mut self, c: char) {
        assert_eq!(self.next(), c);
    }

    fn text(&mut self) -> String {
        self.take('"');
        let mut out = String::new();
        loop {
            match self.next() {
                '"' => return out,
                '\\' => match self.next() {
                    'n' => out.push('\n'),
                    'r' => out.push('\r'),
                    't' => out.push('\t'),
                    'b' => out.push('\u{8}'),
                    'f' => out.push('\u{c}'),
                    'u' => {
                        let code: String = (0..4).map(|_| self.next()).collect();
                        let code = u32::from_str_radix(&code, 16).unwrap();
                        out.push(char::from_u32(code).unwrap());
                    }
                    c => out.push(c),
                },
                c => out.push(c),
            }
        }
    }

    fn value(&mut self) -> Json {
        match self.chars[self.at] {
            '"' => Json::Text(self.text()),
            '[' => {
                let mut out = Vec::new();
                self.take('[');
                while self.chars[self.at] != ']' {
                    if !out.is_empty() {
                        self.take(',');
                    }
                    out.push(self.value());
                }
                self.take(']');
                Json::Array(out)
            }
            '{' => {
                let mut out = Vec::new();
                self.take('{');
                while self.chars[self.at] != '}' {
                    if !out.is_empty() {
                        self.take(',');
                    }
                    let name = self.text();
                    self.take(':');
                    out.push((name, self.value()));
                }
                self.take('}');
                Json::Object(out)
            }
            _ => {
                let mut digits = String::new();
                while self.chars[self.at].is_ascii_digit() {
                    digits.push(self.next());
                }
                Json::Number(digits.parse().unwrap())
            }
        }
    }
}

fn read(document: &str) -> Json {
    let mut reader = Reader { chars: document.chars().collect(), at: 0 };
    let value = reader.value();
    assert_eq!(reader.at, reader.chars.len());
    value
}

fn members(members: Vec<(&str, Json)>) -> Json {
    Json::Object(members.into_iter().map(|(name, v)| (name.to_owned(), v)).collect())
}

fn text(s: &str) -> Json {
    Json::Text(s.to_owned())
}

#[test]
fn document_is_read_back() {
    let mut result = AnalysisResult::new();
    assert_eq!(
        read(&render_result(&result)),
        members(vec![("issues", Json::Array(vec![])), ("errors", Json::Array(vec![]))])
    );
    for (rule, line, name) in [("empty-test", 1, "a \"b\"],["), ("dummy-data", 4096, "c\\\n\u{1}")] {
        result.issues.push(Issue {
            rule,
            file: "dir\\a.test.ts".to_owned(),
            line,
            test_name: name.to_owned(),
            detail: String::new(),
        });
    }
    result.errors.push(FileError {
        file: "b.test.ts".to_owned(),
        kind: FileErrorKind::Crash,
        message: "}]}\t".to_owned(),
    });
    let issue = |rule, severity, line, name| {
        members(vec![
            ("rule", text(rule)),
            ("severity", text(severity)),
            ("file", text("dir\\a.test.ts")),
            ("line", Json::Number(line)),
            ("test_name", text(name)),
            ("detail", text("")),
        ])
    };
    assert_eq!(
        read(&render_result(&result)),
        members(vec![
            (
                "issues",
                Json::Array(vec![
                    issue("empty-test", "blocking", 1, "a \"b\"],["),
                    issue("dummy-data", "warning", 4096, "c\\\n\u{1}"),
                ])
            ),
            (
                "errors",
                Json::Array(vec![members(vec![
                    ("file", text("b.test.ts")),
                    ("kind", text("crash")),
                    ("message", text("}]}\t")),
                ])])
            ),
        ])
    );
}

#[test]
fn merged_document_is_read_back() {
    let mut scan = JsonScan::new();
    let mut issues = Vec::new();
    for (file, rule) in [("a.test.ts", "mock-only"), ("b.test.ts", "missing-act")] {
        let mut result = AnalysisResult::new();
        result.issues.push(Issue {
            rule,
            file: file.to_owned(),
            line: 2,
            test_name: "t".to_owned(),
            detail: "d".to_owned(),
        });
        let output = worker_output(&result, true);
        scan.record_output(file, Some(i32::from(output.code)), &output.stdout.unwrap());
        issues.extend(result.issues);
    }
    let whole = AnalysisResult { issues, errors: Vec::new() };
    assert_eq!(read(&scan.document()), read(&render_result(&whole)));
}

#[test]
fn different_results_have_different_documents() {
    let error = |file: &str, message: &str| {
        let mut result = AnalysisResult::new();
        result.errors.push(FileError {
            file: file.to_owned(),
            kind: FileErrorKind::Read,
            message: message.to_owned(),
        });
        render_result(&result)
    };
    assert_ne!(error("a", "b\",\"x\":\""), error("a\",\"x\":\"b", ""));
    assert_ne!(error("a", "\\n"), error("a", "\n"));
}

#[test]
fn error_report_is_read_back() {
    assert_eq!(
        read(&render_error(&LitmusError::Usage("no \"such\" flag".to_owned()))),
        members(vec![
            ("error", text("usage")),
            ("message", text("no \"such\" flag")),
            (
                "next_step",
                text("Pass at most one directory path; the only accepted flag is --json.")
            ),
            ("candidates", Json::Array(vec![text("--json")])),
        ])
    );
    assert_eq!(
        read(&render_error(&LitmusError::Internal("x".to_owned()))),
        members(vec![
            ("error", text("internal")),
            ("message", text("x")),
            (
                "next_step",
                text("Rerun to confirm reproducibility, then report it as a litmus bug.")
            ),
            ("candidates", Json::Array(vec![])),
        ])
    );
}
