# litmus

A test quality linter for TypeScript and JavaScript, verified with Verus. It
finds tests that pass without verifying anything: tests without assertions or
with weak ones only, assertions about literals, tests that check mocks only,
failures swallowed by a catch handler, and so on.

- `src/` is the library. Every function in it is verified against its contract.
  - `parser` parses with oxc and turns oxc's tree into the trees of `syntax`;
    `disposal` frees them. Neither descends along chains of operators, whose
    length no bracket bounds.
  - `blocks`, `collect`, `calls`, `act` and `dummy` extract test blocks;
    `parse` holds their types and `parse_test_file`.
  - `rules` turns test blocks into findings.
  - `json` and `cli` render findings and decide on arguments, exit codes and
    what the parent process makes of its workers; `files` selects the files.
  - `laws` states what holds across modules.
- `app/` is the program around it: the directory walk, reading files, worker
  processes and output.
- `tests/` runs the library.

What is not proved is how oxc parses. The functions marked `external_body` in
`parser`, and the specification of `String::push` in `text`, say what is
assumed.

## Rules

| Rule                    | Severity | Detects                                          |
| ----------------------- | -------- | ------------------------------------------------ |
| `weak-assertion`        | block    | no assertions, or weak ones only                 |
| `tautological`          | block    | an assertion about a literal                     |
| `mock-overuse`          | block    | more mocks than assertions                       |
| `mock-only`             | block    | assertions about mock interactions only          |
| `empty-test`            | block    | an empty test body (`.todo` excluded)            |
| `skipped-test`          | block    | a test that is skipped or marked todo            |
| `catch-swallow`         | block    | a catch block without assertion and throw        |
| `catch-masks-assertion` | block    | a try assertion swallowed by an asserting catch  |
| `catch-only-assertion`  | block    | assertions inside catch blocks only              |
| `conditional-assertion` | block    | assertions inside conditions only                |
| `test-name-quality`     | block    | a test name of at most two words                 |
| `missing-act`           | warn     | assertions on arranged data with no call         |
| `dummy-data`            | warn     | placeholder literals                             |
| `snapshot-external`     | warn     | an assertion against an external snapshot        |

## Exit codes

0 for no findings, 1 for advisory findings only, 2 for blocking findings, 64
for a usage error, 70 for an internal error or a worker that crashed.
