use litmus::analyze_source;
use litmus::rules::{Issue, RULE_CATALOG};
use std::time::Instant;

#[derive(Clone, Copy, PartialEq, Eq)]
enum Expectation {
    Fire,
    Clean,
}

struct CorpusSample {
    rule: &'static str,
    expectation: Expectation,
    path: &'static str,
    content: &'static str,
}

const fn fire(rule: &'static str, path: &'static str, content: &'static str) -> CorpusSample {
    CorpusSample {
        rule,
        expectation: Expectation::Fire,
        path,
        content,
    }
}

const fn clean(rule: &'static str, path: &'static str, content: &'static str) -> CorpusSample {
    CorpusSample {
        rule,
        expectation: Expectation::Clean,
        path,
        content,
    }
}

const CORPUS: &[CorpusSample] = &[
    fire(
        "catch-masks-assertion",
        "catch-masks-assertion.fire.test.ts",
        r#"test("rejects an order without items", () => {
  try {
    expect(placeOrder(empty)).toBe(false);
  } catch (error) {
    expect(error.code).toBe("EMPTY");
  }
});"#,
    ),
    clean(
        "catch-masks-assertion",
        "catch-masks-assertion.clean.test.ts",
        r#"test("rejects an order without items", () => {
  expect(() => placeOrder(empty)).toThrow("EMPTY");
});"#,
    ),
    fire(
        "catch-only-assertion",
        "catch-only-assertion.fire.test.ts",
        r#"test("reports the missing file name", () => {
  try {
    openFile(missing);
  } catch (error) {
    expect(error.path).toBe("missing.txt");
  }
});"#,
    ),
    clean(
        "catch-only-assertion",
        "catch-only-assertion.clean.test.ts",
        r#"test("reports the missing file name", () => {
  const error = captureError(() => openFile(missing));
  expect(error.path).toBe("missing.txt");
});"#,
    ),
    fire(
        "catch-swallow",
        "catch-swallow.fire.test.ts",
        r#"test("saves the draft before closing", async () => {
  try {
    await saveDraft(draft);
  } catch (error) {
    console.log(error);
  }
  expect(draft.saved).toBe(true);
});"#,
    ),
    clean(
        "catch-swallow",
        "catch-swallow.clean.test.ts",
        r#"test("saves the draft before closing", async () => {
  try {
    await saveDraft(draft);
  } catch (error) {
    throw new Error("save failed");
  }
  expect(draft.saved).toBe(true);
});"#,
    ),
    fire(
        "conditional-assertion",
        "conditional-assertion.fire.test.ts",
        r#"test("loads the profile of the user", () => {
  const profile = loadProfile(7);
  if (profile) {
    expect(profile.id).toBe(7);
  }
});"#,
    ),
    clean(
        "conditional-assertion",
        "conditional-assertion.clean.test.ts",
        r#"test("loads the profile of the user", () => {
  const profile = loadProfile(7);
  expect(profile.id).toBe(7);
});"#,
    ),
    fire(
        "dummy-data",
        "dummy-data.fire.test.ts",
        r#"test("stores the name of a user", () => {
  const user = createUser({ name: "foo" });
  expect(user.name.length).toBe(3);
});"#,
    ),
    clean(
        "dummy-data",
        "dummy-data.clean.test.ts",
        r#"test("stores the name of a user", () => {
  const user = createUser({ name: "Ada Lovelace" });
  expect(user.name).toBe("Ada Lovelace");
});"#,
    ),
    fire(
        "empty-test",
        "empty-test.fire.test.ts",
        r#"test("refunds a cancelled order", () => {});"#,
    ),
    clean(
        "empty-test",
        "empty-test.clean.test.ts",
        r#"test("refunds a cancelled order", () => {
  expect(refund(cancelled).amount).toBe(20);
});"#,
    ),
    fire(
        "missing-act",
        "missing-act.fire.test.ts",
        r#"test("computes the discounted total", () => {
  const total = 42;
  expect(total).toBe(42);
});"#,
    ),
    clean(
        "missing-act",
        "missing-act.clean.test.ts",
        r#"test("computes the discounted total", () => {
  const total = discount(50, 8);
  expect(total).toBe(42);
});"#,
    ),
    fire(
        "mock-only",
        "mock-only.fire.test.ts",
        r#"test("sends a welcome message to users", () => {
  signUp(user);
  expect(send).toHaveBeenCalledWith(user.email);
});"#,
    ),
    clean(
        "mock-only",
        "mock-only.clean.test.ts",
        r#"test("sends a welcome message to users", () => {
  const account = signUp(user);
  expect(send).toHaveBeenCalledWith(user.email);
  expect(account.welcomed).toBe(true);
});"#,
    ),
    fire(
        "mock-overuse",
        "mock-overuse.fire.test.ts",
        r#"test("submits the form once only", () => {
  const a = vi.fn();
  const b = vi.fn();
  const c = jest.spyOn(api, "post");
  expect(submit(a, b)).toBe(1);
});"#,
    ),
    clean(
        "mock-overuse",
        "mock-overuse.clean.test.ts",
        r#"test("submits the form once only", () => {
  const onDone = vi.fn();
  expect(submit(onDone)).toBe(1);
  expect(onDone).toHaveBeenCalledTimes(1);
});"#,
    ),
    fire(
        "skipped-test",
        "skipped-test.fire.test.ts",
        r#"it.skip("parses a relative date", () => {
  expect(parseDate("tomorrow")).toBe(next);
});"#,
    ),
    clean(
        "skipped-test",
        "skipped-test.clean.test.ts",
        r#"it("parses a relative date", () => {
  expect(parseDate("tomorrow")).toBe(next);
});"#,
    ),
    fire(
        "snapshot-external",
        "snapshot-external.fire.test.ts",
        r#"test("renders the user card markup", () => {
  expect(render(card)).toMatchSnapshot();
});"#,
    ),
    clean(
        "snapshot-external",
        "snapshot-external.clean.test.ts",
        r#"test("renders the user card markup", () => {
  expect(render(card)).toMatchInlineSnapshot("<b>Ada</b>");
});"#,
    ),
    fire(
        "tautological",
        "tautological.fire.test.ts",
        r#"test("always holds by construction", () => {
  expect(true).toBe(true);
});"#,
    ),
    clean(
        "tautological",
        "tautological.clean.test.ts",
        r#"test("holds for an even number", () => {
  expect(isEven(4)).toBe(true);
});"#,
    ),
    fire(
        "test-name-quality",
        "test-name-quality.fire.test.ts",
        r#"test("works", () => {
  expect(add(1, 2)).toBe(3);
});"#,
    ),
    clean(
        "test-name-quality",
        "test-name-quality.clean.test.ts",
        r#"test("adds two positive numbers", () => {
  expect(add(1, 2)).toBe(3);
});"#,
    ),
    fire(
        "weak-assertion",
        "weak-assertion.fire.test.ts",
        r#"test("creates a session for users", () => {
  expect(createSession(user)).toBeTruthy();
});"#,
    ),
    clean(
        "weak-assertion",
        "weak-assertion.clean.test.ts",
        r#"test("creates a session for users", () => {
  expect(createSession(user).owner).toBe(user.id);
});"#,
    ),
];

fn scan(sample: &CorpusSample) -> Vec<Issue> {
    match analyze_source(sample.content, sample.path) {
        Ok(issues) => issues,
        Err(e) => panic!("fixture {} failed to parse: {e}", sample.path),
    }
}

const LATENCY_ITERATIONS: usize = 50;
const LATENCY_BUDGET_US: u128 = 500;
const OBSERVED_SLOWEST_US: u128 = 66;

fn median_latency_us(sample: &CorpusSample) -> u128 {
    let mut measured = Vec::with_capacity(LATENCY_ITERATIONS);
    for _ in 0..LATENCY_ITERATIONS {
        let start = Instant::now();
        let _ = scan(sample);
        measured.push(start.elapsed().as_micros());
    }
    measured.sort_unstable();
    measured[LATENCY_ITERATIONS / 2]
}

#[derive(Default)]
struct Tally {
    tp: u32,
    fn_count: u32,
    fp: u32,
    tn: u32,
}

fn ratio(num: u32, denom: u32) -> f64 {
    if denom == 0 {
        1.0
    } else {
        f64::from(num) / f64::from(denom)
    }
}

fn tally_corpus() -> Tally {
    let mut tally = Tally::default();
    for sample in CORPUS {
        let issues = scan(sample);
        let target_fired = issues.iter().any(|i| i.rule == sample.rule);
        let any_fired = !issues.is_empty();
        match sample.expectation {
            Expectation::Fire => {
                if target_fired {
                    tally.tp += 1;
                } else {
                    tally.fn_count += 1;
                }
            }
            Expectation::Clean => {
                if any_fired {
                    tally.fp += 1;
                } else {
                    tally.tn += 1;
                }
            }
        }
    }
    tally
}

#[test]
fn corpus_sample_rules_exist_in_catalog() {
    for sample in CORPUS {
        assert!(
            RULE_CATALOG.contains(&sample.rule),
            "corpus sample rule {} is not in RULE_CATALOG",
            sample.rule
        );
    }
}

#[test]
fn corpus_covers_every_rule_with_fire_and_clean() {
    for rule in RULE_CATALOG {
        let has_fire = CORPUS
            .iter()
            .any(|s| s.rule == rule && s.expectation == Expectation::Fire);
        let has_clean = CORPUS
            .iter()
            .any(|s| s.rule == rule && s.expectation == Expectation::Clean);
        assert!(has_fire, "rule {rule} has no fire fixture");
        assert!(has_clean, "rule {rule} has no clean fixture");
    }
}

#[test]
fn fire_fixtures_trigger_their_rule() {
    for sample in CORPUS {
        if sample.expectation != Expectation::Fire {
            continue;
        }
        let issues = scan(sample);
        assert!(
            issues.iter().any(|i| i.rule == sample.rule),
            "fire fixture {} did not trigger {}; fired: {:?}",
            sample.path,
            sample.rule,
            issues.iter().map(|i| i.rule).collect::<Vec<_>>()
        );
    }
}

#[test]
fn clean_fixtures_stay_silent() {
    for sample in CORPUS {
        if sample.expectation != Expectation::Clean {
            continue;
        }
        let issues = scan(sample);
        assert!(
            issues.is_empty(),
            "clean fixture {} was flagged (false positive): {:?}",
            sample.path,
            issues.iter().map(|i| i.rule).collect::<Vec<_>>()
        );
    }
}

#[test]
fn every_sample_scans_under_budget() {
    let mut slowest_us = 0;
    let mut slowest_path = "";
    for sample in CORPUS {
        let median = median_latency_us(sample);
        assert!(
            median < LATENCY_BUDGET_US,
            "NFR Time: {} scanned at {median}us/file (budget {LATENCY_BUDGET_US}us)",
            sample.path
        );
        if median > slowest_us {
            slowest_us = median;
            slowest_path = sample.path;
        }
    }
    println!(
        "NFR Time: slowest fixture {slowest_path} at {slowest_us}us/file median \
         over {LATENCY_ITERATIONS} iterations (budget {LATENCY_BUDGET_US}us)"
    );
}

#[test]
fn latency_budget_catches_two_digit_regression() {
    assert!(
        LATENCY_BUDGET_US <= OBSERVED_SLOWEST_US * 10,
        "budget {LATENCY_BUDGET_US}us exceeds 10x the observed {OBSERVED_SLOWEST_US}us \
         slowest median; a 2-digit latency regression would pass undetected"
    );
}

#[test]
fn precision_corpus_metrics_snapshot() {
    let tally = tally_corpus();
    let precision = ratio(tally.tp, tally.tp + tally.fp);
    let recall = ratio(tally.tp, tally.tp + tally.fn_count);
    println!(
        "Precision corpus: tp={} fn={} fp={} tn={} | precision={precision:.3} recall={recall:.3}",
        tally.tp, tally.fn_count, tally.fp, tally.tn
    );
    let total = tally.tp + tally.fn_count + tally.fp + tally.tn;
    assert_eq!(
        usize::try_from(total).expect("tally fits usize"),
        CORPUS.len(),
        "tally did not classify every sample"
    );
    assert_eq!(tally.fp, 0, "precision corpus has false positives");
    assert_eq!(tally.fn_count, 0, "precision corpus has false negatives");
}
