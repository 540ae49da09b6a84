//! The regular expressions by which telling lines are recognized.

use regex::Regex;
use vstd::prelude::*;

verus! {

/// `regex::Regex`, a compiled pattern.
#[verifier::external_type_specification]
#[verifier::external_body]
pub struct ExRegex(Regex);

/// `regex::Error`, the reason why a pattern does not compile.
#[verifier::external_type_specification]
#[verifier::external_body]
pub struct ExRegexError(regex::Error);

/// What a `Regex` goes by: of one that `Regex::new` compiled, the pattern it was given.
pub uninterp spec fn pattern_of(regex: Regex) -> Seq<char>;

/// Whether a pattern, compiled with the default settings, matches somewhere in a text.
pub uninterp spec fn matches_in(pattern: Seq<char>, text: Seq<char>) -> bool;

/// `Regex::new` compiles a pattern with the default settings. Which patterns compile is left
/// unsaid: it takes the whole syntax of patterns, and a limit on the memory of the compiled
/// form, which is not the same on every machine.
pub assume_specification[ Regex::new ](re: &str) -> (compiled: Result<Regex, regex::Error>)
    ensures
        compiled matches Ok(regex) ==> pattern_of(regex) == re@,
;

/// `Regex::is_match` tells whether there is a match anywhere in the text, which depends on
/// what the `Regex` goes by and on the text alone.
pub assume_specification[ Regex::is_match ](regex: &Regex, haystack: &str) -> (found: bool)
    ensures
        found == matches_in(pattern_of(*regex), haystack@),
;

/// A count of results, such as `3 passed`.
pub const WORD_COUNT: &'static str =
    r"(?i)\b\d+\s+(passed|failed|error|warning|test|tests|file|files)\b";

/// The verdict of a test runner.
pub const TEST_RUNNER: &'static str = r"\b(PASS|FAIL|ok|not ok)\b";

/// A word that speaks of trouble.
pub const SIGNAL: &'static str =
    r"(?i)(error|enoent|fatal|panic|warning|warn|fail|reject|denied|refused|forbidden)";

/// A changed line that speaks of trouble.
pub const DIFF_ALERT: &'static str = r"(?i)^[+-].*(error|warn)";

/// A line of the statistics of a diff.
pub const DIFF_STAT: &'static str = r"(\|\s*\d+)|((files?|insertions?|deletions?)\b)";

/// An error of the compiler, with its code.
pub const CARGO_ERROR: &'static str = r"error\[E\d+\]";

/// A warning of the compiler.
pub const CARGO_WARNING: &'static str = r"warning(\[|:)";

/// The patterns, compiled.
pub struct Patterns {
    word_count: Regex,
    test_runner: Regex,
    signal: Regex,
    diff_alert: Regex,
    diff_stat: Regex,
    cargo_error: Regex,
    cargo_warning: Regex,
}

/// What a compilation gave: the compiled pattern exactly where there was no error.
pub fn usable(compilation: Result<Regex, regex::Error>) -> (result: Option<Regex>)
    ensures
        result == match compilation {
            Ok(regex) => Some(regex),
            Err(_) => None,
        },
{
    match compilation {
        Ok(regex) => Some(regex),
        Err(_) => None,
    }
}

/// `pattern`, compiled. Whether it compiles is left unsaid, as of [`Regex::new`]; what is made
/// of either outcome is [`usable`].
fn compiled(pattern: &str) -> (result: Option<Regex>)
    ensures
        result matches Some(regex) ==> pattern_of(regex) == pattern@,
{
    usable(Regex::new(pattern))
}

/// Whether a compiled pattern, where there is one, goes by `pattern`.
pub open spec fn goes_by(compiled: Option<Regex>, pattern: Seq<char>) -> bool {
    compiled matches Some(regex) ==> pattern_of(regex) == pattern
}

impl Patterns {
    /// Each part is compiled from its pattern.
    #[verifier::type_invariant]
    pub closed spec fn wf(self) -> bool {
        &&& pattern_of(self.word_count) == WORD_COUNT@
        &&& pattern_of(self.test_runner) == TEST_RUNNER@
        &&& pattern_of(self.signal) == SIGNAL@
        &&& pattern_of(self.diff_alert) == DIFF_ALERT@
        &&& pattern_of(self.diff_stat) == DIFF_STAT@
        &&& pattern_of(self.cargo_error) == CARGO_ERROR@
        &&& pattern_of(self.cargo_warning) == CARGO_WARNING@
    }

    /// The parts, in the order in which [`Patterns::from_compiled`] takes them.
    pub closed spec fn parts(self) -> Seq<Regex> {
        seq![
            self.word_count,
            self.test_runner,
            self.signal,
            self.diff_alert,
            self.diff_stat,
            self.cargo_error,
            self.cargo_warning,
        ]
    }

    /// Puts the compiled patterns together; gives nothing exactly where one of them is missing.
    pub fn from_compiled(
        word_count: Option<Regex>,
        test_runner: Option<Regex>,
        signal: Option<Regex>,
        diff_alert: Option<Regex>,
        diff_stat: Option<Regex>,
        cargo_error: Option<Regex>,
        cargo_warning: Option<Regex>,
    ) -> (patterns: Option<Patterns>)
        requires
            goes_by(word_count, WORD_COUNT@),
            goes_by(test_runner, TEST_RUNNER@),
            goes_by(signal, SIGNAL@),
            goes_by(diff_alert, DIFF_ALERT@),
            goes_by(diff_stat, DIFF_STAT@),
            goes_by(cargo_error, CARGO_ERROR@),
            goes_by(cargo_warning, CARGO_WARNING@),
        ensures
            patterns is Some <==> {
                &&& word_count is Some
                &&& test_runner is Some
                &&& signal is Some
                &&& diff_alert is Some
                &&& diff_stat is Some
                &&& cargo_error is Some
                &&& cargo_warning is Some
            },
            patterns matches Some(patterns) ==> patterns.wf() && patterns.parts() == seq![
                word_count->0,
                test_runner->0,
                signal->0,
                diff_alert->0,
                diff_stat->0,
                cargo_error->0,
                cargo_warning->0,
            ],
    {
        Some(
            Patterns {
                word_count: word_count?,
                test_runner: test_runner?,
                signal: signal?,
                diff_alert: diff_alert?,
                diff_stat: diff_stat?,
                cargo_error: cargo_error?,
                cargo_warning: cargo_warning?,
            },
        )
    }

    /// Compiles the patterns; gives nothing if one of them does not compile. That they compile
    /// is left unsaid, as of [`Regex::new`]; what is made of the outcomes is
    /// [`Patterns::from_compiled`].
    pub fn compile() -> (patterns: Option<Patterns>)
        ensures
            patterns matches Some(patterns) ==> patterns.wf(),
    {
        Patterns::from_compiled(
            compiled(WORD_COUNT),
            compiled(TEST_RUNNER),
            compiled(SIGNAL),
            compiled(DIFF_ALERT),
            compiled(DIFF_STAT),
            compiled(CARGO_ERROR),
            compiled(CARGO_WARNING),
        )
    }

    /// Whether `line` belongs to the statistics of a diff.
    pub fn is_diff_stat(&self, line: &str) -> (found: bool)
        ensures
            found == matches_in(DIFF_STAT@, line@),
    {
        proof {
            use_type_invariant(self);
        }
        self.diff_stat.is_match(line)
    }

    /// Whether `line` is a changed line that speaks of trouble.
    pub fn is_diff_alert(&self, line: &str) -> (found: bool)
        ensures
            found == matches_in(DIFF_ALERT@, line@),
    {
        proof {
            use_type_invariant(self);
        }
        self.diff_alert.is_match(line)
    }

    /// Whether `line` is an error or a warning of the compiler.
    pub fn is_cargo_diagnostic(&self, line: &str) -> (found: bool)
        ensures
            found == (matches_in(CARGO_ERROR@, line@) || matches_in(CARGO_WARNING@, line@)),
    {
        proof {
            use_type_invariant(self);
        }
        self.cargo_error.is_match(line) || self.cargo_warning.is_match(line)
    }

    /// Whether `line` holds a telling word, a verdict or a count of results.
    pub fn is_telling(&self, line: &str) -> (found: bool)
        ensures
            found == (matches_in(SIGNAL@, line@) || matches_in(TEST_RUNNER@, line@) || matches_in(
                WORD_COUNT@,
                line@,
            )),
    {
        proof {
            use_type_invariant(self);
        }
        self.signal.is_match(line) || self.test_runner.is_match(line) || self.word_count.is_match(
            line,
        )
    }
}

} // verus!
