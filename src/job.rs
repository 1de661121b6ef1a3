//! The decisions of one compile job and of the batch: where a job's output
//! goes, how the compiler is invoked, and what its exit means.

use vstd::prelude::*;
use crate::scalar::Scalar;
use crate::profile::{CompiledProfile, Assignment, row_view, texts_view};

verus! {

/// Why one job did not produce its artifact.
#[derive(Debug)]
pub enum JobError {
    /// Writing the script, creating the output directory or starting the
    /// compiler failed; the text says why.
    IoFailed(String),
    /// The compiler ran and exited with a status other than success.
    CompilerFailed { code: Option<i32>, profile_name: String, params: Vec<Scalar> },
}

/// A character of the Crockford base32 alphabet: a digit, or an upper-case
/// letter other than I, L, O and U.
pub open spec fn crockford_char(c: char) -> bool {
    ('0' <= c <= '9') || ('A' <= c <= 'Z' && c != 'I' && c != 'L' && c != 'O' && c != 'U')
}

/// Relies on `ulid::Ulid::new` and its `to_string`: a fresh identifier,
/// written as 26 characters of Crockford base32.
#[verifier::external_body]
fn new_ulid_text() -> (r: String)
    ensures
        r@.len() == 26,
        forall|i: int| 0 <= i < 26 ==> crockford_char(#[trigger] r@[i]),
{
    ulid::Ulid::new().to_string()
}

/// The file name of an artifact with identifier `id`.
pub fn output_file_name(id: &str) -> (r: String)
    ensures
        r@ == id@ + ".3mf"@,
{
    let mut r = id.to_owned();
    r.append(".3mf");
    r
}

/// A file name for a new artifact: a fresh time-ordered identifier with the
/// extension `.3mf`. It holds no path separator.
pub fn fresh_output_file_name() -> (r: String)
    ensures
        r@.len() == 30,
        forall|i: int| 0 <= i < 26 ==> crockford_char(#[trigger] r@[i]),
        r@.subrange(26, 30) == ".3mf"@,
        forall|i: int| 0 <= i < 30 ==> #[trigger] r@[i] != '/' && r@[i] != '\\',
{
    let id = new_ulid_text();
    let r = output_file_name(id.as_str());
    proof {
        reveal_strlit(".3mf");
        assert(r@.subrange(26, 30) =~= ".3mf"@);
        assert forall|i: int| 0 <= i < 30 implies #[trigger] r@[i] != '/' && r@[i] != '\\' by {
            if i < 26 {
                assert(r@[i] == id@[i]);
                assert(crockford_char(id@[i]));
            } else {
                assert(r@[i] == ".3mf"@[i - 26]);
            }
        }
        assert forall|i: int| 0 <= i < 26 implies crockford_char(#[trigger] r@[i]) by {
            assert(r@[i] == id@[i]);
        }
    }
    r
}

pub open spec fn compiler_args_spec(output_path: Seq<char>, script_path: Seq<char>) -> Seq<Seq<char>> {
    seq!["--export-format"@, "3mf"@, "-o"@, output_path, script_path]
}

/// The compiler's arguments: export as 3MF to `output_path`, reading the
/// script at `script_path`.
pub fn compiler_args(output_path: &str, script_path: &str) -> (r: Vec<String>)
    ensures
        texts_view(r@) == compiler_args_spec(output_path@, script_path@),
{
    let mut r: Vec<String> = Vec::new();
    r.push(String::from_str("--export-format"));
    r.push(String::from_str("3mf"));
    r.push(String::from_str("-o"));
    r.push(output_path.to_owned());
    r.push(script_path.to_owned());
    assert(texts_view(r@) =~= compiler_args_spec(output_path@, script_path@));
    r
}

/// Whether `r` is the compiler failure of `profile` with exit code `code`.
pub open spec fn is_compiler_failure(r: Result<String, JobError>, profile: Assignment, code: Option<i32>) -> bool {
    match r {
        Err(JobError::CompilerFailed { code: c, profile_name, params }) => c == code
            && profile_name@ == profile.name && row_view(params@) == profile.params,
        _ => false,
    }
}

/// The outcome of a job whose compiler exited with `exit_code` (none when it
/// was stopped by a signal): success only for code 0.
pub fn classify_exit(profile: &CompiledProfile, output_path: String, exit_code: Option<i32>) -> (r: Result<String, JobError>)
    ensures
        exit_code == Some(0i32) ==> r is Ok && r->Ok_0@ == output_path@,
        exit_code != Some(0i32) ==> is_compiler_failure(r, profile@, exit_code),
{
    match exit_code {
        Some(0) => Ok(output_path),
        _ => Err(
            JobError::CompilerFailed {
                code: exit_code,
                profile_name: profile.name().to_owned(),
                params: profile.values(),
            },
        ),
    }
}

/// How many of the results are successes.
pub open spec fn successes(s: Seq<Result<String, JobError>>) -> nat
    decreases s.len(),
{
    if s.len() == 0 {
        0
    } else {
        successes(s.drop_last()) + if s.last() is Ok {
            1nat
        } else {
            0nat
        }
    }
}

/// The tally of a finished batch.
pub struct BatchReport {
    pub succeeded: usize,
    pub failed: usize,
}

proof fn lemma_successes_all(s: Seq<Result<String, JobError>>)
    ensures
        successes(s) <= s.len(),
        successes(s) == s.len() <==> forall|i: int| 0 <= i < s.len() ==> #[trigger] s[i] is Ok,
    decreases s.len(),
{
    if s.len() > 0 {
        lemma_successes_all(s.drop_last());
        if forall|i: int| 0 <= i < s.len() ==> #[trigger] s[i] is Ok {
            assert forall|i: int| 0 <= i < s.drop_last().len() implies #[trigger] s.drop_last()[i] is Ok by {
                assert(s[i] is Ok);
            }
        }
        if successes(s) == s.len() {
            assert forall|i: int| 0 <= i < s.len() implies #[trigger] s[i] is Ok by {
                if i < s.len() - 1 {
                    assert(s.drop_last()[i] is Ok);
                }
            }
        }
    }
}

/// Counts the successes and failures of a batch; every job is counted, and
/// the batch failed exactly when some job did.
pub fn summarize(results: &Vec<Result<String, JobError>>) -> (r: BatchReport)
    ensures
        r.succeeded == successes(results@),
        r.succeeded + r.failed == results@.len(),
        r.failed == 0 <==> forall|i: int| 0 <= i < results@.len() ==> #[trigger] results@[i] is Ok,
{
    let mut ok: usize = 0;
    let mut i: usize = 0;
    while i < results.len()
        invariant
            0 <= i <= results.len(),
            ok == successes(results@.take(i as int)),
            ok <= i,
        decreases results.len() - i,
    {
        proof {
            assert(results@.take(i as int + 1).drop_last() =~= results@.take(i as int));
            lemma_successes_all(results@.take(i as int));
        }
        if results[i].is_ok() {
            ok += 1;
        }
        i += 1;
    }
    proof {
        assert(results@.take(results.len() as int) =~= results@);
        lemma_successes_all(results@);
    }
    BatchReport { succeeded: ok, failed: results.len() - ok }
}

impl BatchReport {
    /// The process exit status for the batch: 0 when every job succeeded.
    pub fn exit_code(&self) -> (r: i32)
        ensures
            r == 0 <==> self.failed == 0,
    {
        if self.failed == 0 {
            0
        } else {
            1
        }
    }
}

/// The number of assignments over all profiles.
pub open spec fn assignment_total(s: Seq<(String, Vec<CompiledProfile>)>) -> nat
    decreases s.len(),
{
    if s.len() == 0 {
        0
    } else {
        assignment_total(s.drop_last()) + s.last().1@.len()
    }
}

/// The number of assignments over all profiles, or `usize::MAX` where that
/// number does not fit.
pub fn total_assignments(profiles: &Vec<(String, Vec<CompiledProfile>)>) -> (r: usize)
    ensures
        r == if assignment_total(profiles@) <= usize::MAX {
            assignment_total(profiles@)
        } else {
            usize::MAX as nat
        },
{
    let mut total: usize = 0;
    let mut saturated = false;
    let mut i: usize = 0;
    while i < profiles.len()
        invariant
            0 <= i <= profiles.len(),
            saturated ==> total == usize::MAX && assignment_total(profiles@.take(i as int)) > usize::MAX,
            !saturated ==> total == assignment_total(profiles@.take(i as int)),
        decreases profiles.len() - i,
    {
        proof {
            assert(profiles@.take(i as int + 1).drop_last() =~= profiles@.take(i as int));
        }
        let n = profiles[i].1.len();
        if !saturated {
            if total > usize::MAX - n {
                total = usize::MAX;
                saturated = true;
            } else {
                total = total + n;
            }
        }
        i += 1;
    }
    proof {
        assert(profiles@.take(profiles.len() as int) =~= profiles@);
    }
    total
}

} // verus!
