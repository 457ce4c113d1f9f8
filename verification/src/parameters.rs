//! Simulation settings that are whole numbers or choices: the kind of
//! distribution a random input follows, and the length of the holding period.
use vstd::prelude::*;
use vstd::string::*;

verus! {

/// Supported distribution types for stochastic parameters.
#[derive(Clone, Copy, Debug, PartialEq, Eq, Structural)]
pub enum DistributionType {
    Fixed,
    Normal,
    Uniform,
    LogNormal,
    Triangular,
}

impl Default for DistributionType {
    /// A random input follows a normal distribution unless chosen otherwise.
    fn default() -> (d: Self)
        ensures
            d == DistributionType::Normal,
    {
        DistributionType::Normal
    }
}

/// Number of months in a holding period of `holding_period_years` years.
pub fn holding_period_months(holding_period_years: u32) -> (months: u32)
    requires
        holding_period_years * 12 <= u32::MAX,
    ensures
        months == holding_period_years * 12,
{
    holding_period_years * 12
}

/// Whether `pattern` occurs in `text` starting at position `i`.
pub open spec fn occurs_at(text: Seq<char>, pattern: Seq<char>, i: int) -> bool {
    &&& 0 <= i
    &&& i + pattern.len() <= text.len()
    &&& text.subrange(i, i + pattern.len()) == pattern
}

/// Whether `pattern` occurs anywhere in `text`.
pub open spec fn contains_text(text: Seq<char>, pattern: Seq<char>) -> bool {
    exists|i: int| occurs_at(text, pattern, i)
}

/// A text contains every pattern written inside it, wherever it stands,
/// and never a pattern longer than itself.
pub proof fn lemma_contains_text_occurrences(
    before: Seq<char>,
    pattern: Seq<char>,
    after: Seq<char>,
)
    ensures
        contains_text(before + pattern + after, pattern),
        pattern.len() > before.len() ==> !contains_text(before, pattern),
{
    let text = before + pattern + after;
    assert(text.subrange(before.len() as int, (before.len() + pattern.len()) as int) =~= pattern);
    assert(occurs_at(text, pattern, before.len() as int));
}

fn matches_at(text: &str, pattern: &str, i: usize) -> (found: bool)
    requires
        i + pattern@.len() <= text@.len(),
        text@.len() <= usize::MAX,
    ensures
        found == occurs_at(text@, pattern@, i as int),
{
    let k: usize = pattern.unicode_len();
    let mut j: usize = 0;
    while j < k
        invariant
            j <= k,
            k == pattern@.len(),
            i + k <= text@.len(),
            text@.len() <= usize::MAX,
            forall|t: int| 0 <= t < j ==> text@[i + t] == pattern@[t],
        decreases k - j,
    {
        if text.get_char(i + j) != pattern.get_char(j) {
            assert(text@.subrange(i as int, i + k)[j as int] != pattern@[j as int]);
            return false;
        }
        j = j + 1;
    }
    assert(text@.subrange(i as int, i + k) =~= pattern@);
    true
}

/// Whether `pattern` occurs in `text`, as `str::contains` answers it.
fn contains(text: &str, pattern: &str) -> (found: bool)
    ensures
        found == contains_text(text@, pattern@),
{
    let n: usize = text.unicode_len();
    let k: usize = pattern.unicode_len();
    if k == 0 {
        assert(occurs_at(text@, pattern@, 0)) by {
            assert(text@.subrange(0, 0) =~= pattern@);
        }
        return true;
    }
    if k > n {
        return false;
    }
    let mut i: usize = 0;
    while i <= n - k
        invariant
            n == text@.len(),
            k == pattern@.len(),
            1 <= k <= n,
            i <= n - k + 1,
            forall|t: int| 0 <= t < i ==> !occurs_at(text@, pattern@, t),
        decreases n - k + 1 - i,
    {
        if matches_at(text, pattern, i) {
            return true;
        }
        i = i + 1;
    }
    false
}

/// Whether a random input named `name` is a rate (shown as a percentage)
/// rather than an amount of money: its name mentions a rate, an increase or
/// an appreciation.
pub fn is_rate_parameter(name: &str) -> (is_rate: bool)
    ensures
        is_rate == (contains_text(name@, "Rate"@) || contains_text(name@, "Increase"@)
            || contains_text(name@, "Appreciation"@)),
{
    contains(name, "Rate") || contains(name, "Increase") || contains(name, "Appreciation")
}

} // verus!
