use crate::text::{decimal, push_decimal, string_of};
use vstd::prelude::*;

verus! {

/// The overall health of an actor system.
#[derive(Debug, Clone, Copy, PartialEq, Eq, Structural)]
pub enum HealthStatus {
    /// Everything is within the configured limits.
    Healthy,
    /// Some limit is exceeded, but nothing critical.
    Degraded,
    /// A critical limit is exceeded.
    Unhealthy,
}

/// How serious a health issue is.
#[derive(Debug, Clone, Copy, PartialEq, Eq, Structural)]
pub enum IssueSeverity {
    /// Worth attention.
    Warning,
    /// The system does not work as intended.
    Critical,
}

/// A limit on the number of actors that the system exceeds: how serious it
/// is, its description, the current count and the limit.
#[derive(Debug, Clone)]
pub struct CountIssue {
    /// How serious the issue is.
    pub severity: IssueSeverity,
    /// What is wrong.
    pub description: String,
    /// The current number of actors.
    pub current_value: usize,
    /// The limit that is exceeded.
    pub threshold: usize,
}

/// Whether the count exceeds the maximum (a maximum of 0 means none).
pub open spec fn too_many(count: usize, max_actors: usize) -> bool {
    max_actors > 0 && count > max_actors
}

/// Whether the count is below the minimum.
pub open spec fn too_few(count: usize, min_actors: usize) -> bool {
    count < min_actors
}

/// The issues of an actor count against the limits: a warning `Too many
/// actors: <n>` above a non-zero maximum, then a critical `Too few actors:
/// <n>` below the minimum.
pub fn actor_count_issues(count: usize, max_actors: usize, min_actors: usize) -> (r: Vec<CountIssue>)
    ensures
        r@.len() == (if too_many(count, max_actors) { 1int } else { 0int }) + (if too_few(count, min_actors) {
            1int
        } else {
            0int
        }),
        too_many(count, max_actors) ==> ({
            let i = r@[0];
            &&& i.severity == IssueSeverity::Warning
            &&& i.description@ == "Too many actors: "@ + decimal(count as nat)
            &&& i.current_value == count
            &&& i.threshold == max_actors
        }),
        too_few(count, min_actors) ==> ({
            let i = r@[r@.len() - 1];
            &&& i.severity == IssueSeverity::Critical
            &&& i.description@ == "Too few actors: "@ + decimal(count as nat)
            &&& i.current_value == count
            &&& i.threshold == min_actors
        }),
        count < min_actors ==> r@.len() >= 1 && r@[r@.len() - 1].severity == IssueSeverity::Critical
            && r@[r@.len() - 1].current_value == count && r@[r@.len() - 1].threshold == min_actors,
        count >= min_actors ==> forall|j: int|
            0 <= j < r@.len() ==> #[trigger] r@[j].severity != IssueSeverity::Critical,
        max_actors > 0 && count > max_actors ==> r@.len() >= 1 && r@[0].severity == IssueSeverity::Warning
            && r@[0].current_value == count && r@[0].threshold == max_actors,
        max_actors == 0 || count <= max_actors ==> forall|j: int|
            0 <= j < r@.len() ==> #[trigger] r@[j].severity != IssueSeverity::Warning,
{
    let mut issues: Vec<CountIssue> = Vec::new();
    if max_actors > 0 && count > max_actors {
        let mut d = string_of("Too many actors: ");
        push_decimal(&mut d, count as u64);
        issues.push(
            CountIssue {
                severity: IssueSeverity::Warning,
                description: d,
                current_value: count,
                threshold: max_actors,
            },
        );
    }
    if count < min_actors {
        let mut d = string_of("Too few actors: ");
        push_decimal(&mut d, count as u64);
        issues.push(
            CountIssue {
                severity: IssueSeverity::Critical,
                description: d,
                current_value: count,
                threshold: min_actors,
            },
        );
    }
    issues
}

/// Whether some issue is critical.
pub open spec fn has_critical(issues: Seq<CountIssue>) -> bool {
    exists|i: int| 0 <= i < issues.len() && #[trigger] issues[i].severity == IssueSeverity::Critical
}

/// The status the issues amount to: healthy without issues, unhealthy with
/// a critical one, degraded otherwise.
pub open spec fn status_of(issues: Seq<CountIssue>) -> HealthStatus {
    if issues.len() == 0 {
        HealthStatus::Healthy
    } else if has_critical(issues) {
        HealthStatus::Unhealthy
    } else {
        HealthStatus::Degraded
    }
}

/// The status the issues amount to (see `status_of`).
pub fn health_status(issues: &[CountIssue]) -> (r: HealthStatus)
    ensures
        r == status_of(issues@),
{
    if issues.len() == 0 {
        return HealthStatus::Healthy;
    }
    let mut i: usize = 0;
    while i < issues.len()
        invariant
            i <= issues@.len(),
            forall|j: int| 0 <= j < i ==> issues@[j].severity != IssueSeverity::Critical,
        decreases issues@.len() - i,
    {
        if issues[i].severity == IssueSeverity::Critical {
            return HealthStatus::Unhealthy;
        }
        i = i + 1;
    }
    HealthStatus::Degraded
}

/// The status of an actor count against the limits: degraded above the
/// maximum, unhealthy below the minimum, healthy otherwise.
pub proof fn lemma_count_status(count: usize, max_actors: usize, min_actors: usize, issues: Seq<
    CountIssue,
>)
    requires
        issues.len() == (if too_many(count, max_actors) { 1int } else { 0int }) + (if too_few(
            count,
            min_actors,
        ) {
            1int
        } else {
            0int
        }),
        too_many(count, max_actors) ==> issues[0].severity == IssueSeverity::Warning,
        too_few(count, min_actors) ==> issues[issues.len() - 1].severity == IssueSeverity::Critical,
    ensures
        too_few(count, min_actors) ==> status_of(issues) == HealthStatus::Unhealthy,
        !too_few(count, min_actors) && too_many(count, max_actors) ==> status_of(issues)
            == HealthStatus::Degraded,
        !too_few(count, min_actors) && !too_many(count, max_actors) ==> status_of(issues)
            == HealthStatus::Healthy,
{
    if too_few(count, min_actors) {
        assert(issues[issues.len() - 1].severity == IssueSeverity::Critical);
    }
}

/// When the count issues are raised: the critical one exactly below the
/// minimum (an empty system included, whenever the minimum is positive),
/// the warning exactly above a non-zero maximum.
pub proof fn lemma_count_limits(count: usize, max_actors: usize, min_actors: usize)
    ensures
        too_few(count, min_actors) <==> count < min_actors,
        too_many(count, max_actors) <==> (max_actors != 0 && count > max_actors),
        min_actors > 0 ==> too_few(0, min_actors),
{
}

} // verus!
