use joerl::health::{actor_count_issues, health_status, HealthStatus, IssueSeverity};

#[test]
fn test_health_check_healthy() {
    let issues = actor_count_issues(0, 10_000, 0);
    assert!(issues.is_empty());
    assert_eq!(health_status(&issues), HealthStatus::Healthy);
}

#[test]
fn test_health_check_too_many_actors() {
    let issues = actor_count_issues(3, 2, 0);
    assert_eq!(health_status(&issues), HealthStatus::Degraded);
    assert_eq!(issues.len(), 1);
    assert_eq!(issues[0].severity, IssueSeverity::Warning);
    assert_eq!(issues[0].description, "Too many actors: 3");
    assert_eq!(issues[0].current_value, 3);
    assert_eq!(issues[0].threshold, 2);
}

#[test]
fn too_few_actors_is_critical() {
    let issues = actor_count_issues(1, 0, 5);
    assert_eq!(issues.len(), 1);
    assert_eq!(issues[0].severity, IssueSeverity::Critical);
    assert_eq!(issues[0].description, "Too few actors: 1");
    assert_eq!(health_status(&issues), HealthStatus::Unhealthy);
}

#[test]
fn both_limits_exceeded() {
    let issues = actor_count_issues(3, 2, 5);
    assert_eq!(issues.len(), 2);
    assert_eq!(issues[0].severity, IssueSeverity::Warning);
    assert_eq!(issues[1].severity, IssueSeverity::Critical);
    assert_eq!(health_status(&issues), HealthStatus::Unhealthy);
}

#[test]
fn zero_maximum_means_no_limit() {
    assert!(actor_count_issues(1_000_000, 0, 0).is_empty());
}
