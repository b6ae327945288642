use trident_sysext::health::{
    Check, Health, Script, ScriptSource, ServicingType, ServicingTypeSelection, SystemdCheck,
};

fn create_test_health_checks() -> Health {
    Health {
        checks: vec![
            Check::Script(Script {
                name: "test-script".into(),
                run_on: vec![ServicingTypeSelection::AbUpdate],
                interpreter: Some("/bin/bash".into()),
                source: ScriptSource::Content("echo hi".into()),
                ..Default::default()
            }),
            Check::SystemdCheck(SystemdCheck {
                name: "test-systemd-check".into(),
                systemd_services: vec!["test-service".into()],
                timeout_seconds: 60,
            }),
        ],
    }
}

#[test]
fn test_health_checks_should_run() {
    let health = create_test_health_checks();
    health.checks.iter().for_each(|check| {
        assert!(check.should_run(ServicingType::AbUpdate));
        assert!(!check.should_run(ServicingType::CleanInstall));
    });
}

#[test]
fn health_checks_skip_other_servicing_types() {
    let health = create_test_health_checks();
    for check in &health.checks {
        assert!(!check.should_run(ServicingType::NormalUpdate));
        assert!(!check.should_run(ServicingType::NoActiveServicing));
    }
}

#[test]
fn default_health_has_no_checks() {
    let health = Health::default();
    assert!(health.checks.is_empty());
}
