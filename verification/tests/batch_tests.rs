use docbox_ops::batch::{run_batch, select_candidates, BatchRunner, MigrateTenantsConfig, TenantRunResult};
use docbox_ops::migrate::pending_migrations;
use docbox_ops::registry::TenantRegistry;
use docbox_ops::tenant::{CredentialMode, Tenant, TenantId};
use docbox_ops::ErrorKind;

fn tenant(id: u128, name: &str, env: &str) -> Tenant {
    Tenant {
        id: TenantId { value: id },
        name: name.to_string(),
        env: env.to_string(),
        db_name: format!("docbox-{env}-{name}"),
        credential: CredentialMode::Secret {
            secret_name: format!("docbox-{env}-{name}-secret"),
        },
        s3_name: format!("docbox-{env}-{name}-files"),
        os_index_name: format!("docbox-{env}-{name}-index"),
        event_queue_url: None,
    }
}

fn names(list: &[&str]) -> Vec<String> {
    list.iter().map(|s| s.to_string()).collect()
}

#[test]
fn single_tenant_applies_its_pending_migration() {
    // T1 has m1, m2 applied and m3 pending
    let applied = names(&["m1", "m2"]);
    let available = names(&["m1", "m2", "m3"]);
    let pending = pending_migrations(&applied, &available, None);
    assert_eq!(pending, names(&["m3"]));

    let mut registry = TenantRegistry::new();
    registry.create(tenant(1, "t1", "prod")).unwrap();
    let candidates = select_candidates(
        &registry,
        &MigrateTenantsConfig {
            env: Some("prod".to_string()),
            tenant_id: Some(TenantId { value: 1 }),
            skip_failed: false,
            target_migration_name: None,
        },
    );
    assert_eq!(candidates.len(), 1);

    let results: Vec<TenantRunResult> = vec![Ok(pending)];
    let outcome = run_batch(&candidates, &results, false).unwrap();
    assert_eq!(outcome.applied_tenants.len(), 1);
    assert_eq!(outcome.applied_tenants[0].tenant_id.value, 1);
    assert_eq!(outcome.applied_tenants[0].migrations, names(&["m3"]));
    assert!(outcome.failed_tenants.is_empty());
}

#[test]
fn skip_failed_records_each_tenant_once() {
    // T1 succeeds, T2 fails with a connection error
    let candidates = vec![tenant(1, "t1", "prod"), tenant(2, "t2", "prod")];
    let results: Vec<TenantRunResult> = vec![
        Ok(names(&["m1"])),
        Err(ErrorKind::ConnectionError),
    ];
    let outcome = run_batch(&candidates, &results, true).unwrap();
    assert_eq!(outcome.applied_tenants.len(), 1);
    assert_eq!(outcome.applied_tenants[0].tenant_id.value, 1);
    assert_eq!(outcome.failed_tenants.len(), 1);
    let (error, failed) = &outcome.failed_tenants[0];
    assert_eq!(*error, ErrorKind::ConnectionError);
    assert_eq!(failed.tenant_id.value, 2);
    // every candidate is in exactly one list
    assert_eq!(
        outcome.applied_tenants.len() + outcome.failed_tenants.len(),
        candidates.len()
    );
}

#[test]
fn abort_mode_stops_at_first_failure() {
    let candidates = vec![
        tenant(1, "t1", "prod"),
        tenant(2, "t2", "prod"),
        tenant(3, "t3", "prod"),
    ];
    let results: Vec<TenantRunResult> = vec![
        Ok(names(&["m1"])),
        Err(ErrorKind::ConnectionError),
        Ok(names(&["m1"])),
    ];
    let aborted = run_batch(&candidates, &results, false).unwrap_err();
    assert_eq!(aborted.error, ErrorKind::ConnectionError);
    assert_eq!(aborted.tenant.tenant_id.value, 2);
    // only the successful prefix is represented; the failing tenant and the
    // untried one are in neither list
    assert_eq!(aborted.outcome.applied_tenants.len(), 1);
    assert_eq!(aborted.outcome.applied_tenants[0].tenant_id.value, 1);
    assert!(aborted.outcome.failed_tenants.is_empty());
    assert!(
        aborted.outcome.applied_tenants.len() + aborted.outcome.failed_tenants.len()
            < candidates.len()
    );
}

#[test]
fn zero_pending_counts_as_applied_with_no_migrations() {
    let candidates = vec![tenant(1, "t1", "prod")];
    let results: Vec<TenantRunResult> = vec![Ok(Vec::new())];
    let outcome = run_batch(&candidates, &results, false).unwrap();
    assert_eq!(outcome.applied_tenants.len(), 1);
    assert!(outcome.applied_tenants[0].migrations.is_empty());
    assert!(outcome.failed_tenants.is_empty());
}

#[test]
fn select_candidates_narrows_by_environment_and_id() {
    let mut registry = TenantRegistry::new();
    registry.create(tenant(1, "t1", "prod")).unwrap();
    registry.create(tenant(2, "t2", "prod")).unwrap();
    registry.create(tenant(3, "t3", "staging")).unwrap();

    let prod = select_candidates(
        &registry,
        &MigrateTenantsConfig {
            env: Some("prod".to_string()),
            tenant_id: None,
            skip_failed: true,
            target_migration_name: None,
        },
    );
    assert_eq!(prod.len(), 2);

    let one = select_candidates(
        &registry,
        &MigrateTenantsConfig {
            env: Some("prod".to_string()),
            tenant_id: Some(TenantId { value: 2 }),
            skip_failed: true,
            target_migration_name: None,
        },
    );
    assert_eq!(one.len(), 1);
    assert_eq!(one[0].name, "t2");

    let everything = select_candidates(
        &registry,
        &MigrateTenantsConfig {
            env: None,
            tenant_id: None,
            skip_failed: true,
            target_migration_name: None,
        },
    );
    assert_eq!(everything.len(), 3);
}

#[test]
fn runner_walks_tenants_in_order_and_aborts_on_failure() {
    let candidates = vec![tenant(1, "t1", "prod"), tenant(2, "t2", "prod")];
    let mut runner = BatchRunner::new(candidates, false);

    let first = runner.current().unwrap();
    assert_eq!(first.id.value, 1);
    runner.record(Ok(names(&["m1"])));

    let second = runner.current().unwrap();
    assert_eq!(second.id.value, 2);
    runner.record(Err(ErrorKind::ConnectionError));

    // the failure halts the run
    assert!(runner.current().is_none());
    let aborted = runner.into_result().unwrap_err();
    assert_eq!(aborted.error, ErrorKind::ConnectionError);
    assert_eq!(aborted.tenant.tenant_id.value, 2);
    assert_eq!(aborted.outcome.applied_tenants.len(), 1);
}

#[test]
fn runner_with_skip_failed_processes_everyone() {
    let candidates = vec![tenant(1, "t1", "prod"), tenant(2, "t2", "prod")];
    let mut runner = BatchRunner::new(candidates, true);
    runner.record(Err(ErrorKind::ConnectionError));
    runner.record(Ok(Vec::new()));
    assert!(runner.current().is_none());
    let outcome = runner.into_result().unwrap();
    assert_eq!(outcome.applied_tenants.len(), 1);
    assert_eq!(outcome.applied_tenants[0].tenant_id.value, 2);
    assert_eq!(outcome.failed_tenants.len(), 1);
    assert_eq!(outcome.failed_tenants[0].1.tenant_id.value, 1);
}
