use docbox_ops::provision::{
    build_tenant, validate_create, CreateTenantConfig, ProvisionFlow, ProvisionStep,
};
use docbox_ops::registry::TenantRegistry;
use docbox_ops::tenant::{CredentialMode, TenantId};
use docbox_ops::ErrorKind;

fn config(id: u128, name: &str, env: &str) -> CreateTenantConfig {
    CreateTenantConfig {
        id: TenantId { value: id },
        name: name.to_string(),
        env: env.to_string(),
        credential: CredentialMode::Secret {
            secret_name: format!("docbox-{env}-{name}-secret"),
        },
        event_queue_url: None,
    }
}

#[test]
fn empty_name_is_rejected() {
    let registry = TenantRegistry::new();
    let err = validate_create(&config(1, "", "prod"), &registry).unwrap_err();
    assert_eq!(err, ErrorKind::ValidationError);
}

#[test]
fn empty_environment_is_rejected() {
    let registry = TenantRegistry::new();
    let err = validate_create(&config(1, "acme", ""), &registry).unwrap_err();
    assert_eq!(err, ErrorKind::ValidationError);
}

#[test]
fn existing_key_is_a_duplicate() {
    let mut registry = TenantRegistry::new();
    let flow = ProvisionFlow::new(&config(1, "acme", "prod"), &registry).unwrap();
    let mut flow = flow;
    for _ in 0..4 {
        flow.on_step_result(Ok(()));
    }
    flow.commit(&mut registry).unwrap();

    let err = ProvisionFlow::new(&config(1, "again", "prod"), &registry)
        .map(|_| ())
        .unwrap_err();
    assert_eq!(err, ErrorKind::DuplicateTenant);
}

#[test]
fn derived_names_follow_the_environment_and_name() {
    let tenant = build_tenant(&config(1, "acme", "prod"));
    assert_eq!(tenant.db_name, "docbox-prod-acme");
    assert_eq!(tenant.s3_name, "docbox-prod-acme-files");
    assert_eq!(tenant.os_index_name, "docbox-prod-acme-index");
}

#[test]
fn steps_run_in_order_and_commit_is_last() {
    let mut registry = TenantRegistry::new();
    let mut flow = ProvisionFlow::new(&config(1, "acme", "prod"), &registry).unwrap();

    let mut steps = Vec::new();
    while let Some(step) = flow.next_step() {
        steps.push(step);
        flow.on_step_result(Ok(()));
    }
    assert_eq!(
        steps,
        vec![
            ProvisionStep::CreateDatabase,
            ProvisionStep::CreateSearchIndex,
            ProvisionStep::CreateStorageBucket,
            ProvisionStep::StoreCredential,
        ]
    );

    // the registry record is the commit point: before the commit the tenant
    // does not exist
    assert!(registry
        .get(&"prod".to_string(), TenantId { value: 1 })
        .is_none());
    let tenant = flow.commit(&mut registry).unwrap();
    assert_eq!(tenant.name, "acme");
    assert!(registry
        .get(&"prod".to_string(), TenantId { value: 1 })
        .is_some());
}

#[test]
fn failed_step_reports_what_was_already_created() {
    let registry = TenantRegistry::new();
    let mut flow = ProvisionFlow::new(&config(1, "acme", "prod"), &registry).unwrap();

    flow.on_step_result(Ok(())); // database created
    flow.on_step_result(Ok(())); // search index created
    flow.on_step_result(Err(ErrorKind::ConnectionError)); // bucket failed

    assert!(flow.next_step().is_none());
    let completed = flow.completed_steps();
    assert_eq!(
        completed,
        vec![
            ProvisionStep::CreateDatabase,
            ProvisionStep::CreateSearchIndex,
        ]
    );
}
