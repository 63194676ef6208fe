use docbox_ops::decommission::{
    plan_decommission, validate_options, DecommissionAction, DecommissionFlow,
    DeleteTenantOptions,
};
use docbox_ops::registry::TenantRegistry;
use docbox_ops::tenant::{CredentialMode, Tenant, TenantId};
use docbox_ops::ErrorKind;

fn options(
    delete_contents: bool,
    delete_database: bool,
    delete_search: bool,
    delete_storage: bool,
    permanently_delete_secret: bool,
) -> DeleteTenantOptions {
    DeleteTenantOptions {
        delete_contents,
        delete_database,
        delete_search,
        delete_storage,
        permanently_delete_secret,
    }
}

/// Drives the flow to completion with every step succeeding, collecting the
/// actions it hands out.
fn run_all_ok(flow: &mut DecommissionFlow) -> Vec<DecommissionAction> {
    let mut executed = Vec::new();
    while let Some(action) = flow.next_action() {
        executed.push(action);
        flow.on_action_result(Ok(()));
    }
    executed
}

#[test]
fn database_deletion_without_contents_is_invalid() {
    let opts = options(false, true, false, false, false);
    let err = validate_options(&opts).unwrap_err();
    assert_eq!(err, ErrorKind::InvalidOptions);
    // no flow is created, so no action can be handed out: nothing is touched
    let err = DecommissionFlow::new(&opts).map(|_| ()).unwrap_err();
    assert_eq!(err, ErrorKind::InvalidOptions);
    let err = plan_decommission(&opts).map(|_| ()).unwrap_err();
    assert_eq!(err, ErrorKind::InvalidOptions);
}

#[test]
fn search_deletion_without_contents_is_invalid() {
    let opts = options(false, false, true, false, false);
    assert_eq!(validate_options(&opts).unwrap_err(), ErrorKind::InvalidOptions);
}

#[test]
fn permanent_secret_purge_without_contents_is_invalid() {
    let opts = options(false, false, false, false, true);
    assert_eq!(validate_options(&opts).unwrap_err(), ErrorKind::InvalidOptions);
}

#[test]
fn database_only_cascade_drops_database_and_schedules_secret() {
    // delete the database, leave search and storage intact, schedule (not
    // purge) the secret, and remove the registry record only at the end
    let opts = options(true, true, false, false, false);
    let mut flow = DecommissionFlow::new(&opts).unwrap();
    let executed = run_all_ok(&mut flow);
    assert_eq!(
        executed,
        vec![
            DecommissionAction::InvalidateCache,
            DecommissionAction::DropDatabase,
            DecommissionAction::DeleteSecret { immediate: false },
            DecommissionAction::RemoveRegistryRow,
        ]
    );
}

#[test]
fn registry_record_removed_only_after_the_drop_succeeds() {
    let opts = options(true, true, false, false, false);

    let mut registry = TenantRegistry::new();
    registry
        .create(Tenant {
            id: TenantId { value: 1 },
            name: "t1".to_string(),
            env: "prod".to_string(),
            db_name: "docbox-prod-t1".to_string(),
            credential: CredentialMode::Secret {
                secret_name: "docbox-prod-t1-secret".to_string(),
            },
            s3_name: "docbox-prod-t1-files".to_string(),
            os_index_name: "docbox-prod-t1-index".to_string(),
            event_queue_url: None,
        })
        .unwrap();

    // the database drop fails: the cascade halts and the record stays
    let mut flow = DecommissionFlow::new(&opts).unwrap();
    assert_eq!(flow.next_action(), Some(DecommissionAction::InvalidateCache));
    flow.on_action_result(Ok(()));
    assert_eq!(flow.next_action(), Some(DecommissionAction::DropDatabase));
    flow.on_action_result(Err(ErrorKind::ConnectionError));
    assert_eq!(flow.next_action(), None);
    // RemoveRegistryRow was never handed out, so the record survives
    assert!(registry
        .get(&"prod".to_string(), TenantId { value: 1 })
        .is_some());

    // a retry where every step succeeds reaches the registry removal last
    let mut flow = DecommissionFlow::new(&opts).unwrap();
    let executed = run_all_ok(&mut flow);
    assert_eq!(
        executed.last(),
        Some(&DecommissionAction::RemoveRegistryRow)
    );
    registry
        .remove(&"prod".to_string(), TenantId { value: 1 })
        .unwrap();
    assert!(registry
        .get(&"prod".to_string(), TenantId { value: 1 })
        .is_none());
}

#[test]
fn full_cascade_runs_in_order() {
    let opts = options(true, true, true, true, true);
    let mut flow = DecommissionFlow::new(&opts).unwrap();
    let executed = run_all_ok(&mut flow);
    assert_eq!(
        executed,
        vec![
            DecommissionAction::InvalidateCache,
            DecommissionAction::DropDatabase,
            DecommissionAction::DeleteSearchIndex,
            DecommissionAction::DeleteStorage {
                delete_contents: true
            },
            DecommissionAction::DeleteSecret { immediate: true },
            DecommissionAction::RemoveRegistryRow,
        ]
    );
}

#[test]
fn detach_only_cascade_still_invalidates_caches() {
    // nothing is deleted, yet the cache invalidation always runs
    let opts = options(false, false, false, false, false);
    let mut flow = DecommissionFlow::new(&opts).unwrap();
    let executed = run_all_ok(&mut flow);
    assert_eq!(
        executed,
        vec![
            DecommissionAction::InvalidateCache,
            DecommissionAction::RemoveRegistryRow,
        ]
    );
}
