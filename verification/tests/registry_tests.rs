use docbox_ops::registry::TenantRegistry;
use docbox_ops::tenant::{CredentialMode, Tenant, TenantId};
use docbox_ops::ErrorKind;

fn tenant(id: u128, name: &str, env: &str) -> Tenant {
    Tenant {
        id: TenantId { value: id },
        name: name.to_string(),
        env: env.to_string(),
        db_name: format!("docbox-{env}-{name}"),
        credential: CredentialMode::Secret {
            secret_name: format!("docbox-{env}-{name}-secret"),
        },
        s3_name: format!("docbox-{env}-{name}-files"),
        os_index_name: format!("docbox-{env}-{name}-index"),
        event_queue_url: None,
    }
}

#[test]
fn create_then_get() {
    let mut registry = TenantRegistry::new();
    registry.create(tenant(1, "acme", "prod")).unwrap();
    let found = registry
        .get(&"prod".to_string(), TenantId { value: 1 })
        .unwrap();
    assert_eq!(found.name, "acme");
    assert_eq!(found.db_name, "docbox-prod-acme");
}

#[test]
fn get_misses_other_environment() {
    let mut registry = TenantRegistry::new();
    registry.create(tenant(1, "acme", "prod")).unwrap();
    assert!(registry
        .get(&"staging".to_string(), TenantId { value: 1 })
        .is_none());
}

#[test]
fn duplicate_key_is_rejected() {
    let mut registry = TenantRegistry::new();
    registry.create(tenant(1, "acme", "prod")).unwrap();
    let err = registry.create(tenant(1, "other", "prod")).unwrap_err();
    assert_eq!(err, ErrorKind::DuplicateTenant);
    // same id in another environment is a different key
    registry.create(tenant(1, "acme", "staging")).unwrap();
    assert_eq!(registry.list(None).len(), 2);
}

#[test]
fn list_filters_by_environment() {
    let mut registry = TenantRegistry::new();
    registry.create(tenant(1, "acme", "prod")).unwrap();
    registry.create(tenant(2, "beta", "staging")).unwrap();
    registry.create(tenant(3, "gamma", "prod")).unwrap();

    let all = registry.list(None);
    assert_eq!(all.len(), 3);

    let prod = registry.list(Some(&"prod".to_string()));
    assert_eq!(prod.len(), 2);
    assert_eq!(prod[0].name, "acme");
    assert_eq!(prod[1].name, "gamma");
}

#[test]
fn update_credential_mode_swaps_to_iam() {
    let mut registry = TenantRegistry::new();
    registry.create(tenant(1, "acme", "prod")).unwrap();
    registry
        .update_credential_mode(
            &"prod".to_string(),
            TenantId { value: 1 },
            CredentialMode::Iam {
                principal: "role/acme".to_string(),
            },
        )
        .unwrap();
    let found = registry
        .get(&"prod".to_string(), TenantId { value: 1 })
        .unwrap();
    assert!(matches!(found.credential, CredentialMode::Iam { .. }));
    // everything else untouched
    assert_eq!(found.name, "acme");
}

#[test]
fn update_missing_tenant_is_not_found() {
    let mut registry = TenantRegistry::new();
    let err = registry
        .update_credential_mode(
            &"prod".to_string(),
            TenantId { value: 9 },
            CredentialMode::Iam {
                principal: "role/x".to_string(),
            },
        )
        .unwrap_err();
    assert_eq!(err, ErrorKind::NotFound);
}

#[test]
fn remove_deletes_exactly_one_record() {
    let mut registry = TenantRegistry::new();
    registry.create(tenant(1, "acme", "prod")).unwrap();
    registry.create(tenant(2, "beta", "prod")).unwrap();
    let removed = registry
        .remove(&"prod".to_string(), TenantId { value: 1 })
        .unwrap();
    assert_eq!(removed.name, "acme");
    assert!(registry
        .get(&"prod".to_string(), TenantId { value: 1 })
        .is_none());
    assert!(registry
        .get(&"prod".to_string(), TenantId { value: 2 })
        .is_some());
}

#[test]
fn remove_missing_tenant_is_not_found() {
    let mut registry = TenantRegistry::new();
    let err = registry
        .remove(&"prod".to_string(), TenantId { value: 1 })
        .unwrap_err();
    assert_eq!(err, ErrorKind::NotFound);
}
