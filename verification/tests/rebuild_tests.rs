use docbox_ops::rebuild::{RebuildFlow, RebuildPhase};
use docbox_ops::snapshot::{decode_snapshot, IndexSnapshot, SnapshotDocument};
use docbox_ops::ErrorKind;

fn snapshot() -> IndexSnapshot {
    IndexSnapshot {
        documents: vec![
            SnapshotDocument {
                document_id: 1,
                content: b"first document".to_vec(),
            },
            SnapshotDocument {
                document_id: 2,
                content: b"second document".to_vec(),
            },
        ],
    }
}

#[test]
fn happy_path_persists_before_replacing() {
    let mut flow = RebuildFlow::new();
    assert_eq!(flow.phase, RebuildPhase::AwaitingExtract);

    flow.on_extracted(Ok(snapshot()));
    assert_eq!(flow.phase, RebuildPhase::AwaitingPersist);

    // the recovery artifact exists and is non-empty before any
    // destructive step
    let artifact = flow.persist_payload();
    assert!(!artifact.is_empty());

    flow.on_persisted(Ok(()));
    assert_eq!(flow.phase, RebuildPhase::AwaitingReplace);

    let to_install = flow.replace_payload();
    assert_eq!(to_install.documents.len(), 2);

    flow.on_replaced(Ok(()));
    assert_eq!(flow.phase, RebuildPhase::Complete);
}

#[test]
fn extract_failure_leaves_index_untouched() {
    let mut flow = RebuildFlow::new();
    flow.on_extracted(Err(ErrorKind::ConnectionError));
    assert_eq!(flow.phase, RebuildPhase::Aborted);
}

#[test]
fn persist_failure_aborts_before_any_destruction() {
    let mut flow = RebuildFlow::new();
    flow.on_extracted(Ok(snapshot()));
    flow.on_persisted(Err(ErrorKind::ConnectionError));
    assert_eq!(flow.phase, RebuildPhase::Aborted);
}

#[test]
fn replace_failure_is_recoverable_from_the_artifact_alone() {
    let mut flow = RebuildFlow::new();
    flow.on_extracted(Ok(snapshot()));
    let artifact = flow.persist_payload();
    flow.on_persisted(Ok(()));
    flow.on_replaced(Err(ErrorKind::ConnectionError));
    assert_eq!(flow.phase, RebuildPhase::ReplaceFailed);

    // a retry rebuilds the index from the persisted bytes, with no access
    // to the original source: the decoded documents are exactly the
    // snapshot that was extracted
    let recovered = decode_snapshot(&artifact).unwrap();
    let original = snapshot();
    assert_eq!(recovered.documents.len(), original.documents.len());
    for (a, b) in recovered.documents.iter().zip(original.documents.iter()) {
        assert_eq!(a.document_id, b.document_id);
        assert_eq!(a.content, b.content);
    }
}
