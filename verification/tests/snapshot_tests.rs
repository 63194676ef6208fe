use docbox_ops::snapshot::{decode_snapshot, encode_snapshot, IndexSnapshot, SnapshotDocument};
use docbox_ops::ErrorKind;

fn doc(id: u128, content: &[u8]) -> SnapshotDocument {
    SnapshotDocument {
        document_id: id,
        content: content.to_vec(),
    }
}

#[test]
fn empty_snapshot_encodes_to_its_count_header() {
    let snapshot = IndexSnapshot {
        documents: Vec::new(),
    };
    let bytes = encode_snapshot(&snapshot);
    assert_eq!(bytes, vec![0u8; 8]);
    assert!(!bytes.is_empty());
}

#[test]
fn single_document_layout_is_exact() {
    let snapshot = IndexSnapshot {
        documents: vec![doc(2, b"hi")],
    };
    let bytes = encode_snapshot(&snapshot);
    let mut expected: Vec<u8> = Vec::new();
    expected.extend_from_slice(&1u64.to_le_bytes()); // document count
    expected.extend_from_slice(&2u128.to_le_bytes()); // identifier
    expected.extend_from_slice(&2u64.to_le_bytes()); // content length
    expected.extend_from_slice(b"hi"); // content
    assert_eq!(bytes, expected);
}

#[test]
fn round_trip_reproduces_the_snapshot() {
    let snapshot = IndexSnapshot {
        documents: vec![
            doc(1, b"alpha"),
            doc(u128::MAX, b""),
            doc(42, &[0u8, 255u8, 7u8]),
        ],
    };
    let bytes = encode_snapshot(&snapshot);
    let decoded = decode_snapshot(&bytes).unwrap();
    assert_eq!(decoded.documents.len(), 3);
    for (before, after) in snapshot.documents.iter().zip(decoded.documents.iter()) {
        assert_eq!(before.document_id, after.document_id);
        assert_eq!(before.content, after.content);
    }
}

#[test]
fn truncated_bytes_are_rejected() {
    let snapshot = IndexSnapshot {
        documents: vec![doc(7, b"payload")],
    };
    let mut bytes = encode_snapshot(&snapshot);
    bytes.pop();
    let err = decode_snapshot(&bytes).unwrap_err();
    assert_eq!(err, ErrorKind::ValidationError);
}

#[test]
fn missing_header_is_rejected() {
    let bytes = vec![1u8, 2u8, 3u8];
    let err = decode_snapshot(&bytes).unwrap_err();
    assert_eq!(err, ErrorKind::ValidationError);
}

#[test]
fn trailing_bytes_are_rejected() {
    let snapshot = IndexSnapshot {
        documents: vec![doc(7, b"payload")],
    };
    let mut bytes = encode_snapshot(&snapshot);
    bytes.push(0u8);
    let err = decode_snapshot(&bytes).unwrap_err();
    assert_eq!(err, ErrorKind::ValidationError);
}
