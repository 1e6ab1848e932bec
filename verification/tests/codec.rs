use todoapp::codec::{decode_todo, encode_todo};
use todoapp::model::{Priority, Todo};

#[test]
fn test_encode_decode_round_trip_full() {
    let todo = Todo::create(
        0x0123_4567_89ab_cdef_0123_4567_89ab_cdef,
        "Grüße ✓ — title".to_string(),
        Some("multi\nline ä".to_string()),
        Some(1_700_000_000_000_000),
        Priority::High,
        1_650_000_000_000_000,
    );
    let bytes = encode_todo(&todo);
    let decoded = decode_todo(&bytes).unwrap();
    assert_eq!(decoded, todo);
}

#[test]
fn test_encode_decode_round_trip_minimal() {
    let todo = Todo::create(0, "".to_string(), None, None, Priority::Low, -5);
    let bytes = encode_todo(&todo);
    let decoded = decode_todo(&bytes).unwrap();
    assert_eq!(decoded, todo);
}

#[test]
fn test_encode_exact_layout() {
    // id 1; empty title; no description; no due date; Low; not completed;
    // both timestamps zero.
    let todo = Todo::create(1, "".to_string(), None, None, Priority::Low, 0);
    let bytes = encode_todo(&todo);
    let mut expected: Vec<u8> = Vec::new();
    expected.push(1u8);
    for _ in 0..15 {
        expected.push(0u8); // the id's remaining little-endian bytes
    }
    for _ in 0..8 {
        expected.push(0u8); // title byte length
    }
    expected.push(0u8); // description tag: absent
    expected.push(0u8); // due date tag: absent
    expected.push(0u8); // priority: Low
    expected.push(0u8); // completed: false
    for _ in 0..16 {
        expected.push(0u8); // created-at and updated-at
    }
    assert_eq!(bytes, expected);
}

#[test]
fn test_priority_and_completed_bytes() {
    let todo = Todo::create(0, "".to_string(), None, None, Priority::Medium, 0);
    let bytes = encode_todo(&todo);
    assert_eq!(bytes[26], 1); // Medium is stored as 1
    let todo2 = Todo::create(0, "".to_string(), None, None, Priority::High, 0);
    let bytes2 = encode_todo(&todo2);
    assert_eq!(bytes2[26], 2); // High is stored as 2
    let mut done = Todo::create(0, "".to_string(), None, None, Priority::Low, 0);
    done.set_completed_at(true, 0);
    let bytes3 = encode_todo(&done);
    assert_eq!(bytes3[27], 1); // completed is stored as 1
}

#[test]
fn test_decode_rejects_garbage() {
    assert!(decode_todo(&Vec::new()).is_none());
    assert!(decode_todo(&vec![1u8, 2, 3]).is_none());
}

#[test]
fn test_decode_rejects_truncation_and_trailing_bytes() {
    let todo = Todo::create(9, "abc".to_string(), None, Some(5), Priority::Low, 44);
    let mut bytes = encode_todo(&todo);
    let mut truncated = bytes.clone();
    truncated.pop();
    assert!(decode_todo(&truncated).is_none());
    bytes.push(0);
    assert!(decode_todo(&bytes).is_none());
}

#[test]
fn test_decode_rejects_bad_tag_bytes() {
    let todo = Todo::create(9, "".to_string(), None, None, Priority::Low, 0);
    let mut bytes = encode_todo(&todo);
    // the priority byte may only be 0, 1 or 2
    bytes[26] = 3;
    assert!(decode_todo(&bytes).is_none());
    bytes[26] = 0;
    // the completed byte may only be 0 or 1
    bytes[27] = 7;
    assert!(decode_todo(&bytes).is_none());
}

#[test]
fn test_decode_rejects_invalid_utf8_title() {
    let todo = Todo::create(2, "ab".to_string(), None, None, Priority::Low, 0);
    let mut bytes = encode_todo(&todo);
    // the two title bytes start at offset 24; 0xff is never valid UTF-8
    bytes[24] = 0xff;
    assert!(decode_todo(&bytes).is_none());
}
