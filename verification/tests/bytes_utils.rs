use blockchain::bytes_utils::{append_bytes, append_bytes_raw, boxed_bytes};

#[test]
fn append_raw_bytes() {
    let expected_bytes: [u8; 8] = [1, 1, 1, 1, 2, 2, 2, 2];
    let mut bytes: [u8; 8] = [0; 8];
    {
        let mut idx: usize = 0;
        append_bytes_raw(&[1, 1, 1, 1], &mut bytes, &mut idx).unwrap();
        append_bytes_raw(&[2, 2, 2, 2], &mut bytes, &mut idx).unwrap();
    }
    assert_eq!(bytes, expected_bytes);
}

#[test]
fn append_actix_bytes() {
    let expected_bytes = actix_web::web::Bytes::from(vec![1, 1, 1, 1, 2, 2, 2, 2]);
    let mut bytes = actix_web::web::Bytes::new();
    {
        bytes = append_bytes(bytes, actix_web::web::Bytes::from(vec![1, 1, 1, 1]));
        bytes = append_bytes(bytes, actix_web::web::Bytes::from(vec![2, 2, 2, 2]));
    }
    assert_eq!(bytes, expected_bytes);
}

#[test]
fn append_raw_bytes_without_room_fails_and_changes_nothing() {
    let mut bytes: [u8; 4] = [9; 4];
    let mut idx: usize = 2;
    assert!(append_bytes_raw(&[1, 1, 1], &mut bytes, &mut idx).is_err());
    assert_eq!(idx, 2);
    assert_eq!(bytes, [9; 4]);
    assert!(append_bytes_raw(&[1, 1], &mut bytes, &mut idx).is_ok());
    assert_eq!(idx, 4);
    assert_eq!(bytes, [9, 9, 1, 1]);
}

#[test]
fn boxed_bytes_are_zeros() {
    let bytes = boxed_bytes(5);
    assert_eq!(&bytes[..], &[0u8; 5][..]);
    assert_eq!(boxed_bytes(0).len(), 0);
}

#[test]
fn append_to_empty_actix_bytes() {
    let empty = actix_web::web::Bytes::new();
    let joined = append_bytes(empty.clone(), empty);
    assert!(joined.is_empty());
}
