use base64::Engine;
use shared::backup::{
    backup_from_text, backup_text, compress_backup, payload_from, read_backup,
    BACKUP_COMPRESSION_LEVEL,
};

#[test]
fn backup_round_trip() {
    let data: Vec<u8> = (0..500u32).map(|i| (i % 7) as u8).collect();
    let packed = compress_backup(&data);
    assert_ne!(packed, data);
    assert_eq!(read_backup(&packed), data);
    assert_eq!(BACKUP_COMPRESSION_LEVEL, 6);
}

#[test]
fn backup_of_empty_bytes() {
    let packed = compress_backup(&[]);
    assert!(!packed.is_empty());
    assert_eq!(read_backup(&packed), Vec::<u8>::new());
}

#[test]
fn raw_bytes_are_their_own_payload() {
    let raw = vec![1u8, 2, 3, 4, 5];
    assert_eq!(read_backup(&raw), raw);
}

#[test]
fn payload_choice() {
    assert_eq!(payload_from(&[9, 9], Some(vec![1])), vec![1]);
    assert_eq!(payload_from(&[9, 9], None), vec![9, 9]);
}

#[test]
fn backup_text_round_trip() {
    let data = b"serialized state bytes".to_vec();
    let text = backup_text(&data).unwrap();
    assert_ne!(text.as_bytes(), data.as_slice());
    assert_eq!(backup_from_text(&text).unwrap(), data);
    assert_eq!(backup_from_text(&format!("  {}\n", text)).unwrap(), data);
}

#[test]
fn backup_text_is_base64_of_compressed_backup() {
    let data = vec![7u8; 300];
    let text = backup_text(&data).unwrap();
    let decoded = base64::engine::general_purpose::STANDARD.decode(&text).unwrap();
    assert_eq!(decoded, compress_backup(&data));
}

#[test]
fn backup_from_plain_base64_and_bad_text() {
    assert_eq!(backup_from_text(" Zm9v ").unwrap(), b"foo".to_vec());
    assert_eq!(backup_from_text("").unwrap(), Vec::<u8>::new());
    assert!(backup_from_text("not base64!").is_err());
    assert!(backup_from_text("Zm9").is_err());
}
