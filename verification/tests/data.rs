use msrf::{Header, RecordId, RecordMeta, CURRENT_VERSION, RECORD_EOS};
use std::fmt::Debug;

const LEN: u64 = 64;
const SOURCE: u16 = 1;
const TYPE: u16 = 2;

fn assert_pair_eq<T: Debug + PartialEq>(first: T, second: T, expected: T) {
    assert_eq!(first, expected);
    assert_eq!(second, expected);
}

#[test]
fn record_interop() {
    let record_meta = RecordMeta::new(SOURCE, TYPE, LEN);
    let record_id = RecordId::from(record_meta);

    assert_eq!(record_meta, record_id.into_meta(LEN));
    assert_pair_eq(record_meta.is_eos(), record_id.is_eos(), false);
    assert_pair_eq(record_meta.source_id(), record_id.source_id(), SOURCE);
    assert_pair_eq(record_meta.type_id(), record_id.type_id(), TYPE);
}

#[test]
fn record_interop_container() {
    const COUNT: u16 = 5;
    let record_meta = RecordMeta::new_container(SOURCE, TYPE, LEN, COUNT);
    let record_id = RecordId::from(record_meta);

    assert_ne!(record_meta, record_id.into_meta(LEN));
    assert_pair_eq(record_meta.is_eos(), record_id.is_eos(), false);
    assert_pair_eq(record_meta.source_id(), record_id.source_id(), SOURCE);
    assert_pair_eq(record_meta.type_id(), record_id.type_id(), TYPE);
}

#[test]
fn record_interop_eos() {
    let record_meta = RecordMeta::new(RECORD_EOS, TYPE, LEN);
    let record_id = RecordId::from(record_meta);

    assert_eq!(record_meta, record_id.into_meta(LEN));
    assert_pair_eq(record_meta.is_eos(), record_id.is_eos(), true);
    assert_pair_eq(record_meta.source_id(), record_id.source_id(), RECORD_EOS);
    assert_pair_eq(record_meta.type_id(), record_id.type_id(), TYPE);
}

#[test]
fn header_accessors() {
    assert_eq!(Header::new(3).version(), 3);
    assert_eq!(Header::default().version(), CURRENT_VERSION);
    assert_eq!(Header::new(0), Header::default());
}

#[test]
fn record_meta_accessors() {
    let meta = RecordMeta::new(7, 9, 0);
    assert_eq!(meta.len(), 0);
    assert_eq!(meta.length(), 0);
    assert_eq!(meta.value_len(), 0);
    assert!(meta.is_empty());
    assert!(!meta.is_container());
    assert_eq!(meta.contained(), None);

    let container = RecordMeta::new_container(7, 9, 12, 0);
    assert_eq!(container.len(), 12);
    assert!(!container.is_empty());
    assert!(container.is_container());
    assert_eq!(container.contained(), Some(0));

    let eos = RecordMeta::new_eos();
    assert!(eos.is_eos());
    assert_eq!(eos.source_id(), 0xFFFF);
    assert_eq!(eos.len(), 0);
    assert_eq!(eos.contained(), None);
}

#[test]
fn record_id_masks_the_container_flag() {
    let id = RecordId::new(3, 0x8000 | 7);
    assert_eq!(id.type_id(), 7);
    assert_eq!(id.source_id(), 3);
    assert!(!id.is_eos());
    assert!(RecordId::new_eos().is_eos());
    assert_eq!(RecordId::new_eos().type_id(), 0);
}
