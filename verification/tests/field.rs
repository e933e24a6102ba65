use classpool::constant_pool::{ConstantPool, Data, PoolEntry, Utf8Data};
use classpool::descriptor::{BaseType, FieldDescriptor, ScalarDescriptor};
use classpool::error::LoadError;
use classpool::field::{
    resolve_field, resolve_fields, AttributeEntry, Attributes, FieldAccessFlags, Fields,
    RawFieldRecord, ACC_FINAL, ACC_PUBLIC, ACC_STATIC, ACC_VOLATILE,
};

fn utf8_entry(s: &[u8]) -> PoolEntry {
    PoolEntry {
        data: Data::Utf8(Utf8Data { length: s.len() as u16, bytes: s.to_vec() }),
    }
}

fn pool_with_utf8(strings: &[&[u8]]) -> ConstantPool {
    let mut pool = ConstantPool::new();
    for s in strings {
        pool.push_entry(utf8_entry(s));
    }
    pool
}

fn record(flags: u16, name_index: u16, descriptor_index: u16) -> RawFieldRecord {
    RawFieldRecord {
        access_flags: flags,
        name_index,
        descriptor_index,
        attributes: Attributes { entries: vec![] },
    }
}

#[test]
fn final_and_volatile_are_rejected() {
    let pool = pool_with_utf8(&[b"count", b"I"]);
    let rec = record(ACC_FINAL | ACC_VOLATILE, 1, 2);
    assert_eq!(resolve_field(&rec, &pool), Err(LoadError::IllegalAccessFlags));
    assert_eq!(
        FieldAccessFlags::from_raw(ACC_FINAL | ACC_VOLATILE),
        Err(LoadError::IllegalAccessFlags)
    );
}

#[test]
fn conflicting_visibility_is_rejected() {
    assert_eq!(
        FieldAccessFlags::from_raw(0x0003),
        Err(LoadError::IllegalAccessFlags)
    );
}

#[test]
fn undefined_flag_bits_are_masked_away() {
    let flags = FieldAccessFlags::from_raw(ACC_PUBLIC | 0x0020 | 0x8000).unwrap();
    assert_eq!(flags.bits, ACC_PUBLIC);
}

#[test]
fn resolution_dereferences_name_and_descriptor() {
    let pool = pool_with_utf8(&[b"count", b"I"]);
    let rec = record(ACC_PUBLIC | ACC_STATIC, 1, 2);
    let entry = resolve_field(&rec, &pool).unwrap();
    assert_eq!(entry.access_flags.bits, ACC_PUBLIC | ACC_STATIC);
    assert!(entry.access_flags.is_static());
    assert!(!entry.access_flags.is_final());
    assert_eq!(entry.name.bytes, b"count".to_vec());
    assert_eq!(
        entry.descriptor,
        FieldDescriptor::Scalar(ScalarDescriptor::Base(BaseType::Int))
    );
    assert!(entry.attributes.entries.is_empty());
}

#[test]
fn resolution_passes_attributes_through() {
    let pool = pool_with_utf8(&[b"value", b"[Ljava/lang/String;"]);
    let mut rec = record(ACC_PUBLIC, 1, 2);
    rec.attributes = Attributes {
        entries: vec![
            AttributeEntry { name_index: 7, info: vec![1, 2, 3] },
            AttributeEntry { name_index: 9, info: vec![] },
        ],
    };
    let entry = resolve_field(&rec, &pool).unwrap();
    assert_eq!(entry.attributes.entries.len(), 2);
    assert_eq!(entry.attributes.entries[0].name_index, 7);
    assert_eq!(entry.attributes.entries[0].info, vec![1, 2, 3]);
    assert_eq!(entry.attributes.entries[1].name_index, 9);
    assert_eq!(
        entry.descriptor,
        FieldDescriptor::Array {
            dimensions: 1,
            element: ScalarDescriptor::Object(b"java/lang/String".to_vec()),
        }
    );
}

#[test]
fn bad_name_index_fails() {
    let pool = pool_with_utf8(&[b"count", b"I"]);
    assert_eq!(
        resolve_field(&record(0, 0, 2), &pool),
        Err(LoadError::InvalidConstantPoolIndex)
    );
    assert_eq!(
        resolve_field(&record(0, 9, 2), &pool),
        Err(LoadError::InvalidConstantPoolIndex)
    );
}

#[test]
fn non_utf8_name_slot_fails() {
    let mut pool = pool_with_utf8(&[b"I"]);
    pool.push_entry(PoolEntry {
        data: Data::Class(classpool::constant_pool::ClassData { name_index: 1 }),
    });
    assert_eq!(
        resolve_field(&record(0, 2, 1), &pool),
        Err(LoadError::ConstantPoolTagMismatch)
    );
}

#[test]
fn malformed_descriptor_fails() {
    let pool = pool_with_utf8(&[b"count", b"I["]);
    assert_eq!(
        resolve_field(&record(0, 1, 2), &pool),
        Err(LoadError::MalformedDescriptor)
    );
}

#[test]
fn resolution_is_idempotent() {
    let pool = pool_with_utf8(&[b"count", b"[[J"]);
    let rec = record(ACC_PUBLIC | ACC_STATIC, 1, 2);
    let first = resolve_field(&rec, &pool).unwrap();
    let second = resolve_field(&rec, &pool).unwrap();
    assert_eq!(first, second);
}

#[test]
fn declaration_order_is_preserved() {
    let pool = pool_with_utf8(&[b"B", b"A", b"I"]);
    let entry_b = resolve_field(&record(0, 1, 3), &pool).unwrap();
    let entry_a = resolve_field(&record(0, 2, 3), &pool).unwrap();
    let fields = Fields::<u64>::new(vec![entry_b, entry_a]);
    assert_eq!(fields.entries.len(), 2);
    assert_eq!(fields.entries[0].name.bytes, b"B".to_vec());
    assert_eq!(fields.entries[1].name.bytes, b"A".to_vec());
}

#[test]
fn whole_class_resolves_in_order() {
    let pool = pool_with_utf8(&[b"B", b"A", b"I"]);
    let records = vec![record(0, 1, 3), record(0, 2, 3)];
    let entries = resolve_fields(&records, &pool).unwrap();
    assert_eq!(entries.len(), 2);
    assert_eq!(entries[0].name.bytes, b"B".to_vec());
    assert_eq!(entries[1].name.bytes, b"A".to_vec());
}

#[test]
fn one_bad_record_aborts_the_class() {
    let pool = pool_with_utf8(&[b"B", b"A", b"I"]);
    let records = vec![record(0, 1, 3), record(ACC_FINAL | ACC_VOLATILE, 2, 3)];
    assert_eq!(resolve_fields(&records, &pool), Err(LoadError::IllegalAccessFlags));
}

#[test]
fn static_storage_keeps_one_cell_per_name() {
    let mut fields = Fields::<u64>::new(vec![]);
    assert!(fields.insert_static(b"count".to_vec(), 41));
    assert!(!fields.insert_static(b"count".to_vec(), 99));
    assert_eq!(fields.get_static(&b"count".to_vec()), Some(&41));
    assert_eq!(fields.get_static(&b"other".to_vec()), None);
    assert!(fields.insert_static(b"other".to_vec(), 7));
    assert_eq!(fields.get_static(&b"other".to_vec()), Some(&7));
    assert_eq!(fields.get_static(&b"count".to_vec()), Some(&41));
}
