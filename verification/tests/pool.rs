use classpool::constant_pool::{
    ClassData, ConstantPool, Data, DoubleData, IntegerData, LongData, PoolEntry, Tag, Utf8Data,
};
use classpool::error::LoadError;

fn utf8_entry(s: &[u8]) -> PoolEntry {
    PoolEntry {
        data: Data::Utf8(Utf8Data { length: s.len() as u16, bytes: s.to_vec() }),
    }
}

#[test]
fn index_zero_always_fails() {
    let mut pool = ConstantPool::new();
    assert_eq!(
        pool.entry_with_tag(0, Tag::Utf8).err(),
        Some(LoadError::InvalidConstantPoolIndex)
    );
    pool.push_entry(utf8_entry(b"x"));
    assert_eq!(
        pool.entry_with_tag(0, Tag::Utf8).err(),
        Some(LoadError::InvalidConstantPoolIndex)
    );
}

#[test]
fn out_of_range_index_fails() {
    let mut pool = ConstantPool::new();
    pool.push_entry(utf8_entry(b"x"));
    assert_eq!(
        pool.entry_with_tag(2, Tag::Utf8).err(),
        Some(LoadError::InvalidConstantPoolIndex)
    );
    assert_eq!(
        pool.entry_with_tag(65535, Tag::Utf8).err(),
        Some(LoadError::InvalidConstantPoolIndex)
    );
}

#[test]
fn long_second_slot_fails() {
    let mut pool = ConstantPool::new();
    pool.push_entry(PoolEntry {
        data: Data::Long(LongData { low_bytes: 1, high_bytes: 2 }),
    });
    assert_eq!(pool.num_slots(), 2);
    assert!(pool.entry_with_tag(1, Tag::Long).is_ok());
    assert_eq!(
        pool.entry_with_tag(2, Tag::Long).err(),
        Some(LoadError::InvalidConstantPoolIndex)
    );
    // The next entry takes the index after the continuation slot.
    pool.push_entry(PoolEntry { data: Data::Integer(IntegerData { bytes: 9 }) });
    assert!(pool.entry_with_tag(3, Tag::Integer).is_ok());
}

#[test]
fn double_second_slot_fails() {
    let mut pool = ConstantPool::new();
    pool.push_entry(utf8_entry(b"x"));
    pool.push_entry(PoolEntry {
        data: Data::Double(DoubleData { low_bytes: 3, high_bytes: 4 }),
    });
    assert_eq!(pool.num_slots(), 3);
    assert!(pool.entry_with_tag(2, Tag::Double).is_ok());
    assert_eq!(
        pool.entry_with_tag(3, Tag::Double).err(),
        Some(LoadError::InvalidConstantPoolIndex)
    );
}

#[test]
fn wrong_tag_fails_with_mismatch() {
    let mut pool = ConstantPool::new();
    pool.push_entry(utf8_entry(b"x"));
    assert_eq!(
        pool.entry_with_tag(1, Tag::Integer).err(),
        Some(LoadError::ConstantPoolTagMismatch)
    );
    assert_eq!(pool.utf8_at(1).unwrap().bytes, b"x".to_vec());
}

#[test]
fn class_name_resolves_to_exact_bytes() {
    let mut pool = ConstantPool::new();
    pool.push_entry(utf8_entry(b"x"));
    pool.push_entry(PoolEntry { data: Data::Class(ClassData { name_index: 1 }) });
    let class_entry = pool.entry_with_tag(2, Tag::Class).unwrap();
    let name_index = match &class_entry.data {
        Data::Class(c) => c.name_index,
        _ => panic!("expected a class entry"),
    };
    let name = pool.utf8_at(name_index).unwrap();
    assert_eq!(name.bytes, b"x".to_vec());
    assert_eq!(name.length, 1);
}

#[test]
fn entry_tag_is_derived_from_data() {
    let entry = utf8_entry(b"abc");
    assert_eq!(entry.tag(), Tag::Utf8);
    let entry = PoolEntry { data: Data::Class(ClassData { name_index: 3 }) };
    assert_eq!(entry.tag(), Tag::Class);
}
