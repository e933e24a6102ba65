use classpool::constant_pool::Tag;
use classpool::error::LoadError;

fn defined_bytes() -> Vec<u8> {
    vec![1, 3, 4, 5, 6, 7, 8, 9, 10, 11, 12, 15, 16, 17, 18, 19, 20]
}

#[test]
fn tag_bytes_round_trip() {
    for b in defined_bytes() {
        let tag = Tag::from_tag_byte(b).expect("defined byte must classify");
        assert_eq!(tag.tag_byte(), b);
    }
}

#[test]
fn undefined_bytes_fail_with_unknown_tag() {
    let defined = defined_bytes();
    for b in 0..=255u8 {
        if !defined.contains(&b) {
            assert_eq!(Tag::from_tag_byte(b), Err(LoadError::UnknownTag(b)));
        }
    }
}

#[test]
fn reserved_gap_bytes_fail() {
    for b in [0u8, 2, 13, 14, 21, 255] {
        assert_eq!(Tag::from_tag_byte(b), Err(LoadError::UnknownTag(b)));
    }
}

#[test]
fn exactly_nine_tags_are_loadable() {
    let loadable = [
        Tag::Integer,
        Tag::Float,
        Tag::Long,
        Tag::Double,
        Tag::Class,
        Tag::String,
        Tag::MethodHandle,
        Tag::MethodType,
        Tag::Dynamic,
    ];
    let not_loadable = [
        Tag::Utf8,
        Tag::FieldRef,
        Tag::MethodRef,
        Tag::InterfaceMethodRef,
        Tag::NameAndType,
        Tag::InvokeDynamic,
        Tag::Module,
        Tag::Package,
    ];
    for t in loadable {
        assert!(t.loadable());
    }
    for t in not_loadable {
        assert!(!t.loadable());
    }
}
