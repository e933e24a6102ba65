//! The constant pool: tag classification, per-tag record layouts, and the
//! 1-indexed pool table with its double-width-slot quirk.

use vstd::prelude::*;

use crate::error::LoadError;

verus! {

/// The kind of a constant pool entry, one per tag byte the format defines.
///
/// The byte codes are non-contiguous (bytes 2, 13 and 14 are reserved) and
/// are fixed by the format; see [`spec_tag_byte`] for the exact mapping.
#[derive(Copy, Clone, Debug, PartialEq, Eq, Structural)]
pub enum Tag {
    Utf8,
    Integer,
    Float,
    Long,
    Double,
    Class,
    String,
    FieldRef,
    MethodRef,
    InterfaceMethodRef,
    NameAndType,
    MethodHandle,
    MethodType,
    Dynamic,
    InvokeDynamic,
    Module,
    Package,
}

/// The canonical byte that encodes a tag in the binary format.
pub open spec fn spec_tag_byte(t: Tag) -> u8 {
    match t {
        Tag::Utf8 => 1,
        Tag::Integer => 3,
        Tag::Float => 4,
        Tag::Long => 5,
        Tag::Double => 6,
        Tag::Class => 7,
        Tag::String => 8,
        Tag::FieldRef => 9,
        Tag::MethodRef => 10,
        Tag::InterfaceMethodRef => 11,
        Tag::NameAndType => 12,
        Tag::MethodHandle => 15,
        Tag::MethodType => 16,
        Tag::Dynamic => 17,
        Tag::InvokeDynamic => 18,
        Tag::Module => 19,
        Tag::Package => 20,
    }
}

/// The tag a byte decodes to, or `None` for any byte outside the defined
/// set (including the reserved bytes 2, 13 and 14).
pub open spec fn spec_tag_of_byte(b: u8) -> Option<Tag> {
    if b == 1 {
        Some(Tag::Utf8)
    } else if b == 3 {
        Some(Tag::Integer)
    } else if b == 4 {
        Some(Tag::Float)
    } else if b == 5 {
        Some(Tag::Long)
    } else if b == 6 {
        Some(Tag::Double)
    } else if b == 7 {
        Some(Tag::Class)
    } else if b == 8 {
        Some(Tag::String)
    } else if b == 9 {
        Some(Tag::FieldRef)
    } else if b == 10 {
        Some(Tag::MethodRef)
    } else if b == 11 {
        Some(Tag::InterfaceMethodRef)
    } else if b == 12 {
        Some(Tag::NameAndType)
    } else if b == 15 {
        Some(Tag::MethodHandle)
    } else if b == 16 {
        Some(Tag::MethodType)
    } else if b == 17 {
        Some(Tag::Dynamic)
    } else if b == 18 {
        Some(Tag::InvokeDynamic)
    } else if b == 19 {
        Some(Tag::Module)
    } else if b == 20 {
        Some(Tag::Package)
    } else {
        None
    }
}

/// The kinds a "load constant" instruction may legally reference.
pub open spec fn spec_loadable(t: Tag) -> bool {
    match t {
        Tag::Integer => true,
        Tag::Float => true,
        Tag::Long => true,
        Tag::Double => true,
        Tag::Class => true,
        Tag::String => true,
        Tag::MethodHandle => true,
        Tag::MethodType => true,
        Tag::Dynamic => true,
        _ => false,
    }
}

/// A tag whose entry occupies two consecutive pool slots.
pub open spec fn spec_wide_tag(t: Tag) -> bool {
    t is Long || t is Double
}

impl Tag {
    /// Classifies a tag byte, rejecting every byte outside the defined set
    /// (the reserved gaps included) with `UnknownTag`.
    pub fn from_tag_byte(tag: u8) -> (r: Result<Self, LoadError>)
        ensures
            match r {
                Ok(t) => spec_tag_of_byte(tag) == Some(t),
                Err(e) => spec_tag_of_byte(tag) is None && e == LoadError::UnknownTag(tag),
            },
    {
        match tag {
            1 => Ok(Tag::Utf8),
            3 => Ok(Tag::Integer),
            4 => Ok(Tag::Float),
            5 => Ok(Tag::Long),
            6 => Ok(Tag::Double),
            7 => Ok(Tag::Class),
            8 => Ok(Tag::String),
            9 => Ok(Tag::FieldRef),
            10 => Ok(Tag::MethodRef),
            11 => Ok(Tag::InterfaceMethodRef),
            12 => Ok(Tag::NameAndType),
            15 => Ok(Tag::MethodHandle),
            16 => Ok(Tag::MethodType),
            17 => Ok(Tag::Dynamic),
            18 => Ok(Tag::InvokeDynamic),
            19 => Ok(Tag::Module),
            20 => Ok(Tag::Package),
            _ => Err(LoadError::UnknownTag(tag)),
        }
    }

    /// The canonical byte that encodes this tag in the binary format.
    pub fn tag_byte(&self) -> (b: u8)
        ensures
            b == spec_tag_byte(*self),
    {
        match self {
            Tag::Utf8 => 1,
            Tag::Integer => 3,
            Tag::Float => 4,
            Tag::Long => 5,
            Tag::Double => 6,
            Tag::Class => 7,
            Tag::String => 8,
            Tag::FieldRef => 9,
            Tag::MethodRef => 10,
            Tag::InterfaceMethodRef => 11,
            Tag::NameAndType => 12,
            Tag::MethodHandle => 15,
            Tag::MethodType => 16,
            Tag::Dynamic => 17,
            Tag::InvokeDynamic => 18,
            Tag::Module => 19,
            Tag::Package => 20,
        }
    }

    /// Whether a "load constant" instruction may legally reference an entry
    /// of this kind.
    pub fn loadable(&self) -> (r: bool)
        ensures
            r == spec_loadable(*self),
    {
        matches!(
            self,
            Tag::Integer
                | Tag::Float
                | Tag::Long
                | Tag::Double
                | Tag::Class
                | Tag::String
                | Tag::MethodHandle
                | Tag::MethodType
                | Tag::Dynamic
        )
    }
}

/// Law: tag bytes and tags are in bijection over the defined byte set.
///
/// Decoding succeeds exactly on the defined bytes, decoding then re-encoding
/// a byte gives that byte back, and re-encoding then decoding a tag gives
/// that tag back.
pub proof fn lemma_tag_byte_round_trip()
    ensures
        forall|b: u8|
            (#[trigger] spec_tag_of_byte(b)) matches Some(t) ==> spec_tag_byte(t) == b,
        forall|t: Tag| spec_tag_of_byte(#[trigger] spec_tag_byte(t)) == Some(t),
        forall|b: u8|
            (#[trigger] spec_tag_of_byte(b)) is Some <==> (b == 1 || (3 <= b && b <= 12) || (
            15 <= b && b <= 20)),
{
}

/// Law: `loadable` holds exactly for the nine kinds a "load constant"
/// instruction may reference, and fails for the remaining eight.
pub proof fn lemma_loadable_exactly()
    ensures
        forall|t: Tag|
            #[trigger] spec_loadable(t) <==> (t is Integer || t is Float || t is Long
                || t is Double || t is Class || t is String || t is MethodHandle
                || t is MethodType || t is Dynamic),
        forall|t: Tag|
            !(#[trigger] spec_loadable(t)) <==> (t is Utf8 || t is FieldRef || t is MethodRef
                || t is InterfaceMethodRef || t is NameAndType || t is InvokeDynamic
                || t is Module || t is Package),
{
}

/// A length-prefixed run of raw bytes (modified UTF-8, carried opaquely).
#[derive(Clone, Debug, PartialEq, Eq)]
pub struct Utf8Data {
    pub length: u16,
    pub bytes: Vec<u8>,
}

/// The raw 32 bits of a 4-byte integer constant.
#[derive(Copy, Clone, Debug, PartialEq, Eq, Structural)]
pub struct IntegerData {
    pub bytes: u32,
}

/// The raw 32 bits of a 4-byte floating constant; interpreting them as an
/// IEEE-754 single is the interpreter collaborator's responsibility.
#[derive(Copy, Clone, Debug, PartialEq, Eq, Structural)]
pub struct FloatData {
    pub bytes: u32,
}

/// The two 32-bit halves of an 8-byte integer constant, kept split exactly
/// as encoded; the entry occupies two pool slots.
#[derive(Copy, Clone, Debug, PartialEq, Eq, Structural)]
pub struct LongData {
    pub low_bytes: u32,
    pub high_bytes: u32,
}

/// The two 32-bit halves of an 8-byte floating constant, kept split exactly
/// as encoded; the entry occupies two pool slots.
#[derive(Copy, Clone, Debug, PartialEq, Eq, Structural)]
pub struct DoubleData {
    pub low_bytes: u32,
    pub high_bytes: u32,
}

/// A class reference: the 1-based pool index of the class's Utf8 name.
#[derive(Copy, Clone, Debug, PartialEq, Eq, Structural)]
pub struct ClassData {
    pub name_index: u16,
}

/// A string constant: the 1-based pool index of its Utf8 contents.
#[derive(Copy, Clone, Debug, PartialEq, Eq, Structural)]
pub struct StringData {
    pub utf8_index: u16,
}

/// A field reference: 1-based indices of the class and the name-and-type.
#[derive(Copy, Clone, Debug, PartialEq, Eq, Structural)]
pub struct FieldRefData {
    pub class_index: u16,
    pub name_and_type_index: u16,
}

/// A method reference: 1-based indices of the class and the name-and-type.
#[derive(Copy, Clone, Debug, PartialEq, Eq, Structural)]
pub struct MethodRefData {
    pub class_index: u16,
    pub name_and_type_index: u16,
}

/// An interface-method reference: 1-based indices of the class and the
/// name-and-type.
#[derive(Copy, Clone, Debug, PartialEq, Eq, Structural)]
pub struct InterfaceMethodRefData {
    pub class_index: u16,
    pub name_and_type_index: u16,
}

/// A name-and-type pair: 1-based indices of two Utf8 entries.
#[derive(Copy, Clone, Debug, PartialEq, Eq, Structural)]
pub struct NameAndTypeData {
    pub name_index: u16,
    pub descriptor_index: u16,
}

/// A method handle: its reference kind and the 1-based index it refers to.
#[derive(Copy, Clone, Debug, PartialEq, Eq, Structural)]
pub struct MethodHandleData {
    pub reference_kind: u8,
    pub reference_index: u16,
}

/// A method type: the 1-based pool index of its Utf8 descriptor.
#[derive(Copy, Clone, Debug, PartialEq, Eq, Structural)]
pub struct MethodTypeData {
    pub descriptor_index: u16,
}

/// A dynamically-computed constant: bootstrap-method-attribute index and
/// the 1-based index of the name-and-type.
#[derive(Copy, Clone, Debug, PartialEq, Eq, Structural)]
pub struct DynamicData {
    pub bootstrap_method_attr_index: u16,
    pub name_and_type_index: u16,
}

/// A dynamically-computed call site: bootstrap-method-attribute index and
/// the 1-based index of the name-and-type.
#[derive(Copy, Clone, Debug, PartialEq, Eq, Structural)]
pub struct InvokeDynamicData {
    pub bootstrap_method_attr_index: u16,
    pub name_and_type_index: u16,
}

/// A module declaration: the 1-based pool index of its Utf8 name.
#[derive(Copy, Clone, Debug, PartialEq, Eq, Structural)]
pub struct ModuleData {
    pub name_index: u16,
}

/// A package declaration: the 1-based pool index of its Utf8 name.
#[derive(Copy, Clone, Debug, PartialEq, Eq, Structural)]
pub struct PackageData {
    pub name_index: u16,
}

/// The payload of a constant pool entry, one variant per tag.
///
/// Cross-referencing fields are stored as raw 1-based indices with no bounds
/// or kind checking at construction time; validation is deferred to the
/// point of dereference.
#[derive(Clone, Debug, PartialEq, Eq)]
pub enum Data {
    Utf8(Utf8Data),
    Integer(IntegerData),
    Float(FloatData),
    Long(LongData),
    Double(DoubleData),
    Class(ClassData),
    String(StringData),
    FieldRef(FieldRefData),
    MethodRef(MethodRefData),
    InterfaceMethodRef(InterfaceMethodRefData),
    NameAndType(NameAndTypeData),
    MethodHandle(MethodHandleData),
    MethodType(MethodTypeData),
    Dynamic(DynamicData),
    InvokeDynamic(InvokeDynamicData),
    Module(ModuleData),
    Package(PackageData),
}

impl Data {
    /// The tag this payload belongs to; the active variant is the
    /// discriminant, so a payload can never disagree with its tag.
    pub open spec fn spec_tag(&self) -> Tag {
        match self {
            Data::Utf8(_) => Tag::Utf8,
            Data::Integer(_) => Tag::Integer,
            Data::Float(_) => Tag::Float,
            Data::Long(_) => Tag::Long,
            Data::Double(_) => Tag::Double,
            Data::Class(_) => Tag::Class,
            Data::String(_) => Tag::String,
            Data::FieldRef(_) => Tag::FieldRef,
            Data::MethodRef(_) => Tag::MethodRef,
            Data::InterfaceMethodRef(_) => Tag::InterfaceMethodRef,
            Data::NameAndType(_) => Tag::NameAndType,
            Data::MethodHandle(_) => Tag::MethodHandle,
            Data::MethodType(_) => Tag::MethodType,
            Data::Dynamic(_) => Tag::Dynamic,
            Data::InvokeDynamic(_) => Tag::InvokeDynamic,
            Data::Module(_) => Tag::Module,
            Data::Package(_) => Tag::Package,
        }
    }

    /// Reads the tag off the active variant.
    pub fn tag(&self) -> (t: Tag)
        ensures
            t == self.spec_tag(),
    {
        match self {
            Data::Utf8(_) => Tag::Utf8,
            Data::Integer(_) => Tag::Integer,
            Data::Float(_) => Tag::Float,
            Data::Long(_) => Tag::Long,
            Data::Double(_) => Tag::Double,
            Data::Class(_) => Tag::Class,
            Data::String(_) => Tag::String,
            Data::FieldRef(_) => Tag::FieldRef,
            Data::MethodRef(_) => Tag::MethodRef,
            Data::InterfaceMethodRef(_) => Tag::InterfaceMethodRef,
            Data::NameAndType(_) => Tag::NameAndType,
            Data::MethodHandle(_) => Tag::MethodHandle,
            Data::MethodType(_) => Tag::MethodType,
            Data::Dynamic(_) => Tag::Dynamic,
            Data::InvokeDynamic(_) => Tag::InvokeDynamic,
            Data::Module(_) => Tag::Module,
            Data::Package(_) => Tag::Package,
        }
    }
}

/// One addressable constant pool entry.
///
/// The entry's tag is derived from the active `Data` variant rather than
/// stored beside it, so an entry whose tag disagrees with its payload is
/// unrepresentable by construction.
#[derive(Clone, Debug, PartialEq, Eq)]
pub struct PoolEntry {
    pub data: Data,
}

impl PoolEntry {
    /// The tag of this entry, derived from the payload.
    pub open spec fn spec_tag(&self) -> Tag {
        self.data.spec_tag()
    }

    /// Reads the tag off the payload.
    pub fn tag(&self) -> (t: Tag)
        ensures
            t == self.spec_tag(),
    {
        self.data.tag()
    }
}

/// One slot of the 1-indexed pool table.
///
/// A Long or Double entry occupies two consecutive slots; the second is an
/// explicit continuation slot rather than an addressable entry, so the
/// double-width quirk is represented in the data instead of being inferred
/// from position arithmetic.
#[derive(Clone, Debug, PartialEq, Eq)]
pub enum Slot {
    /// An addressable entry.
    Entry(PoolEntry),
    /// The reserved, unaddressable second slot of the Long or Double entry
    /// immediately before it.
    Continuation,
}

/// Whether a slot holds an entry that occupies two slots.
pub open spec fn spec_wide_slot(s: Slot) -> bool {
    s matches Slot::Entry(e) && spec_wide_tag(e.spec_tag())
}

/// The constant pool table: logically 1-indexed, with index 0 unused and a
/// continuation slot after every Long or Double entry.
#[derive(Clone, Debug)]
pub struct ConstantPool {
    slots: Vec<Slot>,
}

impl ConstantPool {
    /// The slots of the table; slot `i` of this sequence is pool index
    /// `i + 1`.
    pub closed spec fn spec_slots(&self) -> Seq<Slot> {
        self.slots@
    }

    /// How many slots the table occupies, continuation slots included.
    pub open spec fn spec_num_slots(&self) -> int {
        self.spec_slots().len() as int
    }

    /// Well-formedness: a continuation slot stands exactly after each Long
    /// or Double entry and nowhere else.
    pub open spec fn wf(&self) -> bool {
        &&& forall|i: int|
            0 <= i < self.spec_num_slots() && (#[trigger] self.spec_slots()[i]) is Continuation
                ==> (i > 0 && spec_wide_slot(self.spec_slots()[i - 1]))
        &&& forall|i: int|
            0 <= i < self.spec_num_slots() && spec_wide_slot(#[trigger] self.spec_slots()[i])
                ==> (i + 1 < self.spec_num_slots() && self.spec_slots()[i + 1] is Continuation)
    }

    /// Whether 1-based pool index `i` addresses an entry: it is neither 0,
    /// nor past the table, nor the reserved second slot of a double-width
    /// entry.
    pub open spec fn spec_index_ok(&self, i: int) -> bool {
        1 <= i <= self.spec_num_slots() && self.spec_slots()[i - 1] is Entry
    }

    /// The entry at 1-based pool index `i`.
    pub open spec fn spec_entry_at(&self, i: int) -> PoolEntry
        recommends
            self.spec_index_ok(i),
    {
        self.spec_slots()[i - 1]->Entry_0
    }

    /// An empty pool.
    pub fn new() -> (p: ConstantPool)
        ensures
            p.wf(),
            p.spec_slots() == Seq::<Slot>::empty(),
    {
        let p = ConstantPool { slots: Vec::new() };
        proof {
            assert(p.spec_slots() =~= Seq::<Slot>::empty());
        }
        p
    }

    /// Appends one entry at the next free index; a Long or Double entry
    /// also claims the following slot as its continuation.
    ///
    /// The slot cap keeps every slot addressable by a 1-based `u16` index.
    pub fn push_entry(&mut self, entry: PoolEntry)
        requires
            old(self).wf(),
            old(self).spec_num_slots() + 2 <= u16::MAX,
        ensures
            final(self).wf(),
            !spec_wide_tag(entry.spec_tag()) ==> final(self).spec_slots() == old(
                self,
            ).spec_slots().push(Slot::Entry(entry)),
            spec_wide_tag(entry.spec_tag()) ==> final(self).spec_slots() == old(
                self,
            ).spec_slots().push(Slot::Entry(entry)).push(Slot::Continuation),
    {
        let tag = entry.tag();
        let wide = matches!(tag, Tag::Long | Tag::Double);
        self.slots.push(Slot::Entry(entry));
        if wide {
            self.slots.push(Slot::Continuation);
        }
    }

    /// How many slots the table occupies, continuation slots included.
    pub fn num_slots(&self) -> (n: usize)
        ensures
            n == self.spec_num_slots(),
    {
        self.slots.len()
    }

    /// Dereferences 1-based pool index `index`, expecting an entry of kind
    /// `expected`.
    ///
    /// Fails with `InvalidConstantPoolIndex` exactly when the index is 0,
    /// out of range, or the reserved second slot of a double-width entry;
    /// fails with `ConstantPoolTagMismatch` exactly when the slot holds an
    /// entry of a different kind.
    pub fn entry_with_tag(&self, index: u16, expected: Tag) -> (r: Result<&PoolEntry, LoadError>)
        ensures
            match r {
                Ok(e) => self.spec_index_ok(index as int) && *e == self.spec_entry_at(index as int)
                    && e.spec_tag() == expected,
                Err(err) => {
                    &&& (err == LoadError::InvalidConstantPoolIndex || err
                        == LoadError::ConstantPoolTagMismatch)
                    &&& (err == LoadError::InvalidConstantPoolIndex <==> !self.spec_index_ok(
                        index as int,
                    ))
                    &&& (err == LoadError::ConstantPoolTagMismatch <==> self.spec_index_ok(
                        index as int,
                    ) && self.spec_entry_at(index as int).spec_tag() != expected)
                },
            },
    {
        if index == 0 || index as usize > self.slots.len() {
            return Err(LoadError::InvalidConstantPoolIndex);
        }
        match &self.slots[index as usize - 1] {
            Slot::Continuation => Err(LoadError::InvalidConstantPoolIndex),
            Slot::Entry(e) => {
                if e.tag() == expected {
                    Ok(e)
                } else {
                    Err(LoadError::ConstantPoolTagMismatch)
                }
            },
        }
    }

    /// Dereferences 1-based pool index `index` as a Utf8 entry and hands
    /// out its raw bytes, with the same failure contract as
    /// [`ConstantPool::entry_with_tag`].
    pub fn utf8_at(&self, index: u16) -> (r: Result<&Utf8Data, LoadError>)
        ensures
            match r {
                Ok(u) => self.spec_index_ok(index as int) && self.spec_entry_at(
                    index as int,
                ).data == Data::Utf8(*u),
                Err(err) => {
                    &&& (err == LoadError::InvalidConstantPoolIndex || err
                        == LoadError::ConstantPoolTagMismatch)
                    &&& (err == LoadError::InvalidConstantPoolIndex <==> !self.spec_index_ok(
                        index as int,
                    ))
                    &&& (err == LoadError::ConstantPoolTagMismatch <==> self.spec_index_ok(
                        index as int,
                    ) && self.spec_entry_at(index as int).spec_tag() != Tag::Utf8)
                },
            },
    {
        let entry = match self.entry_with_tag(index, Tag::Utf8) {
            Ok(e) => e,
            Err(err) => {
                return Err(err);
            },
        };
        match &entry.data {
            Data::Utf8(u) => Ok(u),
            _ => vstd::pervasive::unreached(),
        }
    }
}

/// Law: pool index 0 never addresses an entry, whatever the pool holds.
pub proof fn lemma_index_zero_invalid(p: &ConstantPool)
    ensures
        !p.spec_index_ok(0),
{
}

/// Law: in a well-formed pool, the synthetic second slot following a Long
/// or Double entry never addresses an entry, so dereferencing it fails with
/// `InvalidConstantPoolIndex`.
pub proof fn lemma_wide_second_slot_invalid(p: &ConstantPool, i: int)
    requires
        p.wf(),
        p.spec_index_ok(i),
        spec_wide_tag(p.spec_entry_at(i).spec_tag()),
    ensures
        i + 1 <= p.spec_num_slots(),
        !p.spec_index_ok(i + 1),
{
    assert(spec_wide_slot(p.spec_slots()[i - 1]));
}

} // verus!
