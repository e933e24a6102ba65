//! Field access flags, raw field records, the resolution of a raw record
//! against a constant pool, and the per-class container of resolved fields.

use std::sync::Arc;

use vstd::prelude::*;

use crate::constant_pool::{ConstantPool, Data, Tag, Utf8Data};
use crate::descriptor::lemma_descriptor_unique;
use crate::descriptor::parse_field_descriptor;
use crate::descriptor::spec_descriptor_equiv;
use crate::descriptor::spec_descriptor_matches;
use crate::descriptor::spec_field_descriptor;
use crate::descriptor::FieldDescriptor;
use crate::error::LoadError;

verus! {

/// The field is declared public.
pub const ACC_PUBLIC: u16 = 0x0001;

/// The field is declared private.
pub const ACC_PRIVATE: u16 = 0x0002;

/// The field is declared protected.
pub const ACC_PROTECTED: u16 = 0x0004;

/// The field is declared static.
pub const ACC_STATIC: u16 = 0x0008;

/// The field is declared final.
pub const ACC_FINAL: u16 = 0x0010;

/// The field is declared volatile.
pub const ACC_VOLATILE: u16 = 0x0040;

/// The field is declared transient.
pub const ACC_TRANSIENT: u16 = 0x0080;

/// The field was generated by a compiler.
pub const ACC_SYNTHETIC: u16 = 0x1000;

/// The field holds an element of an enum type.
pub const ACC_ENUM: u16 = 0x4000;

/// Every flag bit the format defines for fields; unassigned bits are
/// masked away on resolution.
pub const FIELD_FLAGS_MASK: u16 = ACC_PUBLIC | ACC_PRIVATE | ACC_PROTECTED | ACC_STATIC
    | ACC_FINAL | ACC_VOLATILE | ACC_TRANSIENT | ACC_SYNTHETIC | ACC_ENUM;

/// The context-free legality of a field's raw flag bits: final and volatile
/// exclude each other, and at most one visibility flag may be set.
pub open spec fn spec_legal_field_flags(raw: u16) -> bool {
    &&& !(raw & ACC_FINAL != 0 && raw & ACC_VOLATILE != 0)
    &&& !(raw & ACC_PUBLIC != 0 && raw & ACC_PRIVATE != 0)
    &&& !(raw & ACC_PUBLIC != 0 && raw & ACC_PROTECTED != 0)
    &&& !(raw & ACC_PRIVATE != 0 && raw & ACC_PROTECTED != 0)
}

/// A field's validated access-flag bit set.
#[derive(Copy, Clone, Debug, PartialEq, Eq, Structural)]
pub struct FieldAccessFlags {
    pub bits: u16,
}

impl FieldAccessFlags {
    /// Validates raw flag bits: masks them against the defined flag set and
    /// rejects contradictory combinations with `IllegalAccessFlags`.
    pub fn from_raw(raw: u16) -> (r: Result<FieldAccessFlags, LoadError>)
        ensures
            match r {
                Ok(f) => spec_legal_field_flags(raw) && f.bits == raw & FIELD_FLAGS_MASK,
                Err(e) => e == LoadError::IllegalAccessFlags && !spec_legal_field_flags(raw),
            },
    {
        let final_and_volatile = raw & ACC_FINAL != 0 && raw & ACC_VOLATILE != 0;
        let public_and_private = raw & ACC_PUBLIC != 0 && raw & ACC_PRIVATE != 0;
        let public_and_protected = raw & ACC_PUBLIC != 0 && raw & ACC_PROTECTED != 0;
        let private_and_protected = raw & ACC_PRIVATE != 0 && raw & ACC_PROTECTED != 0;
        if final_and_volatile || public_and_private || public_and_protected
            || private_and_protected {
            Err(LoadError::IllegalAccessFlags)
        } else {
            Ok(FieldAccessFlags { bits: raw & FIELD_FLAGS_MASK })
        }
    }

    /// Whether the static flag is set.
    pub fn is_static(&self) -> (r: bool)
        ensures
            r == (self.bits & ACC_STATIC != 0),
    {
        self.bits & ACC_STATIC != 0
    }

    /// Whether the final flag is set.
    pub fn is_final(&self) -> (r: bool)
        ensures
            r == (self.bits & ACC_FINAL != 0),
    {
        self.bits & ACC_FINAL != 0
    }

    /// Whether the volatile flag is set.
    pub fn is_volatile(&self) -> (r: bool)
        ensures
            r == (self.bits & ACC_VOLATILE != 0),
    {
        self.bits & ACC_VOLATILE != 0
    }
}

/// One raw attribute record, carried through resolution opaquely: this core
/// does not interpret attribute semantics.
#[derive(Clone, Debug, PartialEq, Eq)]
pub struct AttributeEntry {
    pub name_index: u16,
    pub info: Vec<u8>,
}

/// The ordered attribute list of one field, opaque to this core.
#[derive(Clone, Debug, PartialEq, Eq)]
pub struct Attributes {
    pub entries: Vec<AttributeEntry>,
}

impl View for Attributes {
    type V = Seq<(u16, Seq<u8>)>;

    open spec fn view(&self) -> Seq<(u16, Seq<u8>)> {
        self.entries@.map_values(|e: AttributeEntry| (e.name_index, e.info@))
    }
}

/// A field record as read off the class file: flag bits, 1-based pool
/// indices for name and descriptor, and the raw attribute list.
#[derive(Clone, Debug, PartialEq, Eq)]
pub struct RawFieldRecord {
    pub access_flags: u16,
    pub name_index: u16,
    pub descriptor_index: u16,
    pub attributes: Attributes,
}

/// A resolved field declaration: validated flags, the dereferenced name
/// (shared, immutable), the parsed descriptor, and the attributes passed
/// through unchanged.
#[derive(Clone, Debug, PartialEq, Eq)]
pub struct FieldEntry {
    pub access_flags: FieldAccessFlags,
    pub name: Arc<Utf8Data>,
    pub descriptor: FieldDescriptor,
    pub attributes: Attributes,
}

/// The Utf8 payload at 1-based pool index `i`; meaningful only when the
/// entry there is a Utf8 entry.
pub open spec fn spec_utf8_at(pool: ConstantPool, i: int) -> Utf8Data
    recommends
        pool.spec_index_ok(i),
        pool.spec_entry_at(i).spec_tag() == Tag::Utf8,
{
    pool.spec_entry_at(i).data->Utf8_0
}

/// What a resolved entry holds, given the record and pool it came from:
/// the masked flag bits, the name bytes of the name entry, a descriptor
/// that reads exactly the descriptor entry's bytes, and the record's
/// attributes unchanged.
pub open spec fn spec_resolved_entry(
    record: RawFieldRecord,
    pool: ConstantPool,
    e: FieldEntry,
) -> bool {
    &&& e.access_flags.bits == record.access_flags & FIELD_FLAGS_MASK
    &&& e.name.length == spec_utf8_at(pool, record.name_index as int).length
    &&& e.name.bytes@ == spec_utf8_at(pool, record.name_index as int).bytes@
    &&& spec_descriptor_matches(
        e.descriptor,
        spec_utf8_at(pool, record.descriptor_index as int).bytes@,
    )
    &&& e.attributes@ == record.attributes@
}

/// The full contract of field resolution: which error each bad input is
/// rejected with, in check order (flags, then name, then descriptor), and
/// what the entry holds on success.
pub open spec fn spec_resolve_rel(
    record: RawFieldRecord,
    pool: ConstantPool,
    r: Result<FieldEntry, LoadError>,
) -> bool {
    if !spec_legal_field_flags(record.access_flags) {
        r matches Err(e) && e == LoadError::IllegalAccessFlags
    } else if !pool.spec_index_ok(record.name_index as int) {
        r matches Err(e) && e == LoadError::InvalidConstantPoolIndex
    } else if pool.spec_entry_at(record.name_index as int).spec_tag() != Tag::Utf8 {
        r matches Err(e) && e == LoadError::ConstantPoolTagMismatch
    } else if !pool.spec_index_ok(record.descriptor_index as int) {
        r matches Err(e) && e == LoadError::InvalidConstantPoolIndex
    } else if pool.spec_entry_at(record.descriptor_index as int).spec_tag() != Tag::Utf8 {
        r matches Err(e) && e == LoadError::ConstantPoolTagMismatch
    } else if !spec_field_descriptor(spec_utf8_at(pool, record.descriptor_index as int).bytes@) {
        r matches Err(e) && e == LoadError::MalformedDescriptor
    } else {
        r matches Ok(e) && spec_resolved_entry(record, pool, e)
    }
}

/// Copies a byte vector element by element.
fn clone_bytes(v: &Vec<u8>) -> (r: Vec<u8>)
    ensures
        r@ == v@,
{
    let mut r: Vec<u8> = Vec::new();
    let mut i: usize = 0;
    while i < v.len()
        invariant
            i <= v@.len(),
            r@ == v@.subrange(0, i as int),
        decreases v@.len() - i,
    {
        r.push(v[i]);
        proof {
            assert(r@ =~= v@.subrange(0, i + 1));
        }
        i = i + 1;
    }
    proof {
        assert(r@ =~= v@);
    }
    r
}

/// Copies an attribute list record by record, preserving order.
fn clone_attributes(a: &Attributes) -> (r: Attributes)
    ensures
        r@ == a@,
{
    let mut entries: Vec<AttributeEntry> = Vec::new();
    let mut i: usize = 0;
    while i < a.entries.len()
        invariant
            i <= a.entries@.len(),
            entries@.len() == i,
            forall|k: int|
                0 <= k < i ==> (#[trigger] entries@[k]).name_index == a.entries@[k].name_index
                    && entries@[k].info@ == a.entries@[k].info@,
        decreases a.entries@.len() - i,
    {
        let name_index = a.entries[i].name_index;
        let info = clone_bytes(&a.entries[i].info);
        entries.push(AttributeEntry { name_index, info });
        i = i + 1;
    }
    let r = Attributes { entries };
    proof {
        assert(r@ =~= a@);
    }
    r
}

/// Resolves one raw field record against an already-built constant pool.
///
/// Validates the flag bits, dereferences the name index as a Utf8 entry,
/// parses the descriptor entry's bytes against the field-descriptor
/// grammar, and passes the attributes through; each failure aborts the
/// field with the error [`spec_resolve_rel`] assigns to it.
pub fn resolve_field(record: &RawFieldRecord, pool: &ConstantPool) -> (r: Result<
    FieldEntry,
    LoadError,
>)
    ensures
        spec_resolve_rel(*record, *pool, r),
{
    let access_flags = match FieldAccessFlags::from_raw(record.access_flags) {
        Ok(f) => f,
        Err(e) => {
            return Err(e);
        },
    };
    let name_data = match pool.utf8_at(record.name_index) {
        Ok(u) => u,
        Err(e) => {
            return Err(e);
        },
    };
    let desc_data = match pool.utf8_at(record.descriptor_index) {
        Ok(u) => u,
        Err(e) => {
            return Err(e);
        },
    };
    let descriptor = match parse_field_descriptor(&desc_data.bytes) {
        Ok(d) => d,
        Err(e) => {
            return Err(e);
        },
    };
    let name = Arc::new(Utf8Data { length: name_data.length, bytes: clone_bytes(&name_data.bytes) });
    let attributes = clone_attributes(&record.attributes);
    Ok(FieldEntry { access_flags, name, descriptor, attributes })
}

/// Whether a record resolves at all against a pool: its flags are legal,
/// its name and descriptor indices dereference to Utf8 entries, and the
/// descriptor bytes match the grammar.
pub open spec fn spec_resolvable(record: RawFieldRecord, pool: ConstantPool) -> bool {
    &&& spec_legal_field_flags(record.access_flags)
    &&& pool.spec_index_ok(record.name_index as int)
    &&& pool.spec_entry_at(record.name_index as int).spec_tag() == Tag::Utf8
    &&& pool.spec_index_ok(record.descriptor_index as int)
    &&& pool.spec_entry_at(record.descriptor_index as int).spec_tag() == Tag::Utf8
    &&& spec_field_descriptor(spec_utf8_at(pool, record.descriptor_index as int).bytes@)
}

/// Law: resolution succeeds exactly on the resolvable records.
pub proof fn lemma_resolve_succeeds_iff_resolvable(
    record: RawFieldRecord,
    pool: ConstantPool,
    r: Result<FieldEntry, LoadError>,
)
    requires
        spec_resolve_rel(record, pool, r),
    ensures
        r is Ok <==> spec_resolvable(record, pool),
{
}

/// Resolves a class's raw field records in declaration order.
///
/// There is no partial result: the first record that fails aborts the
/// whole class with that record's error, after every record before it
/// resolved.
pub fn resolve_fields(records: &Vec<RawFieldRecord>, pool: &ConstantPool) -> (r: Result<
    Vec<FieldEntry>,
    LoadError,
>)
    ensures
        match r {
            Ok(entries) => entries@.len() == records@.len() && forall|i: int|
                0 <= i < records@.len() ==> spec_resolve_rel(
                    records@[i],
                    *pool,
                    Ok(#[trigger] entries@[i]),
                ),
            Err(e) => exists|i: int|
                0 <= i < records@.len() && #[trigger] spec_resolve_rel(
                    records@[i],
                    *pool,
                    Err::<FieldEntry, LoadError>(e),
                ) && forall|j: int| 0 <= j < i ==> spec_resolvable(records@[j], *pool),
        },
{
    let mut entries: Vec<FieldEntry> = Vec::new();
    let mut i: usize = 0;
    while i < records.len()
        invariant
            i <= records@.len(),
            entries@.len() == i,
            forall|j: int|
                0 <= j < i ==> spec_resolve_rel(records@[j], *pool, Ok(#[trigger] entries@[j])),
        decreases records@.len() - i,
    {
        match resolve_field(&records[i], pool) {
            Ok(e) => {
                entries.push(e);
            },
            Err(e) => {
                proof {
                    assert forall|j: int| 0 <= j < i implies spec_resolvable(
                        records@[j],
                        *pool,
                    ) by {
                        lemma_resolve_succeeds_iff_resolvable(
                            records@[j],
                            *pool,
                            Ok(entries@[j]),
                        );
                    }
                    assert(spec_resolve_rel(records@[i as int], *pool, Err::<
                        FieldEntry,
                        LoadError,
                    >(e)));
                }
                return Err(e);
            },
        }
        i = i + 1;
    }
    Ok(entries)
}

/// Equality of resolved entries up to the contents of shared byte strings.
pub open spec fn spec_field_entry_equiv(a: FieldEntry, b: FieldEntry) -> bool {
    &&& a.access_flags == b.access_flags
    &&& a.name.length == b.name.length
    &&& a.name.bytes@ == b.name.bytes@
    &&& spec_descriptor_equiv(a.descriptor, b.descriptor)
    &&& a.attributes@ == b.attributes@
}

/// Equality of resolution outcomes: the same error, or structurally equal
/// entries.
pub open spec fn spec_resolution_equiv(
    r1: Result<FieldEntry, LoadError>,
    r2: Result<FieldEntry, LoadError>,
) -> bool {
    match (r1, r2) {
        (Ok(e1), Ok(e2)) => spec_field_entry_equiv(e1, e2),
        (Err(e1), Err(e2)) => e1 == e2,
        _ => false,
    }
}

/// Law: resolution is deterministic. Two resolutions of the same raw
/// record against the same pool either fail with the same error or
/// succeed with structurally equal entries.
pub proof fn lemma_resolution_deterministic(
    record: RawFieldRecord,
    pool: ConstantPool,
    r1: Result<FieldEntry, LoadError>,
    r2: Result<FieldEntry, LoadError>,
)
    requires
        spec_resolve_rel(record, pool, r1),
        spec_resolve_rel(record, pool, r2),
    ensures
        spec_resolution_equiv(r1, r2),
{
    match (r1, r2) {
        (Ok(e1), Ok(e2)) => {
            lemma_descriptor_unique(
                e1.descriptor,
                e2.descriptor,
                spec_utf8_at(pool, record.descriptor_index as int).bytes@,
            );
        },
        _ => {},
    }
}

/// The name-keyed association of static-field storage cells, read off the
/// table back to front so that the most recent binding for a name wins.
spec fn spec_assoc_map<V>(s: Seq<(Vec<u8>, V)>) -> Map<Seq<u8>, V>
    decreases s.len(),
{
    if s.len() == 0 {
        Map::empty()
    } else {
        spec_assoc_map(s.drop_last()).insert(s.last().0@, s.last().1)
    }
}

/// The association holds a name exactly when some row carries it.
proof fn lemma_assoc_map_contains<V>(s: Seq<(Vec<u8>, V)>, n: Seq<u8>)
    ensures
        spec_assoc_map(s).contains_key(n) <==> exists|i: int|
            0 <= i < s.len() && (#[trigger] s[i]).0@ == n,
    decreases s.len(),
{
    if s.len() == 0 {
    } else {
        lemma_assoc_map_contains(s.drop_last(), n);
        if s.last().0@ == n {
            assert(s[s.len() - 1].0@ == n);
        } else if spec_assoc_map(s).contains_key(n) {
            let i = choose|i: int| 0 <= i < s.drop_last().len() && (#[trigger] s.drop_last()[i]).0@
                == n;
            assert(s[i].0@ == n);
        } else {
            assert(forall|i: int|
                0 <= i < s.len() - 1 ==> (#[trigger] s[i]) == s.drop_last()[i]);
        }
    }
}

/// With no name carried twice, the association maps each carried name to
/// its row's cell.
proof fn lemma_assoc_map_value<V>(s: Seq<(Vec<u8>, V)>, n: Seq<u8>, i: int)
    requires
        forall|p: int, q: int|
            0 <= p < q < s.len() ==> (#[trigger] s[p]).0@ != (#[trigger] s[q]).0@,
        0 <= i < s.len(),
        s[i].0@ == n,
    ensures
        spec_assoc_map(s).contains_key(n),
        spec_assoc_map(s)[n] == s[i].1,
    decreases s.len(),
{
    if i == s.len() - 1 {
    } else {
        assert(s.last().0@ != n);
        assert(forall|p: int, q: int|
            0 <= p < q < s.drop_last().len() ==> (#[trigger] s.drop_last()[p]).0@ != (
            #[trigger] s.drop_last()[q]).0@);
        lemma_assoc_map_value(s.drop_last(), n, i);
    }
}

/// Compares two byte vectors by contents.
fn bytes_eq(a: &Vec<u8>, b: &Vec<u8>) -> (r: bool)
    ensures
        r == (a@ == b@),
{
    if a.len() != b.len() {
        return false;
    }
    let mut i: usize = 0;
    while i < a.len()
        invariant
            i <= a@.len(),
            a@.len() == b@.len(),
            forall|k: int| 0 <= k < i ==> a@[k] == b@[k],
        decreases a@.len() - i,
    {
        if a[i] != b[i] {
            return false;
        }
        i = i + 1;
    }
    proof {
        assert(a@ =~= b@);
    }
    true
}

/// A class's declared fields in declaration order, plus the name-keyed
/// table of static-storage cells of type `V` that the class-initialization
/// collaborator populates once per static field.
pub struct Fields<V> {
    /// The resolved entries, in the exact order the class declared them.
    pub entries: Vec<FieldEntry>,
    /// The static-storage rows; read them through [`Fields::get_static`]
    /// and grow them through [`Fields::insert_static`], which keep one row
    /// per name.
    pub statics: Vec<(Vec<u8>, V)>,
}

impl<V> Fields<V> {
    /// The static-storage table as a map from field-name bytes to cells.
    pub closed spec fn statics_map(&self) -> Map<Seq<u8>, V> {
        spec_assoc_map(self.statics@)
    }

    /// Well-formedness: no field name keys two storage cells.
    pub closed spec fn wf(&self) -> bool {
        forall|p: int, q: int|
            0 <= p < q < self.statics@.len() ==> (#[trigger] self.statics@[p]).0@ != (
            #[trigger] self.statics@[q]).0@
    }

    /// Builds the container for one class's resolved entries, preserving
    /// their declaration order exactly, with no static storage yet.
    pub fn new(entries: Vec<FieldEntry>) -> (f: Fields<V>)
        ensures
            f.wf(),
            f.entries == entries,
            f.statics_map() == Map::<Seq<u8>, V>::empty(),
    {
        let f = Fields { entries, statics: Vec::new() };
        proof {
            assert(f.statics@.len() == 0);
        }
        f
    }

    /// The row index carrying `name`, if any.
    fn static_index(&self, name: &Vec<u8>) -> (r: Option<usize>)
        ensures
            match r {
                Some(i) => i < self.statics@.len() && self.statics@[i as int].0@ == name@,
                None => forall|k: int|
                    0 <= k < self.statics@.len() ==> (#[trigger] self.statics@[k]).0@ != name@,
            },
    {
        let mut i: usize = 0;
        while i < self.statics.len()
            invariant
                i <= self.statics@.len(),
                forall|k: int| 0 <= k < i ==> (#[trigger] self.statics@[k]).0@ != name@,
            decreases self.statics@.len() - i,
        {
            if bytes_eq(&self.statics[i].0, name) {
                return Some(i);
            }
            i = i + 1;
        }
        None
    }

    /// Creates the storage cell for `name`, once: inserts it and reports
    /// true if the name was absent, and leaves the table unchanged and
    /// reports false if a cell for the name already exists.
    pub fn insert_static(&mut self, name: Vec<u8>, cell: V) -> (fresh: bool)
        requires
            old(self).wf(),
        ensures
            final(self).wf(),
            final(self).entries == old(self).entries,
            fresh == !old(self).statics_map().contains_key(name@),
            fresh ==> final(self).statics_map() == old(self).statics_map().insert(name@, cell),
            !fresh ==> final(self).statics_map() == old(self).statics_map(),
    {
        match self.static_index(&name) {
            Some(i) => {
                proof {
                    lemma_assoc_map_value(self.statics@, name@, i as int);
                }
                false
            },
            None => {
                proof {
                    lemma_assoc_map_contains(self.statics@, name@);
                }
                let ghost before = self.statics@;
                self.statics.push((name, cell));
                proof {
                    assert(self.statics@.drop_last() =~= before);
                }
                true
            },
        }
    }

    /// Looks up the storage cell for `name`; absence is reported as `None`
    /// for the caller to map to its own error kind.
    pub fn get_static(&self, name: &Vec<u8>) -> (r: Option<&V>)
        requires
            self.wf(),
        ensures
            match r {
                Some(c) => self.statics_map().contains_key(name@) && *c == self.statics_map()[
                    name@
                ],
                None => !self.statics_map().contains_key(name@),
            },
    {
        match self.static_index(name) {
            Some(i) => {
                proof {
                    lemma_assoc_map_value(self.statics@, name@, i as int);
                }
                Some(&self.statics[i].1)
            },
            None => {
                proof {
                    lemma_assoc_map_contains(self.statics@, name@);
                }
                None
            },
        }
    }
}

} // verus!
