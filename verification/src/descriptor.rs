//! The field-descriptor grammar: a primitive single letter, a class-type
//! reference (`L`, the class name, `;`), or either of those behind a run
//! of `[` array prefixes, up to 255 dimensions.

use vstd::prelude::*;

use crate::error::LoadError;

verus! {

/// The descriptor letter `B` (byte).
pub const CH_B: u8 = 66;

/// The descriptor letter `C` (char).
pub const CH_C: u8 = 67;

/// The descriptor letter `D` (double).
pub const CH_D: u8 = 68;

/// The descriptor letter `F` (float).
pub const CH_F: u8 = 70;

/// The descriptor letter `I` (int).
pub const CH_I: u8 = 73;

/// The descriptor letter `J` (long).
pub const CH_J: u8 = 74;

/// The descriptor letter `S` (short).
pub const CH_S: u8 = 83;

/// The descriptor letter `Z` (boolean).
pub const CH_Z: u8 = 90;

/// The byte `L` that opens a class-type reference.
pub const CH_L: u8 = 76;

/// The byte `;` that closes a class-type reference.
pub const CH_SEMI: u8 = 59;

/// The byte `[` that prefixes an array dimension.
pub const CH_BRACKET: u8 = 91;

/// A primitive field type, one per base-type letter of the grammar.
#[derive(Copy, Clone, Debug, PartialEq, Eq, Structural)]
pub enum BaseType {
    Byte,
    Char,
    Double,
    Float,
    Int,
    Long,
    Short,
    Boolean,
}

/// The letter that encodes a primitive type in a descriptor.
pub open spec fn spec_base_type_byte(b: BaseType) -> u8 {
    match b {
        BaseType::Byte => CH_B,
        BaseType::Char => CH_C,
        BaseType::Double => CH_D,
        BaseType::Float => CH_F,
        BaseType::Int => CH_I,
        BaseType::Long => CH_J,
        BaseType::Short => CH_S,
        BaseType::Boolean => CH_Z,
    }
}

/// The primitive type a descriptor letter decodes to, or `None` for any
/// other byte.
pub open spec fn spec_base_type_of_byte(b: u8) -> Option<BaseType> {
    if b == CH_B {
        Some(BaseType::Byte)
    } else if b == CH_C {
        Some(BaseType::Char)
    } else if b == CH_D {
        Some(BaseType::Double)
    } else if b == CH_F {
        Some(BaseType::Float)
    } else if b == CH_I {
        Some(BaseType::Int)
    } else if b == CH_J {
        Some(BaseType::Long)
    } else if b == CH_S {
        Some(BaseType::Short)
    } else if b == CH_Z {
        Some(BaseType::Boolean)
    } else {
        None
    }
}

/// A descriptor without an array prefix: a primitive type or a class-type
/// reference holding the class name's raw bytes.
#[derive(Clone, Debug, PartialEq, Eq)]
pub enum ScalarDescriptor {
    Base(BaseType),
    Object(Vec<u8>),
}

/// A parsed field descriptor: a scalar, or a scalar behind one or more
/// array dimensions.
#[derive(Clone, Debug, PartialEq, Eq)]
pub enum FieldDescriptor {
    Scalar(ScalarDescriptor),
    Array { dimensions: u8, element: ScalarDescriptor },
}

/// A well-formed class name inside a descriptor: non-empty and free of the
/// terminating `;`.
pub open spec fn spec_class_name(s: Seq<u8>) -> bool {
    s.len() >= 1 && forall|i: int| 0 <= i < s.len() ==> s[i] != CH_SEMI
}

/// Whether `s` is a single base-type letter.
pub open spec fn spec_base_descriptor(s: Seq<u8>) -> bool {
    s.len() == 1 && spec_base_type_of_byte(s[0]) is Some
}

/// Whether `s` is a class-type reference `L` name `;`.
pub open spec fn spec_object_descriptor(s: Seq<u8>) -> bool {
    s.len() >= 3 && s[0] == CH_L && s[s.len() - 1] == CH_SEMI && spec_class_name(
        s.subrange(1, s.len() - 1),
    )
}

/// Whether `s` is a descriptor without an array prefix.
pub open spec fn spec_scalar_descriptor(s: Seq<u8>) -> bool {
    spec_base_descriptor(s) || spec_object_descriptor(s)
}

/// How many `[` bytes `s` starts with.
pub open spec fn spec_bracket_prefix(s: Seq<u8>) -> int
    decreases s.len(),
{
    if s.len() == 0 || s[0] != CH_BRACKET {
        0
    } else {
        1 + spec_bracket_prefix(s.subrange(1, s.len() as int))
    }
}

/// Whether `s` matches the field-descriptor grammar: at most 255 array
/// dimensions followed by a scalar descriptor that consumes the rest.
pub open spec fn spec_field_descriptor(s: Seq<u8>) -> bool {
    spec_bracket_prefix(s) <= 255 && spec_scalar_descriptor(
        s.skip(spec_bracket_prefix(s)),
    )
}

/// Whether the parsed scalar `d` is the reading of exactly the bytes `s`.
pub open spec fn spec_scalar_matches(d: ScalarDescriptor, s: Seq<u8>) -> bool {
    match d {
        ScalarDescriptor::Base(b) => s.len() == 1 && s[0] == spec_base_type_byte(b),
        ScalarDescriptor::Object(name) => s == seq![CH_L] + name@ + seq![CH_SEMI] && spec_class_name(
            name@,
        ),
    }
}

/// Whether the parsed descriptor `d` is the reading of exactly the bytes
/// `s`.
pub open spec fn spec_descriptor_matches(d: FieldDescriptor, s: Seq<u8>) -> bool {
    match d {
        FieldDescriptor::Scalar(sc) => spec_scalar_matches(sc, s),
        FieldDescriptor::Array { dimensions, element } => {
            &&& dimensions >= 1
            &&& dimensions <= s.len()
            &&& forall|i: int| 0 <= i < dimensions ==> s[i] == CH_BRACKET
            &&& spec_scalar_matches(element, s.skip(dimensions as int))
        },
    }
}

/// Equality of parsed scalars up to the contents of the class-name bytes.
pub open spec fn spec_scalar_equiv(a: ScalarDescriptor, b: ScalarDescriptor) -> bool {
    match (a, b) {
        (ScalarDescriptor::Base(x), ScalarDescriptor::Base(y)) => x == y,
        (ScalarDescriptor::Object(x), ScalarDescriptor::Object(y)) => x@ == y@,
        _ => false,
    }
}

/// Equality of parsed descriptors up to the contents of the class-name
/// bytes.
pub open spec fn spec_descriptor_equiv(a: FieldDescriptor, b: FieldDescriptor) -> bool {
    match (a, b) {
        (FieldDescriptor::Scalar(x), FieldDescriptor::Scalar(y)) => spec_scalar_equiv(x, y),
        (
            FieldDescriptor::Array { dimensions: da, element: ea },
            FieldDescriptor::Array { dimensions: db, element: eb },
        ) => da == db && spec_scalar_equiv(ea, eb),
        _ => false,
    }
}

/// A scalar descriptor never begins with an array prefix.
proof fn lemma_scalar_first_byte(d: ScalarDescriptor, s: Seq<u8>)
    requires
        spec_scalar_matches(d, s),
    ensures
        s.len() >= 1,
        s[0] != CH_BRACKET,
{
    match d {
        ScalarDescriptor::Base(b) => {},
        ScalarDescriptor::Object(name) => {
            assert(s[0] == CH_L);
        },
    }
}

/// Law: a byte sequence is the reading of at most one parsed descriptor,
/// so two descriptors parsed from the same bytes are equal.
pub proof fn lemma_descriptor_unique(d1: FieldDescriptor, d2: FieldDescriptor, s: Seq<u8>)
    requires
        spec_descriptor_matches(d1, s),
        spec_descriptor_matches(d2, s),
    ensures
        spec_descriptor_equiv(d1, d2),
{
    lemma_descriptor_dims(d1, s);
    lemma_descriptor_dims(d2, s);
    let s1 = match d1 {
        FieldDescriptor::Scalar(sc) => sc,
        FieldDescriptor::Array { element, .. } => element,
    };
    let s2 = match d2 {
        FieldDescriptor::Scalar(sc) => sc,
        FieldDescriptor::Array { element, .. } => element,
    };
    lemma_scalar_unique(s1, s2, s.skip(spec_bracket_prefix(s)));
}

/// The number of array dimensions a descriptor reads off `s` is forced by
/// `s` alone: it is the length of the leading run of `[` bytes.
proof fn lemma_descriptor_dims(d: FieldDescriptor, s: Seq<u8>)
    requires
        spec_descriptor_matches(d, s),
    ensures
        match d {
            FieldDescriptor::Scalar(sc) => spec_bracket_prefix(s) == 0 && spec_scalar_matches(
                sc,
                s.skip(spec_bracket_prefix(s)),
            ),
            FieldDescriptor::Array { dimensions, element } => spec_bracket_prefix(s)
                == dimensions as int && spec_scalar_matches(
                element,
                s.skip(spec_bracket_prefix(s)),
            ),
        },
{
    match d {
        FieldDescriptor::Scalar(sc) => {
            lemma_scalar_first_byte(sc, s);
            lemma_bracket_prefix_exact(s, 0);
            assert(s.skip(0) =~= s);
        },
        FieldDescriptor::Array { dimensions, element } => {
            lemma_scalar_first_byte(element, s.skip(dimensions as int));
            assert(s[dimensions as int] == s.skip(dimensions as int)[0]);
            lemma_bracket_prefix_exact(s, dimensions as int);
        },
    }
}

/// Two scalar readings of the same bytes are equal.
proof fn lemma_scalar_unique(a: ScalarDescriptor, b: ScalarDescriptor, s: Seq<u8>)
    requires
        spec_scalar_matches(a, s),
        spec_scalar_matches(b, s),
    ensures
        spec_scalar_equiv(a, b),
{
    match (a, b) {
        (ScalarDescriptor::Object(x), ScalarDescriptor::Object(y)) => {
            assert(x@ =~= y@) by {
                assert(s == seq![CH_L] + x@ + seq![CH_SEMI]);
                assert(s == seq![CH_L] + y@ + seq![CH_SEMI]);
                assert(x@.len() == s.len() - 2);
                assert(y@.len() == s.len() - 2);
                assert(forall|i: int| 0 <= i < x@.len() ==> x@[i] == s[i + 1] && y@[i] == s[i + 1]);
            }
        },
        (ScalarDescriptor::Base(x), ScalarDescriptor::Object(y)) => {
            assert(s[0] == CH_L);
        },
        (ScalarDescriptor::Object(x), ScalarDescriptor::Base(y)) => {
            assert(s[0] == CH_L);
        },
        (ScalarDescriptor::Base(x), ScalarDescriptor::Base(y)) => {},
    }
}

/// If the first `k` bytes are `[` and byte `k` (if any) is not, the leading
/// bracket run has length exactly `k`.
proof fn lemma_bracket_prefix_exact(s: Seq<u8>, k: int)
    requires
        0 <= k <= s.len(),
        forall|i: int| 0 <= i < k ==> s[i] == CH_BRACKET,
        k == s.len() || s[k] != CH_BRACKET,
    ensures
        spec_bracket_prefix(s) == k,
    decreases k,
{
    if k == 0 {
    } else {
        let t = s.subrange(1, s.len() as int);
        assert(forall|i: int| 0 <= i < k - 1 ==> t[i] == s[i + 1] && s[i + 1] == CH_BRACKET);
        assert(k - 1 == t.len() || t[k - 1] != CH_BRACKET);
        lemma_bracket_prefix_exact(t, k - 1);
    }
}

/// The leading bracket run is never of negative length.
proof fn lemma_bracket_prefix_nonneg(s: Seq<u8>)
    ensures
        spec_bracket_prefix(s) >= 0,
    decreases s.len(),
{
    if s.len() == 0 || s[0] != CH_BRACKET {
    } else {
        lemma_bracket_prefix_nonneg(s.subrange(1, s.len() as int));
    }
}

/// If the first `k` bytes are all `[`, the leading bracket run has length
/// at least `k`.
proof fn lemma_bracket_prefix_at_least(s: Seq<u8>, k: int)
    requires
        0 <= k <= s.len(),
        forall|i: int| 0 <= i < k ==> s[i] == CH_BRACKET,
    ensures
        spec_bracket_prefix(s) >= k,
    decreases k,
{
    if k == 0 {
        lemma_bracket_prefix_nonneg(s);
    } else {
        assert(s[0] == CH_BRACKET);
        let t = s.subrange(1, s.len() as int);
        assert(spec_bracket_prefix(s) == 1 + spec_bracket_prefix(t));
        assert(forall|i: int| 0 <= i < k - 1 ==> t[i] == s[i + 1] && s[i + 1] == CH_BRACKET);
        lemma_bracket_prefix_at_least(t, k - 1);
    }
}

/// A scalar reading of `s` shows that `s` is in the scalar part of the
/// grammar.
proof fn lemma_scalar_matches_descriptor(d: ScalarDescriptor, s: Seq<u8>)
    requires
        spec_scalar_matches(d, s),
    ensures
        spec_scalar_descriptor(s),
{
    match d {
        ScalarDescriptor::Base(b) => {},
        ScalarDescriptor::Object(name) => {
            assert(s.subrange(1, s.len() - 1) =~= name@);
        },
    }
}

/// Parses field-descriptor bytes, consuming them completely.
///
/// Returns the parsed descriptor exactly when the bytes match the grammar,
/// and fails with `MalformedDescriptor` on every other input.
pub fn parse_field_descriptor(bytes: &Vec<u8>) -> (r: Result<FieldDescriptor, LoadError>)
    ensures
        match r {
            Ok(d) => spec_field_descriptor(bytes@) && spec_descriptor_matches(d, bytes@),
            Err(e) => e == LoadError::MalformedDescriptor && !spec_field_descriptor(bytes@),
        },
{
    let n: usize = bytes.len();
    let mut dims: usize = 0;
    while dims < n && bytes[dims] == CH_BRACKET
        invariant
            0 <= dims <= n,
            n == bytes@.len(),
            dims <= 255,
            forall|i: int| 0 <= i < dims ==> bytes@[i] == CH_BRACKET,
        decreases n - dims,
    {
        if dims == 255 {
            proof {
                lemma_bracket_prefix_at_least(bytes@, 256);
            }
            return Err(LoadError::MalformedDescriptor);
        }
        dims = dims + 1;
    }
    proof {
        lemma_bracket_prefix_exact(bytes@, dims as int);
    }
    let ghost rest = bytes@.skip(dims as int);
    if dims >= n {
        // Nothing follows the array prefix.
        return Err(LoadError::MalformedDescriptor);
    }
    let c: u8 = bytes[dims];
    proof {
        assert(rest[0] == c);
    }
    let scalar: ScalarDescriptor = if c == CH_L {
        // A class-type reference: scan the name up to the terminating ';'.
        if n - dims < 3 || bytes[n - 1] != CH_SEMI {
            proof {
                assert(rest[rest.len() - 1] == bytes@[n - 1]);
            }
            return Err(LoadError::MalformedDescriptor);
        }
        let mut name: Vec<u8> = Vec::new();
        let mut j: usize = dims + 1;
        while j < n - 1
            invariant
                dims + 1 <= j <= n - 1,
                n == bytes@.len(),
                spec_bracket_prefix(bytes@) == dims as int,
                bytes@[dims as int] == CH_L,
                name@ == bytes@.subrange(dims + 1, j as int),
                forall|i: int| dims + 1 <= i < j ==> bytes@[i] != CH_SEMI,
            decreases n - 1 - j,
        {
            let b: u8 = bytes[j];
            if b == CH_SEMI {
                // An early terminator: no scalar reading consumes the rest.
                proof {
                    assert(bytes@[dims as int] == CH_L);
                    lemma_early_terminator_malformed(bytes@, dims as int, j as int);
                }
                return Err(LoadError::MalformedDescriptor);
            }
            name.push(b);
            proof {
                assert(name@ =~= bytes@.subrange(dims + 1, j + 1));
            }
            j = j + 1;
        }
        proof {
            assert(rest =~= seq![CH_L] + name@ + seq![CH_SEMI]);
            assert(spec_class_name(name@));
            assert(spec_scalar_matches(ScalarDescriptor::Object(name), rest));
        }
        ScalarDescriptor::Object(name)
    } else {
        // A single base-type letter must consume the rest of the input.
        let base = if c == CH_B {
            BaseType::Byte
        } else if c == CH_C {
            BaseType::Char
        } else if c == CH_D {
            BaseType::Double
        } else if c == CH_F {
            BaseType::Float
        } else if c == CH_I {
            BaseType::Int
        } else if c == CH_J {
            BaseType::Long
        } else if c == CH_S {
            BaseType::Short
        } else if c == CH_Z {
            BaseType::Boolean
        } else {
            proof {
                assert(!spec_scalar_descriptor(rest));
            }
            return Err(LoadError::MalformedDescriptor);
        };
        if dims + 1 != n {
            proof {
                assert(rest.len() >= 2);
                assert(!spec_scalar_descriptor(rest));
            }
            return Err(LoadError::MalformedDescriptor);
        }
        proof {
            assert(spec_scalar_matches(ScalarDescriptor::Base(base), rest));
        }
        ScalarDescriptor::Base(base)
    };
    proof {
        lemma_scalar_matches_descriptor(scalar, rest);
        assert(bytes@.skip(0) =~= bytes@);
    }
    if dims == 0 {
        Ok(FieldDescriptor::Scalar(scalar))
    } else {
        Ok(FieldDescriptor::Array { dimensions: dims as u8, element: scalar })
    }
}

/// A `;` strictly inside the would-be class name rules the whole input out:
/// no scalar reading of the remainder exists.
proof fn lemma_early_terminator_malformed(s: Seq<u8>, d: int, j: int)
    requires
        0 <= d < s.len(),
        s[d] == CH_L,
        d + 1 <= j < s.len() - 1,
        s[j] == CH_SEMI,
    ensures
        !spec_scalar_descriptor(s.skip(d)),
{
    let rest = s.skip(d);
    assert(rest[0] == CH_L);
    if spec_object_descriptor(rest) {
        let name = rest.subrange(1, rest.len() - 1);
        assert(name[j - d - 1] == s[j]);
    }
}

} // verus!
