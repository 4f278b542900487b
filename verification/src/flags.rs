//! The property bits that the kernel reports with each extent.

use vstd::prelude::*;

verus! {

/// Last extent in file.
pub const FIEMAP_EXTENT_LAST: u32 = 0x0000_0001;

/// Data location unknown.
pub const FIEMAP_EXTENT_UNKNOWN: u32 = 0x0000_0002;

/// Location still pending. Sets `FIEMAP_EXTENT_UNKNOWN`.
pub const FIEMAP_EXTENT_DELALLOC: u32 = 0x0000_0004;

/// Data can not be read while the file system is unmounted.
pub const FIEMAP_EXTENT_ENCODED: u32 = 0x0000_0008;

/// Data is encrypted by the file system.
pub const FIEMAP_EXTENT_DATA_ENCRYPTED: u32 = 0x0000_0080;

/// Extent offsets may not be block aligned.
pub const FIEMAP_EXTENT_NOT_ALIGNED: u32 = 0x0000_0100;

/// Data mixed with metadata. Sets `FIEMAP_EXTENT_NOT_ALIGNED`.
pub const FIEMAP_EXTENT_DATA_INLINE: u32 = 0x0000_0200;

/// Multiple files in block. Sets `FIEMAP_EXTENT_NOT_ALIGNED`.
pub const FIEMAP_EXTENT_DATA_TAIL: u32 = 0x0000_0400;

/// Space allocated, but no data (i.e. zero).
pub const FIEMAP_EXTENT_UNWRITTEN: u32 = 0x0000_0800;

/// File does not natively support extents. Result merged for efficiency.
pub const FIEMAP_EXTENT_MERGED: u32 = 0x0000_1000;

/// Space shared with other files.
pub const FIEMAP_EXTENT_SHARED: u32 = 0x0000_2000;

/// Every bit that has a name.
pub const FIEMAP_EXTENT_NAMED: u32 = 0x0000_3f8f;

/// Whether `bits` is the one bit of a named flag.
pub open spec fn is_named_bit(bits: u32) -> bool {
    ||| bits == FIEMAP_EXTENT_LAST
    ||| bits == FIEMAP_EXTENT_UNKNOWN
    ||| bits == FIEMAP_EXTENT_DELALLOC
    ||| bits == FIEMAP_EXTENT_ENCODED
    ||| bits == FIEMAP_EXTENT_DATA_ENCRYPTED
    ||| bits == FIEMAP_EXTENT_NOT_ALIGNED
    ||| bits == FIEMAP_EXTENT_DATA_INLINE
    ||| bits == FIEMAP_EXTENT_DATA_TAIL
    ||| bits == FIEMAP_EXTENT_UNWRITTEN
    ||| bits == FIEMAP_EXTENT_MERGED
    ||| bits == FIEMAP_EXTENT_SHARED
}

/// A set of extent property flags, held as the raw 32-bit word of the
/// kernel response. Bits without a name are kept as they came.
#[derive(Copy, Clone, Debug, PartialEq, Eq, Structural)]
pub struct FiemapExtentFlags {
    pub bits: u32,
}

impl FiemapExtentFlags {
    /// Whether the set is one named flag and nothing else.
    pub open spec fn is_named(self) -> bool {
        is_named_bit(self.bits)
    }

    /// The named flags that the set holds.
    pub open spec fn names(self) -> Set<FiemapExtentFlags> {
        Set::new(|flag: FiemapExtentFlags| flag.is_named() && self.contains(flag))
    }

    /// The set without any flag.
    #[verifier::allow_in_spec]
    pub fn empty() -> FiemapExtentFlags
        returns
            (FiemapExtentFlags { bits: 0 }),
    {
        FiemapExtentFlags { bits: 0 }
    }

    /// The set of all named flags.
    #[verifier::allow_in_spec]
    pub fn all() -> FiemapExtentFlags
        returns
            (FiemapExtentFlags { bits: FIEMAP_EXTENT_NAMED }),
    {
        FiemapExtentFlags { bits: FIEMAP_EXTENT_NAMED }
    }

    /// The raw word behind the set.
    #[verifier::allow_in_spec]
    pub fn bits(&self) -> u32
        returns
            self.bits,
    {
        self.bits
    }

    /// The set behind a raw word, every bit kept, named or not.
    #[verifier::allow_in_spec]
    pub fn from_bits_retain(bits: u32) -> FiemapExtentFlags
        returns
            (FiemapExtentFlags { bits }),
    {
        FiemapExtentFlags { bits }
    }

    /// The set behind a raw word, without the bits that have no name.
    #[verifier::allow_in_spec]
    pub fn from_bits_truncate(bits: u32) -> FiemapExtentFlags
        returns
            (FiemapExtentFlags { bits: bits & FIEMAP_EXTENT_NAMED }),
    {
        FiemapExtentFlags { bits: bits & FIEMAP_EXTENT_NAMED }
    }

    /// The set behind a raw word, where each of its bits has a name.
    pub fn from_bits(bits: u32) -> (flags: Option<FiemapExtentFlags>)
        ensures
            flags == if bits & FIEMAP_EXTENT_NAMED == bits {
                Some(FiemapExtentFlags { bits })
            } else {
                None
            },
    {
        if bits & FIEMAP_EXTENT_NAMED == bits {
            Some(FiemapExtentFlags { bits })
        } else {
            None
        }
    }

    /// Whether the set holds no flag.
    #[verifier::allow_in_spec]
    pub fn is_empty(&self) -> bool
        returns
            self.bits == 0,
    {
        self.bits == 0
    }

    /// Whether the set holds every named flag.
    #[verifier::allow_in_spec]
    pub fn is_all(&self) -> bool
        returns
            FIEMAP_EXTENT_NAMED | self.bits == self.bits,
    {
        FIEMAP_EXTENT_NAMED | self.bits == self.bits
    }

    /// Whether the set and `other` share a flag.
    #[verifier::allow_in_spec]
    pub fn intersects(&self, other: FiemapExtentFlags) -> bool
        returns
            self.bits & other.bits != 0,
    {
        self.bits & other.bits != 0
    }

    /// Whether every flag of `other` is in the set.
    #[verifier::allow_in_spec]
    pub fn contains(&self, other: FiemapExtentFlags) -> bool
        returns
            self.bits & other.bits == other.bits,
    {
        self.bits & other.bits == other.bits
    }

    /// The flags that are in the set or in `other`.
    #[verifier::allow_in_spec]
    pub fn union(self, other: FiemapExtentFlags) -> FiemapExtentFlags
        returns
            (FiemapExtentFlags { bits: self.bits | other.bits }),
    {
        FiemapExtentFlags { bits: self.bits | other.bits }
    }

    /// The flags that are in the set and in `other`.
    #[verifier::allow_in_spec]
    pub fn intersection(self, other: FiemapExtentFlags) -> FiemapExtentFlags
        returns
            (FiemapExtentFlags { bits: self.bits & other.bits }),
    {
        FiemapExtentFlags { bits: self.bits & other.bits }
    }

    /// The flags that are in the set and not in `other`.
    #[verifier::allow_in_spec]
    pub fn difference(self, other: FiemapExtentFlags) -> FiemapExtentFlags
        returns
            (FiemapExtentFlags { bits: self.bits & !other.bits }),
    {
        FiemapExtentFlags { bits: self.bits & !other.bits }
    }

    /// The flags that are in the set or in `other`, and not in both.
    #[verifier::allow_in_spec]
    pub fn symmetric_difference(self, other: FiemapExtentFlags) -> FiemapExtentFlags
        returns
            (FiemapExtentFlags { bits: self.bits ^ other.bits }),
    {
        FiemapExtentFlags { bits: self.bits ^ other.bits }
    }

    /// The named flags that are not in the set.
    #[verifier::allow_in_spec]
    pub fn complement(self) -> FiemapExtentFlags
        returns
            (FiemapExtentFlags { bits: !self.bits & FIEMAP_EXTENT_NAMED }),
    {
        FiemapExtentFlags { bits: !self.bits & FIEMAP_EXTENT_NAMED }
    }

    /// Puts the flags of `other` into the set.
    pub fn insert(&mut self, other: FiemapExtentFlags)
        ensures
            *final(self) == old(self).union(other),
    {
        self.bits = self.bits | other.bits;
    }

    /// Takes the flags of `other` out of the set.
    pub fn remove(&mut self, other: FiemapExtentFlags)
        ensures
            *final(self) == old(self).difference(other),
    {
        self.bits = self.bits & !other.bits;
    }

    /// Puts in the flags of `other` that the set lacks and takes out those
    /// that it holds.
    pub fn toggle(&mut self, other: FiemapExtentFlags)
        ensures
            *final(self) == old(self).symmetric_difference(other),
    {
        self.bits = self.bits ^ other.bits;
    }

    /// Puts the flags of `other` in where `value` is true, and takes them
    /// out where it is false.
    pub fn set(&mut self, other: FiemapExtentFlags, value: bool)
        ensures
            *final(self) == if value {
                old(self).union(other)
            } else {
                old(self).difference(other)
            },
    {
        if value {
            self.insert(other);
        } else {
            self.remove(other);
        }
    }

    /// Last extent in file.
    #[verifier::allow_in_spec]
    pub fn last() -> FiemapExtentFlags
        returns
            (FiemapExtentFlags { bits: FIEMAP_EXTENT_LAST }),
    {
        FiemapExtentFlags { bits: FIEMAP_EXTENT_LAST }
    }

    /// Data location unknown.
    #[verifier::allow_in_spec]
    pub fn unknown() -> FiemapExtentFlags
        returns
            (FiemapExtentFlags { bits: FIEMAP_EXTENT_UNKNOWN }),
    {
        FiemapExtentFlags { bits: FIEMAP_EXTENT_UNKNOWN }
    }

    /// Location still pending.
    #[verifier::allow_in_spec]
    pub fn delalloc() -> FiemapExtentFlags
        returns
            (FiemapExtentFlags { bits: FIEMAP_EXTENT_DELALLOC }),
    {
        FiemapExtentFlags { bits: FIEMAP_EXTENT_DELALLOC }
    }

    /// Data can not be read while the file system is unmounted.
    #[verifier::allow_in_spec]
    pub fn encoded() -> FiemapExtentFlags
        returns
            (FiemapExtentFlags { bits: FIEMAP_EXTENT_ENCODED }),
    {
        FiemapExtentFlags { bits: FIEMAP_EXTENT_ENCODED }
    }

    /// Data is encrypted by the file system.
    #[verifier::allow_in_spec]
    pub fn data_encrypted() -> FiemapExtentFlags
        returns
            (FiemapExtentFlags { bits: FIEMAP_EXTENT_DATA_ENCRYPTED }),
    {
        FiemapExtentFlags { bits: FIEMAP_EXTENT_DATA_ENCRYPTED }
    }

    /// Extent offsets may not be block aligned.
    #[verifier::allow_in_spec]
    pub fn not_aligned() -> FiemapExtentFlags
        returns
            (FiemapExtentFlags { bits: FIEMAP_EXTENT_NOT_ALIGNED }),
    {
        FiemapExtentFlags { bits: FIEMAP_EXTENT_NOT_ALIGNED }
    }

    /// Data mixed with metadata.
    #[verifier::allow_in_spec]
    pub fn data_inline() -> FiemapExtentFlags
        returns
            (FiemapExtentFlags { bits: FIEMAP_EXTENT_DATA_INLINE }),
    {
        FiemapExtentFlags { bits: FIEMAP_EXTENT_DATA_INLINE }
    }

    /// Multiple files in block.
    #[verifier::allow_in_spec]
    pub fn data_tail() -> FiemapExtentFlags
        returns
            (FiemapExtentFlags { bits: FIEMAP_EXTENT_DATA_TAIL }),
    {
        FiemapExtentFlags { bits: FIEMAP_EXTENT_DATA_TAIL }
    }

    /// Space allocated, but no data (i.e. zero).
    #[verifier::allow_in_spec]
    pub fn unwritten() -> FiemapExtentFlags
        returns
            (FiemapExtentFlags { bits: FIEMAP_EXTENT_UNWRITTEN }),
    {
        FiemapExtentFlags { bits: FIEMAP_EXTENT_UNWRITTEN }
    }

    /// File does not natively support extents. Result merged for
    /// efficiency.
    #[verifier::allow_in_spec]
    pub fn merged() -> FiemapExtentFlags
        returns
            (FiemapExtentFlags { bits: FIEMAP_EXTENT_MERGED }),
    {
        FiemapExtentFlags { bits: FIEMAP_EXTENT_MERGED }
    }

    /// Space shared with other files.
    #[verifier::allow_in_spec]
    pub fn shared() -> FiemapExtentFlags
        returns
            (FiemapExtentFlags { bits: FIEMAP_EXTENT_SHARED }),
    {
        FiemapExtentFlags { bits: FIEMAP_EXTENT_SHARED }
    }
}

/// No two named flags share a bit, and each has one.
proof fn lemma_named_bits_apart(one: u32, other: u32)
    requires
        is_named_bit(one),
        is_named_bit(other),
    ensures
        one != 0,
        one & FIEMAP_EXTENT_NAMED == one,
        one != other ==> one & other == 0,
        one == other ==> one & other == other,
{
    assert(is_named_bit(one) && is_named_bit(other) ==> one != 0 && one & FIEMAP_EXTENT_NAMED
        == one && (one != other ==> one & other == 0) && (one == other ==> one & other == other))
        by (bit_vector);
}

/// Decoding keeps the word as it is: the set behind a word gives that word
/// back, bits without a name included, and the word of a set gives that
/// set back.
pub proof fn lemma_bits_round_trip(bits: u32, flags: FiemapExtentFlags)
    ensures
        FiemapExtentFlags::from_bits_retain(bits).bits() == bits,
        FiemapExtentFlags::from_bits_retain(flags.bits()) == flags,
{
}

/// The empty set holds no named flag.
pub proof fn lemma_names_of_empty()
    ensures
        FiemapExtentFlags::empty().names() == Set::<FiemapExtentFlags>::empty(),
{
    assert forall|flag: FiemapExtentFlags| flag.is_named() implies !FiemapExtentFlags::empty().contains(
        flag,
    ) by {
        let bits = flag.bits;
        lemma_named_bits_apart(bits, bits);
        assert(0u32 & bits == 0) by (bit_vector);
    }
    assert(FiemapExtentFlags::empty().names() =~= Set::<FiemapExtentFlags>::empty());
}

/// The set of all named flags holds each of them, and its word is made of
/// their bits and no others.
pub proof fn lemma_names_of_all()
    ensures
        FiemapExtentFlags::all().names() == Set::new(|flag: FiemapExtentFlags| flag.is_named()),
        FIEMAP_EXTENT_NAMED == FIEMAP_EXTENT_LAST | FIEMAP_EXTENT_UNKNOWN | FIEMAP_EXTENT_DELALLOC
            | FIEMAP_EXTENT_ENCODED | FIEMAP_EXTENT_DATA_ENCRYPTED | FIEMAP_EXTENT_NOT_ALIGNED
            | FIEMAP_EXTENT_DATA_INLINE | FIEMAP_EXTENT_DATA_TAIL | FIEMAP_EXTENT_UNWRITTEN
            | FIEMAP_EXTENT_MERGED | FIEMAP_EXTENT_SHARED,
{
    assert forall|flag: FiemapExtentFlags| flag.is_named() implies FiemapExtentFlags::all().contains(
        flag,
    ) by {
        let f = flag.bits;
        lemma_named_bits_apart(f, f);
        assert(FIEMAP_EXTENT_NAMED & f == f & FIEMAP_EXTENT_NAMED) by (bit_vector);
    }
    assert(FiemapExtentFlags::all().names() =~= Set::new(
        |flag: FiemapExtentFlags| flag.is_named(),
    ));
    assert(FIEMAP_EXTENT_NAMED == FIEMAP_EXTENT_LAST | FIEMAP_EXTENT_UNKNOWN
        | FIEMAP_EXTENT_DELALLOC | FIEMAP_EXTENT_ENCODED | FIEMAP_EXTENT_DATA_ENCRYPTED
        | FIEMAP_EXTENT_NOT_ALIGNED | FIEMAP_EXTENT_DATA_INLINE | FIEMAP_EXTENT_DATA_TAIL
        | FIEMAP_EXTENT_UNWRITTEN | FIEMAP_EXTENT_MERGED | FIEMAP_EXTENT_SHARED) by (bit_vector);
}

/// A named flag by itself decodes to that flag and no other.
pub proof fn lemma_names_of_named(one: FiemapExtentFlags)
    requires
        one.is_named(),
    ensures
        one.names() == set![one],
{
    assert forall|flag: FiemapExtentFlags| flag.is_named() implies (one.contains(flag) <==> flag
        == one) by {
        lemma_named_bits_apart(one.bits, flag.bits);
    }
    assert(one.names() =~= set![one]);
}

/// A combination decodes to the named flags of its parts: no flag comes
/// with another, and none is lost.
pub proof fn lemma_names_of_union(left: FiemapExtentFlags, right: FiemapExtentFlags)
    ensures
        left.union(right).names() == left.names().union(right.names()),
{
    assert forall|flag: FiemapExtentFlags| flag.is_named() implies (left.union(right).contains(
        flag,
    ) <==> left.contains(flag) || right.contains(flag)) by {
        let a = left.bits;
        let b = right.bits;
        let f = flag.bits;
        assert(is_named_bit(f) ==> (((a | b) & f == f) <==> (a & f == f || b & f == f)))
            by (bit_vector);
    }
    assert(left.union(right).names() =~= left.names().union(right.names()));
}

/// Taking flags out of a set takes their names out and no others.
pub proof fn lemma_names_of_difference(left: FiemapExtentFlags, right: FiemapExtentFlags)
    ensures
        left.difference(right).names() == left.names().difference(right.names()),
{
    assert forall|flag: FiemapExtentFlags| flag.is_named() implies (left.difference(
        right,
    ).contains(flag) <==> left.contains(flag) && !right.contains(flag)) by {
        let a = left.bits;
        let b = right.bits;
        let f = flag.bits;
        assert(is_named_bit(f) ==> (((a & !b) & f == f) <==> (a & f == f && !(b & f == f))))
            by (bit_vector);
    }
    assert(left.difference(right).names() =~= left.names().difference(right.names()));
}

/// Bits without a name add nothing to what a set decodes to.
pub proof fn lemma_names_without_unnamed(flags: FiemapExtentFlags)
    ensures
        FiemapExtentFlags::from_bits_truncate(flags.bits()).names() == flags.names(),
{
    assert forall|flag: FiemapExtentFlags| flag.is_named() implies (
    FiemapExtentFlags::from_bits_truncate(flags.bits()).contains(flag) <==> flags.contains(flag)) by {
        let a = flags.bits;
        let f = flag.bits;
        assert(is_named_bit(f) ==> (((a & FIEMAP_EXTENT_NAMED) & f == f) <==> (a & f == f)))
            by (bit_vector);
    }
    assert(FiemapExtentFlags::from_bits_truncate(flags.bits()).names() =~= flags.names());
}

} // verus!
