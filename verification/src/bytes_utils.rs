//! Byte buffers: the conversion of the library's types to and from bytes, and the helpers that
//! fill a buffer field by field.

use vstd::prelude::*;

verus! {

#[verifier::external_type_specification]
#[verifier::external_body]
pub struct ExActixBytes(actix_web::web::Bytes);

/// The bytes that an `actix_web::web::Bytes` buffer holds, in order.
pub uninterp spec fn actix_bytes_view(b: actix_web::web::Bytes) -> Seq<u8>;

/// `actix_web::web::Bytes::from(Box<[u8]>)`: the buffer holds exactly the bytes of `b`.
#[verifier::external_body]
pub(crate) fn actix_bytes_from_boxed(b: Box<[u8]>) -> (r: actix_web::web::Bytes)
    ensures
        actix_bytes_view(r) == b@,
{
    actix_web::web::Bytes::from(b)
}

/// `<actix_web::web::Bytes as Deref>::deref`: the slice holds exactly the bytes of the buffer.
#[verifier::external_body]
pub(crate) fn actix_bytes_as_slice(b: &actix_web::web::Bytes) -> (r: &[u8])
    ensures
        r@ == actix_bytes_view(*b),
{
    b
}

/// `Vec::into_boxed_slice`: the boxed slice holds the elements of the vector, in order.
#[verifier::external_body]
pub(crate) fn vec_into_boxed_slice(v: Vec<u8>) -> (r: Box<[u8]>)
    ensures
        r@ == v@,
{
    v.into_boxed_slice()
}

/// A type that can be turned into bytes and rebuilt from them.
pub trait BytesConversion: Sized {
    type Error;

    /// The values whose encoding is defined (the encoding computes without overflow).
    spec fn encodable(&self) -> bool;

    /// The bytes that encode `self`.
    spec fn encoding(&self) -> Seq<u8>;

    /// The byte strings that decoding can take without a panic.
    spec fn decodable(bytes: Seq<u8>) -> bool;

    /// What decoding `bytes` gives: the value or error that `r` holds.
    spec fn decodes_to(bytes: Seq<u8>, r: Result<Self, Self::Error>) -> bool;

    /// The encoding of `self`, in a buffer of exactly its length.
    fn as_boxed_bytes(&self) -> (r: Result<Box<[u8]>, Self::Error>)
        requires
            self.encodable(),
        ensures
            r matches Ok(b) && b@ == self.encoding(),
    ;

    /// The encoding of `self`, as an `actix_web` buffer.
    fn as_actix_bytes(&self) -> (r: Result<actix_web::web::Bytes, Self::Error>)
        requires
            self.encodable(),
        ensures
            r matches Ok(b) && actix_bytes_view(b) == self.encoding(),
    {
        match self.as_boxed_bytes() {
            Ok(b) => Ok(actix_bytes_from_boxed(b)),
            Err(e) => Err(e),
        }
    }

    /// The value that `bytes` encodes.
    fn from_raw_bytes(bytes: &[u8]) -> (r: Result<Self, Self::Error>)
        requires
            Self::decodable(bytes@),
        ensures
            Self::decodes_to(bytes@, r),
    ;

    /// The value that the `actix_web` buffer encodes.
    fn from_actix_bytes(bytes: actix_web::web::Bytes) -> (r: Result<Self, Self::Error>)
        requires
            Self::decodable(actix_bytes_view(bytes)),
        ensures
            Self::decodes_to(actix_bytes_view(bytes), r),
    {
        Self::from_raw_bytes(actix_bytes_as_slice(&bytes))
    }
}

/// The concatenation of two `actix_web` buffers.
pub fn append_bytes(initial_bytes: actix_web::web::Bytes, following_bytes: actix_web::web::Bytes) -> (r:
    actix_web::web::Bytes)
    ensures
        actix_bytes_view(r) == actix_bytes_view(initial_bytes) + actix_bytes_view(following_bytes),
{
    let first = actix_bytes_as_slice(&initial_bytes);
    let second = actix_bytes_as_slice(&following_bytes);
    let mut joined: Vec<u8> = Vec::with_capacity(first.len());
    let mut i: usize = 0;
    while i < first.len()
        invariant
            i <= first@.len(),
            joined@ == first@.subrange(0, i as int),
        decreases first@.len() - i,
    {
        joined.push(first[i]);
        i = i + 1;
        assert(joined@ =~= first@.subrange(0, i as int));
    }
    let mut j: usize = 0;
    while j < second.len()
        invariant
            j <= second@.len(),
            joined@ == first@ + second@.subrange(0, j as int),
        decreases second@.len() - j,
    {
        joined.push(second[j]);
        j = j + 1;
        assert(joined@ =~= first@ + second@.subrange(0, j as int));
    }
    assert(first@.subrange(0, first@.len() as int) =~= first@);
    assert(second@.subrange(0, second@.len() as int) =~= second@);
    actix_bytes_from_boxed(vec_into_boxed_slice(joined))
}

/// Copies `bytes` into `array` at `*array_index` and moves the index past them, or fails,
/// changing nothing, where fewer than `bytes.len()` places are left.
pub fn append_bytes_raw(bytes: &[u8], array: &mut [u8], array_index: &mut usize) -> (r: Result<(), String>)
    requires
        *old(array_index) <= old(array)@.len(),
    ensures
        r is Ok <==> bytes@.len() <= old(array)@.len() - *old(array_index),
        r is Ok ==> *final(array_index) == *old(array_index) + bytes@.len() && final(array)@
            == old(array)@.subrange(0, *old(array_index) as int) + bytes@ + old(array)@.subrange(
            *old(array_index) + bytes@.len(),
            old(array)@.len() as int,
        ),
        r matches Err(e) ==> e@ == "utils::append_bytes_raw(): not enough space in the array"@
            && *final(array_index) == *old(array_index) && final(array)@ == old(array)@,
{
    if bytes.len() > array.len() - *array_index {
        return Err("utils::append_bytes_raw(): not enough space in the array".to_string());
    }
    let start = *array_index;
    let final_array_index = start + bytes.len();
    let mut k: usize = 0;
    while k < bytes.len()
        invariant
            start == *old(array_index),
            final_array_index == start + bytes@.len(),
            final_array_index <= array@.len(),
            k <= bytes@.len(),
            array@.len() == old(array)@.len(),
            forall|i: int| 0 <= i < start ==> array@[i] == old(array)@[i],
            forall|i: int| 0 <= i < k ==> array@[start + i] == bytes@[i],
            forall|i: int| final_array_index <= i < array@.len() ==> array@[i] == old(array)@[i],
        decreases bytes@.len() - k,
    {
        array[start + k] = bytes[k];
        k = k + 1;
    }
    *array_index = final_array_index;
    assert(array@ =~= old(array)@.subrange(0, start as int) + bytes@ + old(array)@.subrange(
        final_array_index as int,
        old(array)@.len() as int,
    ));
    Ok(())
}

/// A buffer of `length` zero bytes.
pub fn boxed_bytes(length: usize) -> (r: Box<[u8]>)
    ensures
        r@ == Seq::new(length as nat, |i: int| 0u8),
{
    let mut vec: Vec<u8> = Vec::with_capacity(length);
    let mut i: usize = 0;
    while i < length
        invariant
            i <= length,
            vec@ == Seq::new(i as nat, |k: int| 0u8),
        decreases length - i,
    {
        vec.push(0);
        i = i + 1;
        assert(vec@ =~= Seq::new(i as nat, |k: int| 0u8));
    }
    vec_into_boxed_slice(vec)
}

/// Appends the bytes of `s` to `v`.
pub(crate) fn extend_bytes(v: &mut Vec<u8>, s: &[u8])
    ensures
        final(v)@ == old(v)@ + s@,
{
    let mut i: usize = 0;
    while i < s.len()
        invariant
            i <= s@.len(),
            v@ == old(v)@ + s@.subrange(0, i as int),
        decreases s@.len() - i,
    {
        v.push(s[i]);
        i = i + 1;
        assert(v@ =~= old(v)@ + s@.subrange(0, i as int));
    }
    assert(s@.subrange(0, s@.len() as int) =~= s@);
}

/// Whether two byte strings are equal.
pub(crate) fn bytes_equal(a: &[u8], b: &[u8]) -> (r: bool)
    ensures
        r == (a@ == b@),
{
    if a.len() != b.len() {
        return false;
    }
    let mut i: usize = 0;
    while i < a.len()
        invariant
            a@.len() == b@.len(),
            i <= a@.len(),
            forall|k: int| 0 <= k < i ==> a@[k] == b@[k],
        decreases a@.len() - i,
    {
        if a[i] != b[i] {
            return false;
        }
        i = i + 1;
    }
    assert(a@ =~= b@);
    true
}

/// The `N` bytes of `src` that start at `start`, as an array.
pub(crate) fn copy_bytes_array<const N: usize>(src: &[u8], start: usize) -> (r: [u8; N])
    requires
        start + N <= src@.len(),
    ensures
        r@ == src@.subrange(start as int, start + N),
{
    let mut r: [u8; N] = [0u8; N];
    let mut i: usize = 0;
    while i < N
        invariant
            start + N <= src@.len(),
            i <= N,
            r@.len() == N,
            forall|k: int| 0 <= k < i ==> r@[k] == src@[start + k],
        decreases N - i,
    {
        assert(start + i < src@.len());
        assert(src@.len() <= usize::MAX) by {
            vstd::slice::axiom_spec_len(src);
        }
        r[i] = src[start + i];
        i = i + 1;
    }
    assert(r@ =~= src@.subrange(start as int, start + N));
    r
}

} // verus!
