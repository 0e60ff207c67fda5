//! What this crate assumes of the code it calls but does not verify: the
//! `bytes` buffer the parser accumulates input in, the `memchr` byte searches,
//! and UTF-8 validation from the standard library.
//!
//! Every contract in this file is believed, not proved.

use bytes::BytesMut;
use core::str::Utf8Error;
use vstd::prelude::*;
use vstd::string::StringSliceAdditionalSpecFns;
use vstd::utf8::valid_utf8;

verus! {

/// `i` is the first position of `s` that holds `a` or `b`.
pub open spec fn first_at(s: Seq<u8>, a: u8, b: u8, i: int) -> bool {
    &&& 0 <= i < s.len()
    &&& (s[i] == a || s[i] == b)
    &&& forall|j: int| 0 <= j < i ==> s[j] != a && s[j] != b
}

/// Neither `a` nor `b` occurs in `s`.
pub open spec fn absent(s: Seq<u8>, a: u8, b: u8) -> bool {
    forall|j: int| 0 <= j < s.len() ==> s[j] != a && s[j] != b
}

/// `memchr::memchr` returns the index of the first occurrence of `needle`
/// in `haystack`, or `None` when it does not occur.
pub assume_specification[ memchr::memchr ](needle: u8, haystack: &[u8]) -> (found: Option<usize>)
    ensures
        match found {
            Some(i) => first_at(haystack@, needle, needle, i as int),
            None => absent(haystack@, needle, needle),
        },
;

/// `memchr::memchr2` returns the index of the first byte of `haystack` that
/// equals `needle1` or `needle2`, or `None` when neither occurs.
pub assume_specification[ memchr::memchr2 ](needle1: u8, needle2: u8, haystack: &[u8]) -> (found:
    Option<usize>)
    ensures
        match found {
            Some(i) => first_at(haystack@, needle1, needle2, i as int),
            None => absent(haystack@, needle1, needle2),
        },
;

/// `bytes::BytesMut`: a growable run of bytes that can be split at the
/// front without copying. Nothing inside it is visible to the verifier.
#[verifier::external_type_specification]
#[verifier::external_body]
pub struct ExBytesMut(bytes::BytesMut);

/// The bytes a buffer holds, front first.
pub uninterp spec fn contents(buf: BytesMut) -> Seq<u8>;

/// `BytesMut::new` makes a buffer that holds nothing.
pub assume_specification[ BytesMut::new ]() -> (buf: BytesMut)
    ensures
        contents(buf) == Seq::<u8>::empty(),
;

/// `BytesMut::from` on a byte slice makes a buffer that holds a copy of it.
pub assume_specification<'a>[ <BytesMut as core::convert::From<&'a [u8]>>::from ](
    src: &'a [u8],
) -> (buf: BytesMut)
    ensures
        contents(buf) == src@,
;

/// `BytesMut::extend_from_slice` appends `extend` behind what the buffer
/// holds. It grows the buffer as needed; running out of memory is not
/// modelled, as for `Vec`.
pub assume_specification[ BytesMut::extend_from_slice ](buf: &mut BytesMut, extend: &[u8])
    ensures
        contents(*final(buf)) == contents(*old(buf)) + extend@,
;

/// `BytesMut::split_to` hands out the first `at` bytes as a buffer of their
/// own and keeps the rest. It panics when `at` exceeds the length.
pub assume_specification[ BytesMut::split_to ](buf: &mut BytesMut, at: usize) -> (front: BytesMut)
    requires
        at <= contents(*old(buf)).len(),
    ensures
        contents(front) == contents(*old(buf)).subrange(0, at as int),
        contents(*final(buf)) == contents(*old(buf)).subrange(
            at as int,
            contents(*old(buf)).len() as int,
        ),
;

/// `Buf::advance` on a `BytesMut` drops the first `cnt` bytes. It panics
/// when `cnt` exceeds the length.
pub assume_specification[ <BytesMut as bytes::Buf>::advance ](buf: &mut BytesMut, cnt: usize)
    requires
        cnt <= contents(*old(buf)).len(),
    ensures
        contents(*final(buf)) == contents(*old(buf)).subrange(
            cnt as int,
            contents(*old(buf)).len() as int,
        ),
;

/// `AsRef<[u8]>::as_ref` on a `BytesMut` borrows the bytes it holds.
pub assume_specification[ <BytesMut as core::convert::AsRef<[u8]>>::as_ref ](buf: &BytesMut) -> (s:
    &[u8])
    ensures
        s@ == contents(*buf),
;

/// `core::str::Utf8Error`: where and how bytes fail to be UTF-8. It is
/// carried through as it comes.
#[verifier::external_type_specification]
#[verifier::external_body]
pub struct ExUtf8Error(core::str::Utf8Error);

/// The error `core::str::from_utf8` reports for bytes that are not UTF-8.
pub uninterp spec fn utf8_error(bytes: Seq<u8>) -> Utf8Error;

/// `core::str::from_utf8` succeeds exactly on well-formed UTF-8, and then
/// returns the same bytes as a string slice. What it reports otherwise
/// depends on the bytes alone.
pub assume_specification<'a>[ core::str::from_utf8 ](v: &'a [u8]) -> (r: Result<&'a str, Utf8Error>)
    ensures
        r is Ok <==> valid_utf8(v@),
        r matches Ok(s) ==> s.spec_bytes() == v@,
        r matches Err(e) ==> e == utf8_error(v@),
;

} // verus!
