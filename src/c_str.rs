use vstd::prelude::*;
use vstd::utf8::{decode_utf8, encode_utf8, valid_utf8};
use vstd::utf8::{encode_utf8_decode_utf8, encode_utf8_valid_utf8};

use crate::c_ptr::{ConstPtr, MutPtr, SafePointerSlicesMut};

verus! {

broadcast use {encode_utf8_decode_utf8, encode_utf8_valid_utf8};

/// Where the text held in `buf` ends: at its first zero byte, or at the end
/// of `buf` when it holds none.
pub open spec fn text_end(buf: Seq<u8>) -> nat
    decreases buf.len(),
{
    if buf.len() == 0 || buf[0] == 0 {
        0
    } else {
        1 + text_end(buf.drop_first())
    }
}

/// The bytes of the text held in `buf`: everything before its first zero
/// byte, or all of `buf` when it holds none.
pub open spec fn c_text(buf: Seq<u8>) -> Seq<u8> {
    buf.subrange(0, text_end(buf) as int)
}

/// The bytes of the text behind a bare handle, which must be non-null and
/// must reach a zero terminator; `None` where it does not.
pub open spec fn terminated_text(target: Option<Seq<u8>>) -> Option<Seq<u8>> {
    match target {
        Some(e) => if e.contains(0u8) {
            Some(c_text(e))
        } else {
            None
        },
        None => None,
    }
}

/// The bytes that hand `text` across the boundary: its UTF-8 encoding and a
/// zero terminator.
pub open spec fn c_encoding(text: Seq<char>) -> Seq<u8> {
    encode_utf8(text).push(0u8)
}

/// Text that may be encoded: its UTF-8 encoding holds no zero byte.
pub open spec fn nul_free(text: Seq<char>) -> bool {
    !encode_utf8(text).contains(0u8)
}

/// A text end at `k` is one with no zero byte before it and a zero byte, or
/// the end of `buf`, at it.
proof fn lemma_text_end(buf: Seq<u8>, k: int)
    requires
        0 <= k <= buf.len(),
        forall|i: int| 0 <= i < k ==> buf[i] != 0,
        k == buf.len() || buf[k] == 0,
    ensures
        text_end(buf) == k,
    decreases k,
{
    if k > 0 {
        let rest = buf.drop_first();
        assert forall|i: int| 0 <= i < k - 1 implies rest[i] != 0 by {
            assert(rest[i] == buf[i + 1]);
        }
        lemma_text_end(rest, k - 1);
    }
}

/// The bytes of the text held in `buf`, scanned up to its first zero byte or
/// its end.
pub fn c_text_of(buf: &[u8]) -> (r: &[u8])
    ensures
        r@ == c_text(buf@),
{
    let mut i: usize = 0;
    while i < buf.len() && buf[i] != 0
        invariant
            i <= buf.len(),
            forall|j: int| 0 <= j < i ==> buf@[j] != 0,
        decreases buf.len() - i,
    {
        i = i + 1;
    }
    proof {
        lemma_text_end(buf@, i as int);
    }
    &buf[0..i]
}

/// Relies on std::str::from_utf8: it succeeds exactly on valid UTF-8, and
/// the text it hands back is made of the bytes it was given.
#[verifier::external_body]
fn utf8_str(bytes: &[u8]) -> (r: Option<&str>)
    ensures
        r is Some <==> valid_utf8(bytes@),
        r matches Some(s) ==> encode_utf8(s@) == bytes@,
{
    std::str::from_utf8(bytes).ok()
}

/// The text held in `buf`, up to its first zero byte or its end, which must
/// be valid UTF-8.
pub fn decode_text(buf: &[u8]) -> (r: &str)
    requires
        valid_utf8(c_text(buf@)),
    ensures
        encode_utf8(r@) == c_text(buf@),
        r@ == decode_utf8(c_text(buf@)),
{
    let text = c_text_of(buf);
    match utf8_str(text) {
        Some(s) => s,
        None => {
            // excluded: the bytes are valid UTF-8
            let missing: Option<&str> = None;
            missing.unwrap()
        },
    }
}

/// Decoding the zero-terminated text that a source holds into native text.
///
/// Decoding stops at the first zero byte, or at the end of a source of known
/// size. A source that holds no readable text, or text that is not valid
/// UTF-8, breaches the caller's contract.
pub trait CStringInHelpers<T>: Sized + View<V = Seq<char>> {
    /// The bytes of the text that `src` holds; `None` where no text may be
    /// read from it.
    spec fn source_text(src: T) -> Option<Seq<u8>>;

    fn from_c(src: T) -> (r: Self)
        requires
            Self::source_text(src) matches Some(b) && valid_utf8(b),
        ensures
            Self::source_text(src) matches Some(b) && encode_utf8(r@) == b && r@ == decode_utf8(
                b,
            ),
    ;
}

impl<'a> CStringInHelpers<ConstPtr<'a, u8>> for String {
    open spec fn source_text(src: ConstPtr<'a, u8>) -> Option<Seq<u8>> {
        terminated_text(src@)
    }

    fn from_c(src: ConstPtr<'a, u8>) -> (r: String) {
        decode_text(src.reachable()).to_owned()
    }
}

impl<'a> CStringInHelpers<&'a [u8]> for String {
    open spec fn source_text(src: &'a [u8]) -> Option<Seq<u8>> {
        Some(c_text(src@))
    }

    fn from_c(src: &'a [u8]) -> (r: String) {
        decode_text(src).to_owned()
    }
}

impl<'a, const N: usize> CStringInHelpers<&'a [u8; N]> for String {
    open spec fn source_text(src: &'a [u8; N]) -> Option<Seq<u8>> {
        Some(c_text(src@))
    }

    fn from_c(src: &'a [u8; N]) -> (r: String) {
        decode_text(src.as_slice()).to_owned()
    }
}

impl<'a> CStringInHelpers<ConstPtr<'a, u8>> for &'a str {
    open spec fn source_text(src: ConstPtr<'a, u8>) -> Option<Seq<u8>> {
        terminated_text(src@)
    }

    fn from_c(src: ConstPtr<'a, u8>) -> (r: &'a str) {
        decode_text(src.reachable())
    }
}

impl<'a> CStringInHelpers<&'a [u8]> for &'a str {
    open spec fn source_text(src: &'a [u8]) -> Option<Seq<u8>> {
        Some(c_text(src@))
    }

    fn from_c(src: &'a [u8]) -> (r: &'a str) {
        decode_text(src)
    }
}

impl<'a, const N: usize> CStringInHelpers<&'a [u8; N]> for &'a str {
    open spec fn source_text(src: &'a [u8; N]) -> Option<Seq<u8>> {
        Some(c_text(src@))
    }

    fn from_c(src: &'a [u8; N]) -> (r: &'a str) {
        decode_text(src.as_slice())
    }
}

/// An embedded zero byte in text that was to be encoded: the position of
/// the first one among its bytes.
#[derive(Debug, Clone, Copy, PartialEq, Eq, Structural)]
pub struct InteriorNul {
    pub position: usize,
}

/// Why a path could not be encoded.
#[derive(Debug, Clone, Copy, PartialEq, Eq, Structural)]
pub enum PathEncodeError {
    /// The path is not valid Unicode, so it has no text to encode.
    NotUnicode,
    /// The path's text holds a zero byte.
    InteriorNul(InteriorNul),
}

#[verifier::external_type_specification]
#[verifier::external_body]
pub struct ExPath(std::path::Path);

#[verifier::external_type_specification]
#[verifier::external_body]
pub struct ExPathBuf(std::path::PathBuf);

/// The text of a path, or `None` where the path is not valid Unicode.
pub uninterp spec fn path_text(path: &std::path::Path) -> Option<Seq<char>>;

/// The text of an owned path, or `None` where it is not valid Unicode.
pub uninterp spec fn path_buf_text(path: &std::path::PathBuf) -> Option<Seq<char>>;

/// Relies on Path::to_str: the path as text, or `None` where it is not valid
/// Unicode; the result depends on the path alone.
#[verifier::external_body]
fn path_str(path: &std::path::Path) -> (r: Option<&str>)
    ensures
        r is None <==> path_text(path) is None,
        r matches Some(s) ==> path_text(path) == Some(s@),
{
    path.to_str()
}

/// Relies on Path::to_str, reached from an owned path through its `Deref`
/// to `Path`: the text, or `None` where it is not valid Unicode; the result
/// depends on the path alone.
#[verifier::external_body]
fn path_buf_str(path: &std::path::PathBuf) -> (r: Option<&str>)
    ensures
        r is None <==> path_buf_text(path) is None,
        r matches Some(s) ==> path_buf_text(path) == Some(s@),
{
    path.to_str()
}

/// Text encoded for a single outbound call: its UTF-8 bytes and a zero
/// terminator, or the absent state, which the boundary sees as a null
/// address and which differs from empty text.
///
/// The view is `None` for the absent state and otherwise the bytes, the
/// terminator included.
#[derive(Clone, Hash, PartialEq, Eq)]
pub struct Str2C {
    bytes: Option<Vec<u8>>,
}

impl View for Str2C {
    type V = Option<Seq<u8>>;

    closed spec fn view(&self) -> Option<Seq<u8>> {
        match self.bytes {
            Some(v) => Some(v@),
            None => None,
        }
    }
}

/// What an optional text becomes once encoded: absent stays absent.
pub open spec fn c_encoding_opt(value: Option<Seq<char>>) -> Option<Seq<u8>> {
    match value {
        Some(text) => Some(c_encoding(text)),
        None => None,
    }
}

impl Str2C {
    /// Either absent, or bytes whose one zero byte is the last.
    pub open spec fn well_formed(&self) -> bool {
        self@ matches Some(b) ==> b.len() >= 1 && b.last() == 0u8 && !b.drop_last().contains(0u8)
    }

    /// Encodes `text`; fails, naming the position of the first zero byte,
    /// exactly when its bytes hold one.
    pub fn try_from_str(text: &str) -> (r: Result<Str2C, InteriorNul>)
        ensures
            r is Err <==> !nul_free(text@),
            r matches Err(e) ==> e.position == text_end(encode_utf8(text@)),
            r matches Ok(c) ==> c@ == Some(c_encoding(text@)) && c.well_formed(),
    {
        let bytes = text.as_bytes();
        let ghost src = encode_utf8(text@);
        let mut out: Vec<u8> = Vec::new();
        let mut i: usize = 0;
        while i < bytes.len()
            invariant
                bytes@ == src,
                src == encode_utf8(text@),
                i <= src.len(),
                out@ == src.subrange(0, i as int),
                forall|j: int| 0 <= j < i ==> src[j] != 0,
            decreases src.len() - i,
        {
            if bytes[i] == 0 {
                proof {
                    assert(src[i as int] == 0);
                    lemma_text_end(src, i as int);
                }
                return Err(InteriorNul { position: i });
            }
            out.push(bytes[i]);
            i = i + 1;
        }
        out.push(0u8);
        Ok(Str2C { bytes: Some(out) })
    }

    /// Encodes `value`, whose bytes must hold no zero byte.
    pub fn from_ref(value: &str) -> (r: Str2C)
        requires
            nul_free(value@),
        ensures
            r@ == Some(c_encoding(value@)),
            r.well_formed(),
    {
        match Str2C::try_from_str(value) {
            Ok(c) => c,
            Err(_) => {
                // excluded: the text holds no zero byte
                let missing: Option<Str2C> = None;
                missing.unwrap()
            },
        }
    }

    /// The absent state for `None`, else the encoding of the text, whose
    /// bytes must hold no zero byte.
    pub fn from_option(value: Option<&str>) -> (r: Str2C)
        requires
            value matches Some(s) ==> nul_free(s@),
        ensures
            value is None ==> r@ == c_encoding_opt(None),
            value matches Some(s) ==> r@ == c_encoding_opt(Some(s@)),
            r.well_formed(),
    {
        match value {
            Some(s) => Str2C::from_ref(s),
            None => Str2C { bytes: None },
        }
    }

    /// Encodes `text` as a path's text; fails exactly where it holds a zero
    /// byte.
    fn from_path_text(text: &str) -> (r: Result<Str2C, PathEncodeError>)
        ensures
            r is Ok <==> nul_free(text@),
            r matches Ok(c) ==> c@ == Some(c_encoding(text@)) && c.well_formed(),
            r matches Err(e) ==> e is InteriorNul,
    {
        match Str2C::try_from_str(text) {
            Ok(c) => Ok(c),
            Err(e) => Err(PathEncodeError::InteriorNul(e)),
        }
    }

    /// Encodes the text of `path`; fails where the path is not valid
    /// Unicode, and otherwise exactly as [`Str2C::try_from_str`] on its text.
    pub fn from_path(path: &std::path::Path) -> (r: Result<Str2C, PathEncodeError>)
        ensures
            path_text(path) is None <==> r == Err::<Str2C, PathEncodeError>(
                PathEncodeError::NotUnicode,
            ),
            path_text(path) matches Some(t) ==> (r is Ok <==> nul_free(t)),
            path_text(path) matches Some(t) ==> (r matches Ok(c) ==> c@ == Some(c_encoding(t))),
            r matches Ok(c) ==> c.well_formed(),
    {
        match path_str(path) {
            Some(text) => Str2C::from_path_text(text),
            None => Err(PathEncodeError::NotUnicode),
        }
    }

    /// Encodes the text of an owned path, as [`Str2C::from_path`] does.
    pub fn from_path_buf(path: &std::path::PathBuf) -> (r: Result<Str2C, PathEncodeError>)
        ensures
            path_buf_text(path) is None <==> r == Err::<Str2C, PathEncodeError>(
                PathEncodeError::NotUnicode,
            ),
            path_buf_text(path) matches Some(t) ==> (r is Ok <==> nul_free(t)),
            path_buf_text(path) matches Some(t) ==> (r matches Ok(c) ==> c@ == Some(c_encoding(t))),
            r matches Ok(c) ==> c.well_formed(),
    {
        match path_buf_str(path) {
            Some(text) => Str2C::from_path_text(text),
            None => Err(PathEncodeError::NotUnicode),
        }
    }

    /// Encodes an owned `value`, whose bytes must hold no zero byte.
    pub fn from_string(value: String) -> (r: Str2C)
        requires
            nul_free(value@),
        ensures
            r@ == Some(c_encoding(value@)),
            r.well_formed(),
    {
        Str2C::from_ref(value.as_str())
    }

    /// Encodes `value`, whose bytes must hold no zero byte.
    pub fn from_string_ref(value: &String) -> (r: Str2C)
        requires
            nul_free(value@),
        ensures
            r@ == Some(c_encoding(value@)),
            r.well_formed(),
    {
        Str2C::from_ref(value.as_str())
    }

    /// The absent state for `None`, else the encoding of the owned text,
    /// whose bytes must hold no zero byte.
    pub fn from_option_string(value: Option<String>) -> (r: Str2C)
        requires
            value matches Some(s) ==> nul_free(s@),
        ensures
            value is None ==> r@ == c_encoding_opt(None),
            value matches Some(s) ==> r@ == c_encoding_opt(Some(s@)),
            r.well_formed(),
    {
        match value {
            Some(s) => Str2C::from_ref(s.as_str()),
            None => Str2C { bytes: None },
        }
    }

    /// The address to hand to the outbound call: null in the absent state,
    /// else the first byte of the encoding. It borrows `self`, so it cannot
    /// outlive the encoding it points into.
    pub fn as_ptr(&self) -> (r: ConstPtr<'_, u8>)
        ensures
            r@ == self@,
    {
        match &self.bytes {
            Some(v) => ConstPtr::from_slice(v.as_slice()),
            None => ConstPtr::null(),
        }
    }
}

/// Encoding and then decoding gives back the text: for text whose bytes
/// hold no zero byte, the encoding is terminated, the bytes before its
/// terminator are the text's UTF-8 encoding, and they decode to the text.
pub proof fn lemma_round_trip(text: Seq<char>)
    requires
        nul_free(text),
    ensures
        c_encoding(text).contains(0u8),
        c_text(c_encoding(text)) == encode_utf8(text),
        terminated_text(Some(c_encoding(text))) == Some(encode_utf8(text)),
        valid_utf8(c_text(c_encoding(text))),
        decode_utf8(c_text(c_encoding(text))) == text,
{
    let src = encode_utf8(text);
    let b = c_encoding(text);
    assert(b[src.len() as int] == 0);
    assert forall|i: int| 0 <= i < src.len() implies b[i] != 0 by {
        assert(b[i] == src[i]);
    }
    lemma_text_end(b, src.len() as int);
    assert(c_text(b) =~= src);
}

/// The address of an encoded optional text is null exactly for an absent
/// text, and otherwise reaches a terminator, before which stands text that
/// decodes to the original.
pub proof fn lemma_probe_round_trip(value: Option<Seq<char>>)
    requires
        value matches Some(t) ==> nul_free(t),
    ensures
        value is None <==> c_encoding_opt(value) is None,
        value matches Some(t) ==> (terminated_text(c_encoding_opt(value)) matches Some(b)
            && valid_utf8(b) && decode_utf8(b) == t),
{
    if let Some(t) = value {
        lemma_round_trip(t);
    }
}

/// What a bounded copy of `src` leaves in `dst`, given room for `cap` bytes:
/// with no room nothing changes; else as many bytes of `src` as fit before a
/// terminator, then the terminator, and the rest of `dst` as it was.
pub open spec fn bounded_copy(dst: Seq<u8>, cap: nat, src: Seq<u8>) -> Seq<u8> {
    if cap == 0 {
        dst
    } else {
        let k = if src.len() < cap - 1 { src.len() } else { (cap - 1) as nat };
        src.subrange(0, k as int) + seq![0u8] + dst.subrange((k + 1) as int, dst.len() as int)
    }
}

/// With no room, a bounded copy leaves the buffer as it was.
pub proof fn lemma_no_room_no_write(dst: Seq<u8>, src: Seq<u8>)
    ensures
        bounded_copy(dst, 0, src) == dst,
{
}

/// With room for `cap` bytes, a bounded copy keeps the buffer's length,
/// writes only its first `min(src.len(), cap - 1) + 1` bytes, which is at
/// most `cap`, ends them with a terminator, and leaves every byte from `cap`
/// on as it was.
pub proof fn lemma_copy_stays_in_room(dst: Seq<u8>, cap: nat, src: Seq<u8>)
    requires
        0 < cap <= dst.len(),
    ensures
        ({
            let k = if src.len() < cap - 1 { src.len() } else { (cap - 1) as nat };
            let out = bounded_copy(dst, cap, src);
            &&& k + 1 <= cap
            &&& out.len() == dst.len()
            &&& out.subrange(0, k as int) == src.subrange(0, k as int)
            &&& out[k as int] == 0u8
            &&& out.subrange((k + 1) as int, dst.len() as int) == dst.subrange(
                (k + 1) as int,
                dst.len() as int,
            )
            &&& out.subrange(cap as int, dst.len() as int) == dst.subrange(
                cap as int,
                dst.len() as int,
            )
        }),
{
    let k = if src.len() < cap - 1 { src.len() } else { (cap - 1) as nat };
    let out = bounded_copy(dst, cap, src);
    assert(out.subrange(0, k as int) =~= src.subrange(0, k as int));
    assert(out.subrange((k + 1) as int, dst.len() as int) =~= dst.subrange(
        (k + 1) as int,
        dst.len() as int,
    ));
    assert(out.subrange(cap as int, dst.len() as int) =~= dst.subrange(
        cap as int,
        dst.len() as int,
    ));
}

/// Copies `in_rust` into the `out_c_cap` bytes at `out_c` the way the
/// truncating C idiom does: always terminated when there is room, truncated
/// where needed, never past `out_c_cap`. Returns the room the whole text
/// needs with its terminator; above `out_c_cap`, the copy was truncated.
pub fn strlcpy<'a>(out_c: MutPtr<'a, u8>, in_rust: &str, out_c_cap: usize) -> (r: usize)
    requires
        out_c.region() is None ==> out_c_cap == 0,
        out_c.region() matches Some(m) ==> out_c_cap <= m@.len(),
        encode_utf8(in_rust@).len() < usize::MAX,
    ensures
        r == encode_utf8(in_rust@).len() + 1,
        out_c.region() matches Some(m) ==> final(m)@ == bounded_copy(
            m@,
            out_c_cap as nat,
            encode_utf8(in_rust@),
        ),
        out_c.region() matches Some(m) ==> out_c_cap == 0 ==> final(m)@ == m@,
        out_c.region() matches Some(m) ==> final(m)@.subrange(out_c_cap as int, m@.len() as int)
            == m@.subrange(out_c_cap as int, m@.len() as int),
{
    let ghost region = out_c.region();
    let bytes = in_rust.as_bytes();
    let out = out_c.as_slice_mut(out_c_cap);
    if out.len() == 0 {
        return bytes.len() + 1;
    }
    let copy_lim: usize = if bytes.len() < out.len() - 1 {
        bytes.len()
    } else {
        out.len() - 1
    };
    let ghost start = out@;
    let mut i: usize = 0;
    while i < copy_lim
        invariant
            out@.len() == out_c_cap,
            start.len() == out_c_cap,
            copy_lim < out_c_cap,
            copy_lim <= bytes@.len(),
            i <= copy_lim,
            out@ == bytes@.subrange(0, i as int) + start.subrange(i as int, out_c_cap as int),
            region matches Some(m) ==> final(m)@ == final(out)@ + m@.subrange(out_c_cap as int, m@.len() as int),
        decreases copy_lim - i,
    {
        out[i] = bytes[i];
        i = i + 1;
        assert(out@ =~= bytes@.subrange(0, i as int) + start.subrange(i as int, out_c_cap as int));
    }
    out[copy_lim] = 0;
    bytes.len() + 1
}

} // verus!
