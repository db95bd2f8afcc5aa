//! Lump names and archive signatures: fixed-size byte fields shown as text.

use vstd::prelude::*;
use vstd::utf8::{
    decode_utf8, encode_scalar, encode_utf8, encode_utf8_decode_utf8, encode_utf8_valid_utf8,
    has_width_1_encoding, valid_utf8,
};

verus! {

/// What `String::from_utf8_lossy` makes of the bytes `b`.
pub uninterp spec fn lossy_of(b: Seq<u8>) -> Seq<char>;

/// Relies on `String::from_utf8_lossy`: the text depends on the bytes alone,
/// and valid UTF-8 is decoded unchanged.
#[verifier::external_body]
fn lossy_text(b: &[u8]) -> (r: String)
    ensures
        r@ == lossy_of(b@),
        valid_utf8(b@) ==> r@ == decode_utf8(b@),
{
    String::from_utf8_lossy(b).into_owned()
}

#[derive(Debug)]
pub enum LumpNameError {
    TooLarge,
}

/// `b` followed by zero bytes up to a length of eight.
pub open spec fn zero_padded(b: Seq<u8>) -> Seq<u8> {
    b + Seq::new((8 - b.len()) as nat, |i: int| 0u8)
}

/// `b` without its trailing zero bytes.
pub open spec fn trim_zeros(b: Seq<u8>) -> Seq<u8>
    decreases b.len(),
{
    if b.len() > 0 && b.last() == 0 {
        trim_zeros(b.drop_last())
    } else {
        b
    }
}

/// An eight-byte lump name: short ASCII text, NUL-padded on the right.
#[derive(Debug)]
pub struct LumpName(pub [u8; 8]);

impl LumpName {
    /// Stores the UTF-8 bytes of `str` left-aligned and zero-filled; text of
    /// more than eight bytes does not fit.
    pub fn from_string(str: String) -> (r: Result<LumpName, LumpNameError>)
        ensures
            encode_utf8(str@).len() > 8 <==> r is Err,
            r matches Ok(n) ==> n.0@ == zero_padded(encode_utf8(str@)),
    {
        let b = str.as_str().as_bytes();
        if b.len() > 8 {
            Err(LumpNameError::TooLarge)
        } else {
            let mut buf = [0u8; 8];
            let mut i: usize = 0;
            while i < b.len()
                invariant
                    b@ == encode_utf8(str@),
                    b@.len() <= 8,
                    i <= b@.len(),
                    forall|k: int| 0 <= k < i ==> buf@[k] == b@[k],
                    forall|k: int| i <= k < 8 ==> buf@[k] == 0u8,
                decreases b@.len() - i,
            {
                buf[i] = b[i];
                i = i + 1;
            }
            assert(buf@ =~= zero_padded(b@));
            Ok(LumpName(buf))
        }
    }

    /// The name as text. Stripping zero bytes before decoding equals stripping
    /// NULs after it: only a zero byte decodes to NUL, and it always does.
    pub fn to_string(&self) -> (r: String)
        ensures
            r@ == lossy_of(trim_zeros(self.0@)),
            valid_utf8(trim_zeros(self.0@)) ==> r@ == decode_utf8(trim_zeros(self.0@)),
    {
        let all = self.0.as_slice();
        let mut n: usize = 8;
        assert(all@.subrange(0, 8) =~= self.0@);
        while n > 0 && all[n - 1] == 0
            invariant
                n <= 8,
                all@ == self.0@,
                trim_zeros(all@.subrange(0, n as int)) == trim_zeros(self.0@),
            decreases n,
        {
            assert(all@.subrange(0, n as int).drop_last() =~= all@.subrange(0, n - 1));
            n = n - 1;
        }
        let (kept, _) = all.split_at(n);
        assert(kept@ =~= trim_zeros(self.0@));
        lossy_text(kept)
    }
}

/// The four magic bytes that open an archive.
#[derive(Debug)]
pub struct Signature(pub [u8; 4]);

impl Signature {
    /// The signature as text; malformed bytes become replacement characters.
    pub fn to_string(&self) -> (r: String)
        ensures
            r@ == lossy_of(self.0@),
            valid_utf8(self.0@) ==> r@ == decode_utf8(self.0@),
    {
        lossy_text(self.0.as_slice())
    }
}

/// Appending zero bytes to bytes that do not end in zero is undone by
/// `trim_zeros`.
proof fn lemma_trim_padding(b: Seq<u8>, k: nat)
    requires
        b.len() == 0 || b.last() != 0,
    ensures
        trim_zeros(b + Seq::new(k, |i: int| 0u8)) == b,
    decreases k,
{
    let padded = b + Seq::new(k, |i: int| 0u8);
    if k == 0 {
        assert(padded =~= b);
    } else {
        assert(padded.drop_last() =~= b + Seq::new((k - 1) as nat, |i: int| 0u8));
        lemma_trim_padding(b, (k - 1) as nat);
    }
}

/// The UTF-8 encoding of a character other than NUL ends in a non-zero byte.
proof fn lemma_scalar_ends_nonzero(c: char)
    requires
        c != '\0',
    ensures
        encode_scalar(c as u32).len() > 0,
        encode_scalar(c as u32).last() != 0,
{
    let v = c as u32;
    assert(v != 0);
    if has_width_1_encoding(v) {
        assert((v & 0x7F) as u8 != 0) by (bit_vector)
            requires
                v != 0 && v <= 0x7F,
        ;
    } else {
        assert(0x80 | (v & 0x3F) as u8 != 0) by (bit_vector);
    }
}

/// The UTF-8 encoding of non-empty text without NUL ends in a non-zero byte.
proof fn lemma_encoding_ends_nonzero(s: Seq<char>)
    requires
        s.len() > 0,
        forall|i: int| 0 <= i < s.len() ==> s[i] != '\0',
    ensures
        encode_utf8(s).len() > 0,
        encode_utf8(s).last() != 0,
    decreases s.len(),
{
    let rest = s.drop_first();
    lemma_scalar_ends_nonzero(s[0]);
    if rest.len() == 0 {
        assert(encode_utf8(rest) =~= Seq::<u8>::empty());
        assert(encode_utf8(s) =~= encode_scalar(s[0] as u32));
    } else {
        lemma_encoding_ends_nonzero(rest);
    }
}

/// Storing text of at most eight bytes without NUL as a lump name and showing
/// the name again gives back the same text: the padding is not visible.
pub proof fn lemma_name_round_trip(s: Seq<char>)
    requires
        encode_utf8(s).len() <= 8,
        !s.contains('\0'),
    ensures
        valid_utf8(trim_zeros(zero_padded(encode_utf8(s)))),
        decode_utf8(trim_zeros(zero_padded(encode_utf8(s)))) == s,
{
    let b = encode_utf8(s);
    if s.len() > 0 {
        assert forall|i: int| 0 <= i < s.len() implies s[i] != '\0' by {
            if s[i] == '\0' {
                assert(s.contains('\0'));
            }
        }
        lemma_encoding_ends_nonzero(s);
    } else {
        assert(b =~= Seq::<u8>::empty());
    }
    lemma_trim_padding(b, (8 - b.len()) as nat);
    encode_utf8_valid_utf8(s);
    encode_utf8_decode_utf8(s);
}

} // verus!
