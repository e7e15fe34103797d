use vstd::arithmetic::power2::{lemma2_to64, pow2};
use vstd::bits::lemma_u8_shr_is_div;
use vstd::prelude::*;
use vstd::string::{is_ascii_spec_bytes, StringSliceAdditionalSpecFns};

verus! {

/// Bit `i` of `b`, counting from the least significant bit as bit 0.
pub open spec fn bit_of(b: u8, i: nat) -> bool {
    (b as nat / pow2(i)) % 2 == 1
}

/// Reads bit `index` of `input` (bit 0 is the least significant).
fn bit_value(input: u8, index: u32) -> (r: bool)
    requires
        index < 8,
    ensures
        r == bit_of(input, index as nat),
{
    let r = input & (1u8 << index) != 0;
    proof {
        let s = index as u8;
        assert(((input & (1u8 << s)) != 0) == ((input >> s) & 1u8 == 1u8)) by (bit_vector)
            requires
                s < 8,
        ;
        assert((input >> s) & 1u8 == (input >> s) % 2) by (bit_vector);
        lemma_u8_shr_is_div(input, s);
    }
    r
}

/// An ASCII letter: `A` to `Z` (65 to 90) or `a` to `z` (97 to 122).
pub open spec fn is_letter(b: u8) -> bool {
    (65 <= b <= 90) || (97 <= b <= 122)
}

/// Every byte of `s` is an ASCII letter.
pub open spec fn all_letters(s: Seq<u8>) -> bool {
    forall|i: int| 0 <= i < s.len() ==> #[trigger] is_letter(s[i])
}

/// An ASCII letter as a character.
pub open spec fn is_letter_char(c: char) -> bool {
    ('A' <= c <= 'Z') || ('a' <= c <= 'z')
}

/// Text that names a tag: exactly four ASCII letters.
pub open spec fn valid_text(t: Seq<char>) -> bool {
    &&& t.len() == 4
    &&& forall|i: int| 0 <= i < 4 ==> #[trigger] is_letter_char(t[i])
}

/// Each byte read as the character with that code.
pub open spec fn text_of(b: Seq<u8>) -> Seq<char> {
    b.map_values(|x: u8| x as char)
}

/// The case bit of an ASCII letter: set for lower case, clear for upper case.
pub open spec fn case_bit(b: u8) -> bool {
    bit_of(b, 5)
}

/// Relies on `String::push`, which appends one character to the string.
pub assume_specification[ String::push ](string: &mut String, ch: char)
    ensures
        final(string)@ == old(string)@.push(ch),
;

/// The only way constructing a tag fails.
#[derive(PartialEq, Eq, Structural, Debug, Clone, Copy)]
pub enum ChunkTypeError {
    /// The input is not exactly four ASCII letters.
    MalformedTag,
}

/// A four-byte chunk type tag made of ASCII letters. The case of each byte
/// carries one flag: ancillary, private, reserved and safe to copy.
#[derive(PartialEq, Eq, Structural, Debug, Clone, Copy)]
pub struct ChunkType {
    ancillary: u8,
    private: u8,
    reserved: u8,
    safe: u8,
}

impl View for ChunkType {
    type V = Seq<u8>;

    closed spec fn view(&self) -> Seq<u8> {
        seq![self.ancillary, self.private, self.reserved, self.safe]
    }
}

/// The tag that holds the four bytes of `b`.
spec fn tag_of(b: Seq<u8>) -> ChunkType {
    ChunkType { ancillary: b[0], private: b[1], reserved: b[2], safe: b[3] }
}

/// Whether every byte of `input` is an ASCII letter.
fn valid_bytes(input: &[u8]) -> (r: bool)
    ensures
        r == all_letters(input@),
{
    let mut k: usize = 0;
    while k < input.len()
        invariant
            k <= input@.len(),
            forall|i: int| 0 <= i < k ==> #[trigger] is_letter(input@[i]),
        decreases input@.len() - k,
    {
        let b = input[k];
        if !((b >= 65 && b <= 90) || (b >= 97 && b <= 122)) {
            assert(!is_letter(input@[k as int]));
            return false;
        }
        k = k + 1;
    }
    true
}

impl ChunkType {
    #[verifier::type_invariant]
    spec fn inv(&self) -> bool {
        all_letters(self@)
    }

    /// The four stored bytes, in order; all are ASCII letters.
    pub fn bytes(&self) -> (r: [u8; 4])
        ensures
            r@ == self@,
            all_letters(r@),
    {
        proof {
            use_type_invariant(self);
        }
        let r = [self.ancillary, self.private, self.reserved, self.safe];
        assert(r@ =~= self@);
        r
    }

    /// Whether all four stored bytes are ASCII letters; always so for a tag.
    pub fn is_valid(&self) -> (r: bool)
        ensures
            r == all_letters(self@),
            r,
    {
        proof {
            use_type_invariant(self);
        }
        let b = self.bytes();
        valid_bytes(&b)
    }

    /// Critical unless the first byte has its case bit set (lower case).
    pub fn is_critical(&self) -> (r: bool)
        ensures
            r == !case_bit(self@[0]),
    {
        !bit_value(self.ancillary, 5)
    }

    /// Public unless the second byte has its case bit set (lower case).
    pub fn is_public(&self) -> (r: bool)
        ensures
            r == !case_bit(self@[1]),
    {
        !bit_value(self.private, 5)
    }

    /// The third byte conforms to convention when its case bit is clear
    /// (upper case).
    pub fn is_reserved_bit_valid(&self) -> (r: bool)
        ensures
            r == !case_bit(self@[2]),
    {
        !bit_value(self.reserved, 5)
    }

    /// Safe to copy when the fourth byte has its case bit set (lower case).
    pub fn is_safe_to_copy(&self) -> (r: bool)
        ensures
            r == case_bit(self@[3]),
    {
        bit_value(self.safe, 5)
    }

    /// The tag as text: each byte read as the character with that code.
    pub fn to_string(&self) -> (r: String)
        ensures
            r@ == text_of(self@),
    {
        let mut s = String::new();
        s.push(self.ancillary as char);
        s.push(self.private as char);
        s.push(self.reserved as char);
        s.push(self.safe as char);
        assert(s@ =~= text_of(self@));
        s
    }

    /// Builds a tag from four bytes; fails unless all four are ASCII letters.
    pub fn from_bytes(bytes: [u8; 4]) -> (r: Result<ChunkType, ChunkTypeError>)
        ensures
            r is Ok <==> all_letters(bytes@),
            r matches Ok(t) ==> t@ == bytes@,
            r matches Err(e) ==> e == ChunkTypeError::MalformedTag,
    {
        if valid_bytes(&bytes) {
            let t = ChunkType {
                ancillary: bytes[0],
                private: bytes[1],
                reserved: bytes[2],
                safe: bytes[3],
            };
            assert(t@ =~= bytes@);
            Ok(t)
        } else {
            Err(ChunkTypeError::MalformedTag)
        }
    }

    /// Builds a tag from text; fails unless it is exactly four ASCII letters.
    pub fn from_text(s: &str) -> (r: Result<ChunkType, ChunkTypeError>)
        ensures
            r is Ok <==> valid_text(s@),
            r matches Ok(t) ==> text_of(t@) == s@ && t@ == s.spec_bytes(),
            r matches Err(e) ==> e == ChunkTypeError::MalformedTag,
    {
        broadcast use is_ascii_spec_bytes;

        proof {
            if valid_text(s@) {
                assert forall|i: int| 0 <= i < s@.len() implies '\0' <= #[trigger] s@[i] <= '\u{7f}' by {
                    assert(is_letter_char(s@[i]));
                }
            }
        }
        if !s.is_ascii() {
            return Err(ChunkTypeError::MalformedTag);
        }
        let b = s.as_bytes();
        if b.len() != 4 {
            return Err(ChunkTypeError::MalformedTag);
        }
        proof {
            if valid_text(s@) {
                assert forall|i: int| 0 <= i < b@.len() implies #[trigger] is_letter(b@[i]) by {
                    assert(is_letter_char(s@[i]));
                }
            }
        }
        if !valid_bytes(b) {
            return Err(ChunkTypeError::MalformedTag);
        }
        let t = ChunkType { ancillary: b[0], private: b[1], reserved: b[2], safe: b[3] };
        assert(text_of(t@) =~= s@);
        assert(t@ =~= b@);
        Ok(t)
    }
}

impl TryFrom<[u8; 4]> for ChunkType {
    type Error = ChunkTypeError;

    fn try_from(value: [u8; 4]) -> (r: Result<Self, Self::Error>)
        ensures
            r is Ok <==> all_letters(value@),
            r matches Ok(t) ==> t@ == value@,
            r matches Err(e) ==> e == ChunkTypeError::MalformedTag,
    {
        let r = ChunkType::from_bytes(value);
        proof {
            if let Ok(t) = r {
                assert(t == tag_of(value@));
            }
        }
        r
    }
}

impl vstd::std_specs::convert::TryFromSpecImpl<[u8; 4]> for ChunkType {
    open spec fn obeys_try_from_spec() -> bool {
        true
    }

    closed spec fn try_from_spec(v: [u8; 4]) -> Result<Self, Self::Error> {
        if all_letters(v@) {
            Ok(tag_of(v@))
        } else {
            Err(ChunkTypeError::MalformedTag)
        }
    }
}

impl core::str::FromStr for ChunkType {
    type Err = ChunkTypeError;

    fn from_str(s: &str) -> (r: Result<Self, Self::Err>)
        ensures
            r is Ok <==> valid_text(s@),
            r matches Ok(t) ==> text_of(t@) == s@ && t@ == s.spec_bytes(),
            r matches Err(e) ==> e == ChunkTypeError::MalformedTag,
    {
        ChunkType::from_text(s)
    }
}

/// Two tags are equal exactly when their four bytes are equal.
pub proof fn lemma_eq_iff_bytes(a: ChunkType, b: ChunkType)
    ensures
        (a == b) <==> (a@ == b@),
{
    if a@ == b@ {
        assert(a.ancillary == a@[0] && b.ancillary == b@[0]);
        assert(a.private == a@[1] && b.private == b@[1]);
        assert(a.reserved == a@[2] && b.reserved == b@[2]);
        assert(a.safe == a@[3] && b.safe == b@[3]);
    }
}

/// Reading bytes as characters loses nothing: equal texts come from equal
/// bytes.
pub proof fn lemma_text_of_injective(a: Seq<u8>, b: Seq<u8>)
    requires
        text_of(a) == text_of(b),
    ensures
        a == b,
{
    assert(a.len() == text_of(a).len());
    assert forall|i: int| 0 <= i < a.len() implies a[i] == b[i] by {
        assert(text_of(a)[i] == text_of(b)[i]);
        assert(text_of(a)[i] == a[i] as char && text_of(b)[i] == b[i] as char);
        assert((a[i] as char) as int == a[i] as int);
        assert((b[i] as char) as int == b[i] as int);
    }
    assert(a =~= b);
}

/// Text round trip. Let `t` be the tag built from the text `x`, so that
/// `x` is the text of `t`. Then the text of `t` is again valid tag text,
/// and the tag `u` built from it is `t` itself.
pub proof fn lemma_text_round_trip(x: Seq<char>, t: ChunkType, u: ChunkType)
    requires
        valid_text(x),
        text_of(t@) == x,
        text_of(u@) == text_of(t@),
    ensures
        valid_text(text_of(t@)),
        u == t,
{
    lemma_text_of_injective(u@, t@);
    lemma_eq_iff_bytes(u, t);
}

/// For an ASCII letter the case bit is clear exactly when it is upper case.
pub proof fn lemma_case_bit_upper(b: u8)
    requires
        is_letter(b),
    ensures
        !case_bit(b) <==> 65 <= b <= 90,
{
    lemma2_to64();
    assert(((b >> 5u8) & 1u8 == 0u8) <==> (65 <= b <= 90)) by (bit_vector)
        requires
            (65 <= b <= 90) || (97 <= b <= 122),
    ;
    assert((b >> 5u8) & 1u8 == (b >> 5u8) % 2) by (bit_vector);
    lemma_u8_shr_is_div(b, 5);
}

} // verus!
