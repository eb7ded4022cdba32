//! The two outside encodings the library leans on: base64 (pictures and
//! audio carried as text) and UUIDs (the names files are stored under).

use vstd::prelude::*;

use base64::Engine;

verus! {

/// The characters standard base64 writes: its alphabet, and `=` padding.
pub open spec fn is_base64_char(c: char) -> bool {
    ||| 'A' <= c <= 'Z'
    ||| 'a' <= c <= 'z'
    ||| '0' <= c <= '9'
    ||| c == '+'
    ||| c == '/'
    ||| c == '='
}

/// The character for the six bits `v` in the standard alphabet: `A`-`Z`,
/// `a`-`z`, `0`-`9`, `+`, `/`.
pub open spec fn sextet_char(v: int) -> char {
    if v < 26 {
        (65 + v) as char
    } else if v < 52 {
        (97 + (v - 26)) as char
    } else if v < 62 {
        (48 + (v - 52)) as char
    } else if v == 62 {
        '+'
    } else {
        '/'
    }
}

/// Padded standard base64: every three bytes as four characters of six
/// bits each, high bits first; a last one or two bytes as two or three
/// characters, the missing bits zero, padded with `=` to four.
pub open spec fn base64_encoded(bytes: Seq<u8>) -> Seq<char>
    decreases bytes.len(),
{
    if bytes.len() == 0 {
        Seq::<char>::empty()
    } else if bytes.len() == 1 {
        let b0 = bytes[0] as int;
        seq![sextet_char(b0 / 4), sextet_char((b0 % 4) * 16), '=', '=']
    } else if bytes.len() == 2 {
        let b0 = bytes[0] as int;
        let b1 = bytes[1] as int;
        seq![
            sextet_char(b0 / 4),
            sextet_char((b0 % 4) * 16 + b1 / 16),
            sextet_char((b1 % 16) * 4),
            '=',
        ]
    } else {
        let b0 = bytes[0] as int;
        let b1 = bytes[1] as int;
        let b2 = bytes[2] as int;
        seq![
            sextet_char(b0 / 4),
            sextet_char((b0 % 4) * 16 + b1 / 16),
            sextet_char((b1 % 16) * 4 + b2 / 64),
            sextet_char(b2 % 64),
        ] + base64_encoded(bytes.skip(3))
    }
}

proof fn lemma_sextet_char(v: int)
    requires
        0 <= v < 64,
    ensures
        is_base64_char(sextet_char(v)),
{
}

proof fn lemma_sextet_char_injective(v: int, w: int)
    requires
        0 <= v < 64,
        0 <= w < 64,
        sextet_char(v) == sextet_char(w),
    ensures
        v == w,
        sextet_char(v) != '=',
{
}

proof fn lemma_group_bytes(a0: int, a1: int, a2: int, b0: int, b1: int, b2: int)
    requires
        0 <= a0 < 256,
        0 <= a1 < 256,
        0 <= a2 < 256,
        0 <= b0 < 256,
        0 <= b1 < 256,
        0 <= b2 < 256,
        a0 / 4 == b0 / 4,
        (a0 % 4) * 16 + a1 / 16 == (b0 % 4) * 16 + b1 / 16,
    ensures
        a0 == b0,
        a1 / 16 == b1 / 16,
        (a1 % 16) * 4 + a2 / 64 == (b1 % 16) * 4 + b2 / 64 ==> a1 == b1 && a2 / 64 == b2 / 64,
        (a1 % 16) * 4 == (b1 % 16) * 4 ==> a1 / 16 == b1 / 16 ==> a1 == b1,
        a1 / 16 == b1 / 16 && (a1 % 16) * 4 + a2 / 64 == (b1 % 16) * 4 + b2 / 64 && a2 % 64 == b2
            % 64 ==> a1 == b1 && a2 == b2,
{
}

/// The first group of characters the text starts with, as the first bytes
/// give it.
proof fn lemma_group_chars(a: Seq<u8>)
    requires
        a.len() > 0,
    ensures
        ({
            let e = base64_encoded(a);
            let a0 = a[0] as int;
            let a1 = if a.len() >= 2 { a[1] as int } else { 0 };
            let a2 = if a.len() >= 3 { a[2] as int } else { 0 };
            &&& e.len() >= 4
            &&& e[0] == sextet_char(a0 / 4)
            &&& e[1] == sextet_char((a0 % 4) * 16 + a1 / 16)
            &&& a.len() == 1 ==> e[2] == '=' && e[3] == '='
            &&& a.len() >= 2 ==> e[2] == sextet_char((a1 % 16) * 4 + a2 / 64)
            &&& a.len() == 2 ==> e[3] == '='
            &&& a.len() >= 3 ==> e[3] == sextet_char(a2 % 64)
        }),
{
}

/// Different bytes never give the same text.
pub proof fn lemma_base64_injective(a: Seq<u8>, b: Seq<u8>)
    requires
        base64_encoded(a) == base64_encoded(b),
    ensures
        a == b,
    decreases a.len(),
{
    lemma_base64_shape(a);
    lemma_base64_shape(b);
    let e = base64_encoded(a);
    if a.len() == 0 || b.len() == 0 {
        assert(a.len() == 0 && b.len() == 0);
        assert(a =~= b);
    } else {
        let a0 = a[0] as int;
        let b0 = b[0] as int;
        let a1 = if a.len() >= 2 { a[1] as int } else { 0 };
        let b1 = if b.len() >= 2 { b[1] as int } else { 0 };
        let a2 = if a.len() >= 3 { a[2] as int } else { 0 };
        let b2 = if b.len() >= 3 { b[2] as int } else { 0 };
        lemma_group_chars(a);
        lemma_group_chars(b);
        lemma_sextet_char_injective(a0 / 4, b0 / 4);
        lemma_sextet_char_injective((a0 % 4) * 16 + a1 / 16, (b0 % 4) * 16 + b1 / 16);
        if a.len() == 1 || b.len() == 1 {
            if a.len() >= 2 {
                lemma_sextet_char_injective((a1 % 16) * 4 + a2 / 64, 0);
            }
            if b.len() >= 2 {
                lemma_sextet_char_injective((b1 % 16) * 4 + b2 / 64, 0);
            }
            assert(a.len() == 1 && b.len() == 1);
            lemma_group_bytes(a0, a1, a2, b0, b1, b2);
            assert(a =~= b);
        } else {
            lemma_sextet_char_injective((a1 % 16) * 4 + a2 / 64, (b1 % 16) * 4 + b2 / 64);
            if a.len() == 2 || b.len() == 2 {
                if a.len() >= 3 {
                    lemma_sextet_char_injective(a2 % 64, 0);
                }
                if b.len() >= 3 {
                    lemma_sextet_char_injective(b2 % 64, 0);
                }
                assert(a.len() == 2 && b.len() == 2);
                lemma_group_bytes(a0, a1, a2, b0, b1, b2);
                assert(a =~= b);
            } else {
                lemma_sextet_char_injective(a2 % 64, b2 % 64);
                lemma_group_bytes(a0, a1, a2, b0, b1, b2);
                let ra = a.skip(3);
                let rb = b.skip(3);
                assert(base64_encoded(ra) =~= e.skip(4));
                assert(base64_encoded(rb) =~= base64_encoded(b).skip(4));
                lemma_base64_injective(ra, rb);
                assert(a =~= b) by {
                    assert forall|k: int| 0 <= k < a.len() implies a[k] == b[k] by {
                        if k >= 3 {
                            assert(a[k] == ra[k - 3]);
                            assert(b[k] == rb[k - 3]);
                        }
                    }
                }
            }
        }
    }
}

/// The text is four characters for every three bytes or part of three, all
/// of them from the alphabet or padding.
pub proof fn lemma_base64_shape(bytes: Seq<u8>)
    ensures
        base64_encoded(bytes).len() == (bytes.len() + 2) / 3 * 4,
        forall|i: int|
            0 <= i < base64_encoded(bytes).len() ==> is_base64_char(
                #[trigger] base64_encoded(bytes)[i],
            ),
    decreases bytes.len(),
{
    let e = base64_encoded(bytes);
    if bytes.len() == 0 {
    } else if bytes.len() <= 2 {
        let b0 = bytes[0] as int;
        lemma_sextet_char(b0 / 4);
        if bytes.len() == 1 {
            lemma_sextet_char((b0 % 4) * 16);
        } else {
            let b1 = bytes[1] as int;
            lemma_sextet_char((b0 % 4) * 16 + b1 / 16);
            lemma_sextet_char((b1 % 16) * 4);
        }
    } else {
        let b0 = bytes[0] as int;
        let b1 = bytes[1] as int;
        let b2 = bytes[2] as int;
        lemma_sextet_char(b0 / 4);
        lemma_sextet_char((b0 % 4) * 16 + b1 / 16);
        lemma_sextet_char((b1 % 16) * 4 + b2 / 64);
        lemma_sextet_char(b2 % 64);
        let rest = bytes.skip(3);
        lemma_base64_shape(rest);
        let r = base64_encoded(rest);
        assert forall|i: int| 0 <= i < e.len() implies is_base64_char(#[trigger] e[i]) by {
            if i >= 4 {
                assert(e[i] == r[i - 4]);
            }
        }
    }
}

/// What the standard engine reads `text` as: the bytes whose padded
/// encoding it is, and nothing for any other text. The engine insists on
/// canonical padding and on zero trailing bits, so no other text is read.
pub open spec fn base64_decoded(text: Seq<char>) -> Option<Seq<u8>> {
    if exists|b: Seq<u8>| base64_encoded(b) == text {
        Some(choose|b: Seq<u8>| base64_encoded(b) == text)
    } else {
        None
    }
}

/// Text that encodes `b` reads back as `b`.
pub proof fn lemma_decoded_encoded(b: Seq<u8>, text: Seq<char>)
    requires
        base64_encoded(b) == text,
    ensures
        base64_decoded(text) == Some(b),
{
    let c = choose|c: Seq<u8>| base64_encoded(c) == text;
    lemma_base64_injective(c, b);
}

/// How the engine describes what is wrong with `text` that it turns away.
pub uninterp spec fn base64_error_text(text: Seq<char>) -> Seq<char>;

/// `base64::engine::general_purpose::STANDARD.encode`: the bytes as padded
/// standard base64, as `base64_encoded` spells it out.
#[verifier::external_body]
fn engine_encode(bytes: &[u8]) -> (r: String)
    requires
        bytes@.len() <= usize::MAX / 2,
    ensures
        r@ == base64_encoded(bytes@),
{
    base64::engine::general_purpose::STANDARD.encode(bytes)
}

/// The bytes as padded standard base64.
pub fn base64_encode(bytes: &[u8]) -> (r: String)
    requires
        bytes@.len() <= usize::MAX / 2,
    ensures
        r@ == base64_encoded(bytes@),
        well_encoded(bytes@),
{
    proof {
        lemma_base64_shape(bytes@);
        lemma_decoded_encoded(bytes@, base64_encoded(bytes@));
    }
    engine_encode(bytes)
}

/// What is known of the engine's text for `bytes`: whole groups of four,
/// alphabet and padding only, and read back as `bytes`.
pub open spec fn well_encoded(bytes: Seq<u8>) -> bool {
    let e = base64_encoded(bytes);
    &&& e.len() == (bytes.len() + 2) / 3 * 4
    &&& forall|i: int| 0 <= i < e.len() ==> is_base64_char(#[trigger] e[i])
    &&& base64_decoded(e) == Some(bytes)
}

/// `base64::engine::general_purpose::STANDARD.decode`: the bytes whose
/// padded standard encoding `text` is; any other text is turned away, with
/// the engine's description of what is wrong (its `Display`).
#[verifier::external_body]
pub fn base64_decode(text: &str) -> (r: Result<Vec<u8>, String>)
    ensures
        match r {
            Ok(v) => base64_encoded(v@) == text@,
            Err(e) => base64_decoded(text@) is None && e@ == base64_error_text(text@),
        },
{
    base64::engine::general_purpose::STANDARD.decode(text).map_err(|e| e.to_string())
}

pub open spec fn is_hex_digit(c: char) -> bool {
    ||| '0' <= c <= '9'
    ||| 'a' <= c <= 'f'
    ||| 'A' <= c <= 'F'
}

/// The hyphenated UUID shape: 36 characters, hyphens at 8, 13, 18 and 23,
/// hex digits everywhere else.
pub open spec fn is_hyphenated_uuid(s: Seq<char>) -> bool {
    &&& s.len() == 36
    &&& forall|i: int|
        0 <= i < 36 ==> if i == 8 || i == 13 || i == 18 || i == 23 {
            #[trigger] s[i] == '-'
        } else {
            is_hex_digit(s[i])
        }
}

/// `uuid::Uuid::parse_str` on a 36-character ASCII string, which it reads
/// as the hyphenated form: `true` when it parses.
#[verifier::external_body]
pub fn uuid_parses(s: &str) -> (r: bool)
    requires
        s@.len() == 36,
        forall|i: int| 0 <= i < 36 ==> (#[trigger] s@[i] as u32) < 0x80,
    ensures
        r == is_hyphenated_uuid(s@),
{
    uuid::Uuid::parse_str(s).is_ok()
}

/// A lowercase hyphenated UUID.
pub open spec fn is_lower_uuid(s: Seq<char>) -> bool {
    &&& s.len() == 36
    &&& forall|i: int|
        0 <= i < 36 ==> if i == 8 || i == 13 || i == 18 || i == 23 {
            #[trigger] s[i] == '-'
        } else {
            ('0' <= s[i] <= '9') || ('a' <= s[i] <= 'f')
        }
}

/// `uuid::Uuid::new_v4().to_string()`: a fresh random UUID, written the way
/// `Uuid`'s `Display` writes one, hyphenated and in lower case. Which one
/// it is, is chance.
#[verifier::external_body]
pub fn new_uuid_text() -> (r: String)
    ensures
        is_lower_uuid(r@),
{
    uuid::Uuid::new_v4().to_string()
}

/// `uuid::Uuid::new_v4().simple().to_string()`: a fresh random UUID as 32
/// lowercase hex digits.
#[verifier::external_body]
pub fn new_uuid_simple_text() -> (r: String)
    ensures
        r@.len() == 32,
        forall|i: int| 0 <= i < 32 ==> ('0' <= #[trigger] r@[i] <= '9') || ('a' <= r@[i] <= 'f'),
{
    uuid::Uuid::new_v4().simple().to_string()
}

} // verus!
