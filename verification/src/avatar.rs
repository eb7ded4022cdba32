//! Character avatars: small square pictures stored as files under names
//! minted here — a fresh lowercase UUID plus the extension of the format
//! the bytes really are — so a stored value not shaped like one reaches
//! nothing outside the folder. Reading and writing the files is the app's.

use vstd::prelude::*;

use crate::encoding::{
    base64_decode, base64_decoded, base64_encode, base64_error_text, base64_encoded, is_base64_char,
    is_hyphenated_uuid, is_lower_uuid, new_uuid_text, uuid_parses, well_encoded,
};
use crate::i18n::{tr, Lang};
use crate::text::{
    chars_of, decimal, extend_chars, extend_str, push_decimal, string_of, trim, trim_chars,
};

verus! {

pub const DIR_NAME: &'static str = "avatars";

/// Well above anything the app produces itself, with room for a picture
/// carried in from a backup.
pub const MAX_BYTES: usize = 5 * 1024 * 1024;

#[derive(Clone, Copy, Debug, PartialEq, Eq, Structural)]
pub enum Format {
    Png,
    Jpeg,
    Webp,
}

/// Whether `b` begins with `p`.
pub open spec fn has_prefix(b: Seq<u8>, p: Seq<u8>) -> bool {
    p.len() <= b.len() && b.take(p.len() as int) == p
}

/// Whether `b` holds `p` from index `at`.
pub open spec fn holds_at(b: Seq<u8>, at: int, p: Seq<u8>) -> bool {
    0 <= at && at + p.len() <= b.len() && b.subrange(at, at + p.len()) == p
}

pub fn holds_at_exec(b: &[u8], at: usize, p: &[u8]) -> (r: bool)
    ensures
        r == holds_at(b@, at as int, p@),
{
    if at > b.len() || p.len() > b.len() - at {
        return false;
    }
    let mut k: usize = 0;
    while k < p.len()
        invariant
            k <= p.len(),
            at + p.len() <= b.len(),
            forall|j: int| 0 <= j < k ==> b@[at + j] == p@[j],
        decreases p.len() - k,
    {
        if b[at + k] != p[k] {
            assert(b@.subrange(at as int, at + p.len())[k as int] != p@[k as int]);
            return false;
        }
        k += 1;
    }
    assert(b@.subrange(at as int, at + p.len()) =~= p@);
    true
}

pub fn has_prefix_exec(b: &[u8], p: &[u8]) -> (r: bool)
    ensures
        r == has_prefix(b@, p@),
{
    let r = holds_at_exec(b, 0, p);
    proof {
        if p@.len() <= b@.len() {
            assert(b@.subrange(0, p@.len() as int) =~= b@.take(p@.len() as int));
        }
    }
    r
}

pub open spec fn png_magic() -> Seq<u8> {
    seq![0x89u8, 0x50, 0x4E, 0x47, 0x0D, 0x0A, 0x1A, 0x0A]
}

pub open spec fn jpeg_magic() -> Seq<u8> {
    seq![0xFFu8, 0xD8, 0xFF]
}

/// `RIFF`.
pub open spec fn riff() -> Seq<u8> {
    seq![0x52u8, 0x49, 0x46, 0x46]
}

/// `WEBP`.
pub open spec fn webp() -> Seq<u8> {
    seq![0x57u8, 0x45, 0x42, 0x50]
}

/// The picture format the bytes are, decided by the bytes alone.
pub open spec fn spec_sniff(b: Seq<u8>) -> Option<Format> {
    if has_prefix(b, png_magic()) {
        Some(Format::Png)
    } else if has_prefix(b, jpeg_magic()) {
        Some(Format::Jpeg)
    } else if b.len() >= 12 && holds_at(b, 0, riff()) && holds_at(b, 8, webp()) {
        Some(Format::Webp)
    } else {
        None
    }
}

pub open spec fn spec_ext(f: Format) -> Seq<char> {
    match f {
        Format::Png => "png"@,
        Format::Jpeg => "jpg"@,
        Format::Webp => "webp"@,
    }
}

pub open spec fn spec_from_ext(ext: Seq<char>) -> Option<Format> {
    if ext == "png"@ {
        Some(Format::Png)
    } else if ext == "jpg"@ {
        Some(Format::Jpeg)
    } else if ext == "webp"@ {
        Some(Format::Webp)
    } else {
        None
    }
}

pub open spec fn spec_mime(f: Format) -> Seq<char> {
    match f {
        Format::Png => "image/png"@,
        Format::Jpeg => "image/jpeg"@,
        Format::Webp => "image/webp"@,
    }
}

impl Format {
    /// Decided by the bytes, never by what the caller claims they are.
    pub fn sniff(bytes: &[u8]) -> (r: Option<Format>)
        ensures
            r == spec_sniff(bytes@),
    {
        let png: [u8; 8] = [0x89u8, 0x50, 0x4E, 0x47, 0x0D, 0x0A, 0x1A, 0x0A];
        let jpeg: [u8; 3] = [0xFFu8, 0xD8, 0xFF];
        let riff_tag: [u8; 4] = [0x52u8, 0x49, 0x46, 0x46];
        let webp_tag: [u8; 4] = [0x57u8, 0x45, 0x42, 0x50];
        assert(png@ =~= png_magic());
        assert(jpeg@ =~= jpeg_magic());
        assert(riff_tag@ =~= riff());
        assert(webp_tag@ =~= webp());
        if has_prefix_exec(bytes, &png) {
            Some(Format::Png)
        } else if has_prefix_exec(bytes, &jpeg) {
            Some(Format::Jpeg)
        } else if bytes.len() >= 12 && holds_at_exec(bytes, 0, &riff_tag) && holds_at_exec(
            bytes,
            8,
            &webp_tag,
        ) {
            Some(Format::Webp)
        } else {
            None
        }
    }

    pub fn ext(self) -> (r: &'static str)
        ensures
            r@ == spec_ext(self),
    {
        match self {
            Format::Png => "png",
            Format::Jpeg => "jpg",
            Format::Webp => "webp",
        }
    }

    pub fn from_ext(ext: &str) -> (r: Option<Format>)
        ensures
            r == spec_from_ext(ext@),
    {
        if crate::text::str_eq(ext, "png") {
            Some(Format::Png)
        } else if crate::text::str_eq(ext, "jpg") {
            Some(Format::Jpeg)
        } else if crate::text::str_eq(ext, "webp") {
            Some(Format::Webp)
        } else {
            None
        }
    }

    pub fn mime(self) -> (r: &'static str)
        ensures
            r@ == spec_mime(self),
    {
        match self {
            Format::Png => "image/png",
            Format::Jpeg => "image/jpeg",
            Format::Webp => "image/webp",
        }
    }
}

/// The part of `name` before its first `.`, and the part after it, as
/// `str::split_once('.')` gives them.
pub open spec fn split_at_dot(name: Seq<char>) -> Option<(Seq<char>, Seq<char>)> {
    if exists|i: int| 0 <= i < name.len() && name[i] == '.' {
        let i = choose|i: int|
            0 <= i < name.len() && name[i] == '.' && forall|k: int| 0 <= k < i ==> name[k] != '.';
        Some((name.take(i), name.skip(i + 1)))
    } else {
        None
    }
}

/// Splits `name` at its first `.`.
pub fn split_once_dot(name: &[char]) -> (r: Option<(Vec<char>, Vec<char>)>)
    ensures
        match r {
            Some((a, b)) => split_at_dot(name@) == Some((a@, b@)),
            None => split_at_dot(name@) is None,
        },
{
    let mut i: usize = 0;
    while i < name.len()
        invariant
            i <= name.len(),
            forall|k: int| 0 <= k < i ==> name@[k] != '.',
        decreases name.len() - i,
    {
        if name[i] == '.' {
            let mut a: Vec<char> = Vec::new();
            let mut j: usize = 0;
            while j < i
                invariant
                    j <= i < name.len(),
                    a@ == name@.take(j as int),
                decreases i - j,
            {
                a.push(name[j]);
                assert(name@.take(j + 1) =~= name@.take(j as int).push(name@[j as int]));
                j += 1;
            }
            let mut b: Vec<char> = Vec::new();
            let mut j: usize = i + 1;
            while j < name.len()
                invariant
                    i + 1 <= j <= name.len(),
                    b@ == name@.subrange(i + 1, j as int),
                decreases name.len() - j,
            {
                b.push(name[j]);
                assert(name@.subrange(i + 1, j + 1) =~= name@.subrange(i + 1, j as int).push(
                    name@[j as int],
                ));
                j += 1;
            }
            proof {
                let w = choose|w: int|
                    0 <= w < name@.len() && name@[w] == '.' && forall|k: int|
                        0 <= k < w ==> name@[k] != '.';
                assert(0 <= i < name@.len() && name@[i as int] == '.' && forall|k: int|
                    0 <= k < i ==> name@[k] != '.');
                assert(w == i) by {
                    if w < i {
                        assert(name@[w] != '.');
                    } else if w > i {
                        assert(name@[i as int] != '.');
                    }
                }
                assert(b@ =~= name@.skip(i + 1));
            }
            return Some((a, b));
        }
        i += 1;
    }
    None
}

/// A lowercase hyphenated UUID and nothing else: the stem of every file
/// name this app mints, for avatars and for voice samples.
pub open spec fn spec_is_minted_stem(stem: Seq<char>) -> bool {
    is_lower_uuid(stem)
}

/// Checked character by character first — lowercase hex and hyphens only,
/// 36 of them — so forms the UUID parser would also take, like `urn:uuid:…`
/// or upper case, are never names; then by the UUID parser itself.
pub fn is_minted_stem(stem: &[char]) -> (r: bool)
    ensures
        r == spec_is_minted_stem(stem@),
{
    if stem.len() != 36 {
        return false;
    }
    let mut i: usize = 0;
    while i < 36
        invariant
            stem.len() == 36,
            i <= 36,
            forall|k: int|
                0 <= k < i ==> ('0' <= #[trigger] stem@[k] <= '9') || ('a' <= stem@[k] <= 'f')
                    || stem@[k] == '-',
        decreases 36 - i,
    {
        let c = stem[i];
        if !(('0' <= c && c <= '9') || ('a' <= c && c <= 'f') || c == '-') {
            return false;
        }
        i += 1;
    }
    let s = string_of(stem);
    assert forall|k: int| 0 <= k < 36 implies (#[trigger] s@[k] as u32) < 0x80 by {
        assert(s@[k] == stem@[k]);
    }
    let parsed = uuid_parses(s.as_str());
    proof {
        if parsed {
            assert forall|k: int| 0 <= k < 36 implies if k == 8 || k == 13 || k == 18 || k == 23 {
                #[trigger] stem@[k] == '-'
            } else {
                ('0' <= stem@[k] <= '9') || ('a' <= stem@[k] <= 'f')
            } by {
                assert(s@[k] == stem@[k]);
            }
        } else {
            if is_lower_uuid(stem@) {
                assert forall|k: int| 0 <= k < 36 implies if k == 8 || k == 13 || k == 18 || k
                    == 23 {
                    #[trigger] s@[k] == '-'
                } else {
                    crate::encoding::is_hex_digit(s@[k])
                } by {
                    assert(s@[k] == stem@[k]);
                }
            }
        }
    }
    parsed
}

/// Whether `name` is one `save` could have minted: a lowercase hyphenated
/// UUID, a dot, and one of the known extensions.
pub open spec fn spec_is_valid_name(name: Seq<char>) -> bool {
    match split_at_dot(name) {
        Some((stem, ext)) => spec_is_minted_stem(stem) && spec_from_ext(ext) is Some,
        None => false,
    }
}

pub fn is_valid_name(name: &str) -> (r: bool)
    ensures
        r == spec_is_valid_name(name@),
{
    let v = chars_of(name);
    match split_once_dot(&v) {
        Some((stem, ext)) => {
            if !is_minted_stem(&stem) {
                return false;
            }
            let e = string_of(&ext);
            Format::from_ext(e.as_str()).is_some()
        },
        None => false,
    }
}

/// `stem.ext`.
pub open spec fn spec_file_name(stem: Seq<char>, ext: Seq<char>) -> Seq<char> {
    stem + "."@ + ext
}

/// A name for a new file of format `format`: a fresh UUID and the format's
/// extension.
pub fn mint_name(format: Format) -> (r: String)
    ensures
        exists|stem: Seq<char>|
            is_lower_uuid(stem) && r@ == spec_file_name(stem, spec_ext(format)),
        spec_is_valid_name(r@),
{
    let stem = new_uuid_text();
    let mut v = chars_of(stem.as_str());
    extend_str(&mut v, ".");
    extend_str(&mut v, format.ext());
    let r = string_of(&v);
    proof {
        reveal_strlit("png");
        reveal_strlit("jpg");
        reveal_strlit("webp");
        let ext = spec_ext(format);
        assert(forall|i: int| 0 <= i < ext.len() ==> #[trigger] ext[i] != '.');
        lemma_minted_name_is_valid(stem@, ext);
        assert(r@ =~= spec_file_name(stem@, ext));
        match format {
            Format::Png => {},
            Format::Jpeg => {
                assert("jpg"@[0] != "png"@[0]);
            },
            Format::Webp => {
                assert("webp"@.len() != "png"@.len());
                assert("webp"@.len() != "jpg"@.len());
            },
        }
        assert(spec_from_ext(ext) == Some(format));
    }
    r
}

/// Every name minted from a lowercase UUID and a known extension is a
/// valid name: what `save` hands out, `read` will find.
pub proof fn lemma_minted_name_is_valid(stem: Seq<char>, ext: Seq<char>)
    requires
        is_lower_uuid(stem),
        forall|i: int| 0 <= i < ext.len() ==> #[trigger] ext[i] != '.',
    ensures
        split_at_dot(spec_file_name(stem, ext)) == Some((stem, ext)),
{
    let name = spec_file_name(stem, ext);
    reveal_strlit(".");
    assert(name[36] == '.');
    assert forall|k: int| 0 <= k < 36 implies name[k] != '.' by {
        assert(name[k] == stem[k]);
    }
    let i = choose|i: int|
        0 <= i < name.len() && name[i] == '.' && forall|k: int| 0 <= k < i ==> name[k] != '.';
    assert(i == 36) by {
        if i < 36 {
            assert(name[i] == stem[i]);
        } else if i > 36 {
            assert(name[36] != '.');
        }
    }
    assert(name.take(36) =~= stem);
    assert(name.skip(37) =~= ext);
}

pub open spec fn data_url(mime: Seq<char>, bytes: Seq<u8>) -> Seq<char> {
    "data:"@ + mime + ";base64,"@ + base64_encoded(bytes)
}

/// The bytes as padded standard base64.
pub fn encode(bytes: &[u8]) -> (r: String)
    requires
        bytes@.len() <= usize::MAX / 2,
    ensures
        r@ == base64_encoded(bytes@),
        well_encoded(bytes@),
{
    base64_encode(bytes)
}

/// Why text handed in as a picture could not be read.
#[derive(Debug)]
pub enum DataError {
    /// Not a `data:…;base64,…` URL.
    Malformed,
    /// The payload isn't valid base64: what the decoder says is wrong.
    NotBase64 { detail: String },
}

pub ghost enum DataErrorV {
    Malformed,
    NotBase64 { detail: Seq<char> },
}

impl DataError {
    pub open spec fn view(&self) -> DataErrorV {
        match self {
            DataError::Malformed => DataErrorV::Malformed,
            DataError::NotBase64 { detail } => DataErrorV::NotBase64 { detail: detail@ },
        }
    }

    pub fn message(&self, lang: Lang) -> (r: String)
        ensures
            r@ == spec_data_error_message(self@, lang),
    {
        match self {
            DataError::Malformed => crate::text::copy_str(
                match lang {
                    Lang::En => "Not an image data URL",
                    Lang::Zh => "不是有效的图片数据",
                },
            ),
            DataError::NotBase64 { detail } => crate::text::copy_str(detail.as_str()),
        }
    }
}

/// The decoder's own words are passed on as they are, in either language.
pub open spec fn spec_data_error_message(e: DataErrorV, lang: Lang) -> Seq<char> {
    match e {
        DataErrorV::Malformed => tr(lang, "Not an image data URL"@, "不是有效的图片数据"@),
        DataErrorV::NotBase64 { detail } => detail,
    }
}

/// The bytes base64 `data` holds, surrounding whitespace ignored.
pub open spec fn spec_decode(data: Seq<char>) -> Result<Seq<u8>, DataErrorV> {
    match base64_decoded(trim(data)) {
        Some(b) => Ok(b),
        None => Err(DataErrorV::NotBase64 { detail: base64_error_text(trim(data)) }),
    }
}

pub open spec fn result_view(r: Result<Vec<u8>, DataError>) -> Result<Seq<u8>, DataErrorV> {
    match r {
        Ok(v) => Ok(v@),
        Err(e) => Err(e@),
    }
}

pub fn decode(data: &str) -> (r: Result<Vec<u8>, DataError>)
    ensures
        result_view(r) == spec_decode(data@),
{
    let v = chars_of(data);
    let t = trim_chars(&v);
    let s = string_of(&t);
    match base64_decode(s.as_str()) {
        Ok(b) => {
            proof {
                crate::encoding::lemma_decoded_encoded(b@, s@);
            }
            Ok(b)
        },
        Err(detail) => Err(DataError::NotBase64 { detail }),
    }
}

pub fn to_data_url(bytes: &[u8], format: Format) -> (r: String)
    requires
        bytes@.len() <= usize::MAX / 2,
    ensures
        r@ == data_url(spec_mime(format), bytes@),
        well_encoded(bytes@),
        spec_decode_data_url(r@) == Ok::<Seq<u8>, DataErrorV>(bytes@),
{
    let mut v = chars_of("data:");
    extend_str(&mut v, format.mime());
    extend_str(&mut v, ";base64,");
    let e = encode(bytes);
    extend_str(&mut v, e.as_str());
    assert(v@ =~= data_url(spec_mime(format), bytes@));
    proof {
        lemma_mime_has_no_comma(format);
        lemma_data_url_decodes(spec_mime(format), bytes@);
    }
    string_of(&v)
}

/// The header and payload of a `data:` URL: what follows `data:` up to the
/// first comma, and everything after it.
pub open spec fn data_url_parts(url: Seq<char>) -> Option<(Seq<char>, Seq<char>)> {
    if crate::text::starts_with(url, "data:"@) {
        let rest = url.skip(5);
        if exists|i: int| 0 <= i < rest.len() && rest[i] == ',' {
            let i = choose|i: int|
                0 <= i < rest.len() && rest[i] == ',' && forall|k: int|
                    0 <= k < i ==> rest[k] != ',';
            Some((rest.take(i), rest.skip(i + 1)))
        } else {
            None
        }
    } else {
        None
    }
}

/// The bytes of a `data:…;base64,…` URL. The declared type is ignored:
/// what the bytes are is decided by looking at them.
pub open spec fn spec_decode_data_url(url: Seq<char>) -> Result<Seq<u8>, DataErrorV> {
    match data_url_parts(url) {
        Some((meta, payload)) => if crate::text::ends_with(meta, ";base64"@) {
            spec_decode(payload)
        } else {
            Err(DataErrorV::Malformed)
        },
        None => Err(DataErrorV::Malformed),
    }
}

/// Splits `rest` at its first comma.
fn split_once_comma(rest: &[char]) -> (r: Option<(Vec<char>, Vec<char>)>)
    ensures
        match r {
            Some((a, b)) => exists|i: int|
                0 <= i < rest@.len() && rest@[i] == ',' && (forall|k: int|
                    0 <= k < i ==> rest@[k] != ',') && a@ == rest@.take(i) && b@ == rest@.skip(
                    i + 1,
                ),
            None => forall|i: int| 0 <= i < rest@.len() ==> rest@[i] != ',',
        },
{
    let mut i: usize = 0;
    while i < rest.len()
        invariant
            i <= rest.len(),
            forall|k: int| 0 <= k < i ==> rest@[k] != ',',
        decreases rest.len() - i,
    {
        if rest[i] == ',' {
            let a = crate::text::take_chars_exec(rest, i);
            let mut b: Vec<char> = Vec::new();
            let mut j: usize = i + 1;
            while j < rest.len()
                invariant
                    i + 1 <= j <= rest.len(),
                    b@ == rest@.subrange(i + 1, j as int),
                decreases rest.len() - j,
            {
                b.push(rest[j]);
                assert(rest@.subrange(i + 1, j + 1) =~= rest@.subrange(i + 1, j as int).push(
                    rest@[j as int],
                ));
                j += 1;
            }
            assert(b@ =~= rest@.skip(i + 1));
            return Some((a, b));
        }
        i += 1;
    }
    None
}

pub fn decode_data_url(url: &str) -> (r: Result<Vec<u8>, DataError>)
    ensures
        result_view(r) == spec_decode_data_url(url@),
{
    let v = chars_of(url);
    let prefix = chars_of("data:");
    if !crate::text::starts_with_chars(&v, &prefix) {
        return Err(DataError::Malformed);
    }
    let mut rest: Vec<char> = Vec::new();
    let mut i: usize = 5;
    proof {
        reveal_strlit("data:");
    }
    while i < v.len()
        invariant
            5 <= i <= v.len(),
            rest@ == v@.subrange(5, i as int),
        decreases v.len() - i,
    {
        rest.push(v[i]);
        assert(v@.subrange(5, i + 1) =~= v@.subrange(5, i as int).push(v@[i as int]));
        i += 1;
    }
    assert(rest@ =~= url@.skip(5));
    match split_once_comma(&rest) {
        Some((meta, payload)) => {
            proof {
                let w = choose|w: int|
                    0 <= w < rest@.len() && rest@[w] == ',' && forall|k: int|
                        0 <= k < w ==> rest@[k] != ',';
                let i = choose|i: int|
                    0 <= i < rest@.len() && rest@[i] == ',' && (forall|k: int|
                        0 <= k < i ==> rest@[k] != ',') && meta@ == rest@.take(i) && payload@
                        == rest@.skip(i + 1);
                assert(w == i) by {
                    if w < i {
                        assert(rest@[w] != ',');
                    } else if w > i {
                        assert(rest@[i] != ',');
                    }
                }
            }
            let suffix = chars_of(";base64");
            if !crate::text::ends_with_chars(&meta, &suffix) {
                return Err(DataError::Malformed);
            }
            let p = string_of(&payload);
            decode(p.as_str())
        },
        None => Err(DataError::Malformed),
    }
}

/// Why a picture can't be stored as an avatar.
#[derive(Clone, Copy, Debug, PartialEq, Eq, Structural)]
pub enum SaveError {
    TooLarge,
    NotAnImage,
}

pub open spec fn spec_check_picture(bytes: Seq<u8>) -> Result<Format, SaveError> {
    if bytes.len() > MAX_BYTES {
        Err(SaveError::TooLarge)
    } else {
        match spec_sniff(bytes) {
            Some(f) => Ok(f),
            None => Err(SaveError::NotAnImage),
        }
    }
}

/// What `save` checks before it writes anything: the size limit, then that
/// the bytes are a PNG, JPEG or WebP. `Ok` carries the format, which names
/// the file.
pub fn check_picture(bytes: &[u8]) -> (r: Result<Format, SaveError>)
    ensures
        r == spec_check_picture(bytes@),
{
    if bytes.len() > MAX_BYTES {
        return Err(SaveError::TooLarge);
    }
    match Format::sniff(bytes) {
        Some(f) => Ok(f),
        None => Err(SaveError::NotAnImage),
    }
}

pub open spec fn spec_save_error_message(e: SaveError, lang: Lang) -> Seq<char> {
    match e {
        SaveError::TooLarge => tr(
            lang,
            "That image is too large for an avatar (the limit is "@ + decimal(5) + " MB)"@,
            "图片太大，头像不能超过 "@ + decimal(5) + " MB"@,
        ),
        SaveError::NotAnImage => tr(
            lang,
            "Avatars must be PNG, JPEG or WebP images"@,
            "头像只支持 PNG、JPEG 或 WebP 图片"@,
        ),
    }
}

impl SaveError {
    pub fn message(&self, lang: Lang) -> (r: String)
        ensures
            r@ == spec_save_error_message(*self, lang),
    {
        let mut v: Vec<char> = Vec::new();
        match self {
            SaveError::TooLarge => match lang {
                Lang::En => {
                    extend_str(&mut v, "That image is too large for an avatar (the limit is ");
                    push_decimal(&mut v, (MAX_BYTES / 1_048_576) as u64);
                    extend_str(&mut v, " MB)");
                },
                Lang::Zh => {
                    extend_str(&mut v, "图片太大，头像不能超过 ");
                    push_decimal(&mut v, (MAX_BYTES / 1_048_576) as u64);
                    extend_str(&mut v, " MB");
                },
            },
            SaveError::NotAnImage => match lang {
                Lang::En => extend_str(&mut v, "Avatars must be PNG, JPEG or WebP images"),
                Lang::Zh => extend_str(&mut v, "头像只支持 PNG、JPEG 或 WebP 图片"),
            },
        }
        assert(v@ =~= spec_save_error_message(*self, lang));
        string_of(&v)
    }
}

/// A `data:` URL splits back into the header and payload it was made of.
pub proof fn lemma_data_url_parts(meta: Seq<char>, payload: Seq<char>)
    requires
        forall|k: int| 0 <= k < meta.len() ==> #[trigger] meta[k] != ',',
    ensures
        data_url_parts("data:"@ + meta + ","@ + payload) == Some((meta, payload)),
{
    reveal_strlit("data:");
    reveal_strlit(",");
    let url = "data:"@ + meta + ","@ + payload;
    assert(url.take(5) =~= "data:"@);
    let rest = url.skip(5);
    assert(rest =~= meta + seq![','] + payload);
    assert forall|k: int| 0 <= k < meta.len() implies rest[k] != ',' by {
        assert(rest[k] == meta[k]);
    }
    assert(rest[meta.len() as int] == ',');
    let i = choose|i: int|
        0 <= i < rest.len() && rest[i] == ',' && forall|k: int| 0 <= k < i ==> rest[k] != ',';
    assert(i == meta.len()) by {
        if i < meta.len() {
            assert(rest[i] == meta[i]);
        } else if i > meta.len() {
            assert(rest[meta.len() as int] != ',');
        }
    }
    assert(rest.take(i) =~= meta);
    assert(rest.skip(i + 1) =~= payload);
}

proof fn lemma_mime_has_no_comma(format: Format)
    ensures
        forall|k: int| 0 <= k < spec_mime(format).len() ==> #[trigger] spec_mime(format)[k] != ',',
{
    match format {
        Format::Png => reveal_strlit("image/png"),
        Format::Jpeg => reveal_strlit("image/jpeg"),
        Format::Webp => reveal_strlit("image/webp"),
    }
}

proof fn lemma_base64_header(format: Format)
    ensures
        ({
            let head = spec_mime(format) + ";base64"@;
            &&& forall|k: int| 0 <= k < head.len() ==> #[trigger] head[k] != ','
            &&& crate::text::ends_with(head, ";base64"@)
        }),
{
    let m = spec_mime(format);
    reveal_strlit(";base64");
    let head = m + ";base64"@;
    lemma_mime_has_no_comma(format);
    assert forall|k: int| 0 <= k < head.len() implies #[trigger] head[k] != ',' by {
        if k >= m.len() {
            assert(head[k] == ";base64"@[k - m.len()]);
        } else {
            assert(head[k] == m[k]);
        }
    }
    assert(head.skip(head.len() - 7) =~= ";base64"@);
}

proof fn lemma_data_url_shape(m: Seq<char>, bytes: Seq<u8>)
    ensures
        data_url(m, bytes) == "data:"@ + (m + ";base64"@) + ","@ + base64_encoded(bytes),
{
    reveal_strlit(";base64,");
    reveal_strlit(";base64");
    reveal_strlit(",");
    assert(";base64,"@ =~= ";base64"@ + ","@);
    assert(data_url(m, bytes) =~= "data:"@ + (m + ";base64"@) + ","@ + base64_encoded(bytes));
}

/// A picture written with `to_data_url` reads back as the same bytes.
pub proof fn law_data_url_round_trip(bytes: Seq<u8>, format: Format)
    requires
        base64_decoded(base64_encoded(bytes)) == Some(bytes),
        forall|i: int|
            0 <= i < base64_encoded(bytes).len() ==> is_base64_char(
                #[trigger] base64_encoded(bytes)[i],
            ),
    ensures
        spec_decode_data_url(data_url(spec_mime(format), bytes)) == Ok::<Seq<u8>, DataErrorV>(
            bytes,
        ),
{
    let e = base64_encoded(bytes);
    let m = spec_mime(format);
    let head = m + ";base64"@;
    lemma_base64_header(format);
    lemma_data_url_shape(m, bytes);
    lemma_data_url_parts(head, e);
    assert forall|k: int| 0 <= k < e.len() implies !crate::text::is_ws(#[trigger] e[k]) by {
        assert(is_base64_char(e[k]));
    }
    crate::text::lemma_trim_no_ws(e);
}

/// Any header without a comma, then the engine's text: the URL splits back
/// into the two, and its payload reads back as the bytes.
#[verifier::spinoff_prover]
#[verifier::rlimit(40)]
pub proof fn lemma_data_url_decodes(m: Seq<char>, bytes: Seq<u8>)
    requires
        forall|k: int| 0 <= k < m.len() ==> #[trigger] m[k] != ',',
        well_encoded(bytes),
    ensures
        spec_decode_data_url(data_url(m, bytes)) == Ok::<Seq<u8>, DataErrorV>(bytes),
{
    let e = base64_encoded(bytes);
    reveal_strlit(";base64");
    let head = m + ";base64"@;
    assert forall|k: int| 0 <= k < head.len() implies #[trigger] head[k] != ',' by {
        if k >= m.len() {
            assert(head[k] == ";base64"@[k - m.len()]);
        } else {
            assert(head[k] == m[k]);
        }
    }
    assert(head.skip(head.len() - 7) =~= ";base64"@);
    lemma_data_url_shape(m, bytes);
    lemma_data_url_parts(head, e);
    assert forall|k: int| 0 <= k < e.len() implies !crate::text::is_ws(#[trigger] e[k]) by {
        assert(is_base64_char(e[k]));
    }
    crate::text::lemma_trim_no_ws(e);
}

/// A URL with an ASCII header takes one byte a character: the header, the
/// two fixed parts, and four characters for every three bytes or part of
/// three.
pub proof fn lemma_data_url_len(m: Seq<char>, bytes: Seq<u8>)
    requires
        forall|k: int| 0 <= k < m.len() ==> (#[trigger] m[k] as u32) < 0x80,
        well_encoded(bytes),
    ensures
        crate::text::utf8_len(data_url(m, bytes)) == 13 + m.len() + (bytes.len() + 2) / 3 * 4,
{
    reveal_strlit("data:");
    reveal_strlit(";base64,");
    let u = data_url(m, bytes);
    let e = base64_encoded(bytes);
    assert forall|i: int| 0 <= i < u.len() implies (#[trigger] u[i] as u32) < 0x80 by {
        if i < 5 {
            assert(u[i] == "data:"@[i]);
        } else if i < 5 + m.len() {
            assert(u[i] == m[i - 5]);
        } else if i < 13 + m.len() {
            assert(u[i] == ";base64,"@[i - 5 - m.len()]);
        } else {
            assert(u[i] == e[i - 13 - m.len()]);
            assert(is_base64_char(e[i - 13 - m.len()]));
        }
    }
    crate::text::lemma_ascii_utf8_len(u);
}

/// Whether the startup sweep deletes a file named `name`: only files named
/// the way pictures are stored, and only those nothing keeps.
pub fn swept(name: &str, keep: &[String]) -> (r: bool)
    ensures
        r == (spec_is_valid_name(name@) && !(exists|i: int| 0 <= i < keep@.len() && keep@[i]@ == name@)),
{
    if !is_valid_name(name) {
        return false;
    }
    let mut i: usize = 0;
    while i < keep.len()
        invariant
            i <= keep@.len(),
            forall|k: int| 0 <= k < i ==> keep@[k]@ != name@,
        decreases keep.len() - i,
    {
        if crate::text::str_eq(keep[i].as_str(), name) {
            return false;
        }
        i += 1;
    }
    true
}

/// The picture an `avatar://localhost/<name>` request asks for: the path
/// without its leading slashes.
pub open spec fn spec_served_name(path: Seq<char>) -> Seq<char>
    decreases path.len(),
{
    if path.len() > 0 && path[0] == '/' {
        spec_served_name(path.drop_first())
    } else {
        path
    }
}

pub fn served_name(path: &str) -> (r: String)
    ensures
        r@ == spec_served_name(path@),
{
    let v = chars_of(path);
    let mut i: usize = 0;
    assert(v@.skip(0) =~= v@);
    while i < v.len() && v[i] == '/'
        invariant
            i <= v@.len(),
            v@ == path@,
            spec_served_name(path@) == spec_served_name(v@.skip(i as int)),
        decreases v.len() - i,
    {
        assert(v@.skip(i as int).drop_first() =~= v@.skip(i + 1));
        i += 1;
    }
    let mut out: Vec<char> = Vec::new();
    let mut j: usize = i;
    while j < v.len()
        invariant
            i <= j <= v@.len(),
            out@ == v@.subrange(i as int, j as int),
        decreases v.len() - j,
    {
        out.push(v[j]);
        assert(v@.subrange(i as int, j + 1) =~= v@.subrange(i as int, j as int).push(v@[j as int]));
        j += 1;
    }
    assert(out@ =~= v@.skip(i as int));
    string_of(&out)
}

/// How long a served picture may be cached: names are never reused for
/// different content.
pub const CACHE_CONTROL: &'static str = "max-age=31536000, immutable";

/// The answer to an `avatar://` request.
#[derive(Debug)]
pub struct Served {
    pub status: u16,
    /// `Content-Type`, when there is a picture.
    pub content_type: Option<&'static str>,
    /// `Cache-Control`, when there is a picture.
    pub cache_control: Option<&'static str>,
    pub body: Vec<u8>,
}

/// What a request is answered with, given the stored picture it named, if
/// there is one: the picture with its type and a long cache lifetime, or a
/// plain 404 with nothing in it, which the webview's `<img>` turns into its
/// fallback.
pub fn serve_response(found: Option<(Vec<u8>, Format)>) -> (r: Served)
    ensures
        match found {
            Some((bytes, format)) => {
                &&& r.status == 200
                &&& r.content_type matches Some(t) && t@ == spec_mime(format)
                &&& r.cache_control matches Some(c) && c@ == CACHE_CONTROL@
                &&& r.body@ == bytes@
            },
            None => {
                &&& r.status == 404
                &&& r.content_type is None
                &&& r.cache_control is None
                &&& r.body@.len() == 0
            },
        },
{
    match found {
        Some((bytes, format)) => Served {
            status: 200,
            content_type: Some(format.mime()),
            cache_control: Some(CACHE_CONTROL),
            body: bytes,
        },
        None => Served { status: 404, content_type: None, cache_control: None, body: Vec::new() },
    }
}

} // verus!
