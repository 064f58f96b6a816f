//! The calls into other crates and into the parts of the standard library that
//! carry no specification of their own. The contracts of these calls, and of those on
//! images in `raster`, are taken on trust; everything else in the library is proved.

use base64::Engine;
use rand::RngExt;
use vstd::prelude::*;

use crate::model;

verus! {

/// What `bcrypt::verify` answers for a password and a stored hash: whether they
/// belong together, or the text of its error where the hash is malformed.
pub uninterp spec fn bcrypt_verdict(password: Seq<char>, hash: Seq<char>) -> Result<
    bool,
    Seq<char>,
>;

/// Whether `bcrypt::verify` accepts a password for a stored hash.
pub open spec fn bcrypt_accepts(password: Seq<char>, hash: Seq<char>) -> bool {
    bcrypt_verdict(password, hash) matches Ok(b) && b
}

/// `bcrypt::hash` with the default cost. The salt is random, so the hash is not
/// fixed by the password; of every hash that comes back, `bcrypt::verify` accepts
/// the password it was made from. An error is handed on as its text.
#[verifier::external_body]
pub(crate) fn bcrypt_hash(password: &str) -> (r: Result<String, String>)
    ensures
        r matches Ok(h) ==> bcrypt_accepts(password@, h@),
{
    match bcrypt::hash(password, bcrypt::DEFAULT_COST) {
        Ok(h) => Ok(h),
        Err(e) => Err(e.to_string()),
    }
}

/// `bcrypt::verify`: its answer, or the text of its error, is a function of the
/// password and the hash alone.
#[verifier::external_body]
pub(crate) fn bcrypt_verify(password: &str, hash: &str) -> (r: Result<bool, String>)
    ensures
        model::outcome(r) == bcrypt_verdict(password@, hash@),
{
    match bcrypt::verify(password, hash) {
        Ok(b) => Ok(b),
        Err(e) => Err(e.to_string()),
    }
}

/// `chrono::Utc::now` in RFC 3339 form. It is the clock's reading: nothing is
/// claimed of it.
#[verifier::external_body]
pub(crate) fn now_rfc3339() -> (r: String) {
    chrono::Utc::now().to_rfc3339()
}

/// A lower-case hexadecimal digit.
pub open spec fn is_lower_hex(c: char) -> bool {
    '0' <= c <= '9' || 'a' <= c <= 'f'
}

/// The form of a random UUID written without hyphens: 32 hexadecimal digits, of
/// which one gives the version and one the variant.
pub open spec fn is_simple_uuid(s: Seq<char>) -> bool {
    &&& s.len() == 32
    &&& forall|i: int| 0 <= i < 32 ==> is_lower_hex(#[trigger] s[i])
    &&& s[12] == '4'
    &&& (s[16] == '8' || s[16] == '9' || s[16] == 'a' || s[16] == 'b')
}

/// `uuid::Uuid::new_v4` in its simple form. The digits are random; the form is
/// fixed.
#[verifier::external_body]
pub(crate) fn random_uuid() -> (r: String)
    ensures
        is_simple_uuid(r@),
{
    uuid::Uuid::new_v4().simple().to_string()
}

/// The character of the Base64 alphabet for six bits.
pub open spec fn base64_digit(v: int) -> char {
    if v < 26 {
        ('A' as int + v) as char
    } else if v < 52 {
        ('a' as int + v - 26) as char
    } else if v < 62 {
        ('0' as int + v - 52) as char
    } else if v == 62 {
        '+'
    } else {
        '/'
    }
}

/// A byte of some data; zero past its end.
pub open spec fn byte_or_zero(data: Seq<u8>, i: int) -> int {
    if i < data.len() {
        data[i] as int
    } else {
        0
    }
}

/// The `k`-th of the four groups of six bits that three bytes make, the highest first.
pub open spec fn six_bits(a: int, b: int, c: int, k: int) -> int {
    let v = a * 65536 + b * 256 + c;
    if k == 0 {
        v / 262144
    } else if k == 1 {
        (v / 4096) % 64
    } else if k == 2 {
        (v / 64) % 64
    } else {
        v % 64
    }
}

/// Standard Base64: every three bytes make four characters of six bits each, and `=`
/// stands for what lies past the end of the data.
pub open spec fn base64_text(data: Seq<u8>) -> Seq<char> {
    Seq::new(
        (4 * ((data.len() + 2) / 3)) as nat,
        |i: int|
            {
                let from = 3 * (i / 4);
                if from + i % 4 > data.len() {
                    '='
                } else {
                    base64_digit(
                        six_bits(
                            byte_or_zero(data, from),
                            byte_or_zero(data, from + 1),
                            byte_or_zero(data, from + 2),
                            i % 4,
                        ),
                    )
                }
            },
    )
}

/// `base64::engine::general_purpose::STANDARD.encode`: standard Base64 with padding. It
/// panics where the length of the text overflows.
#[verifier::external_body]
pub(crate) fn base64_encode(data: &Vec<u8>) -> (r: String)
    requires
        4 * ((data@.len() + 2) / 3) <= isize::MAX,
    ensures
        r@ == base64_text(data@),
{
    base64::engine::general_purpose::STANDARD.encode(data)
}

/// `rand::RngExt::random_range` on the thread's generator: some number of the
/// range. It panics where the range is empty.
#[verifier::external_body]
pub(crate) fn random_in(low: i64, high: i64) -> (r: i64)
    requires
        low < high,
    ensures
        low <= r < high,
{
    rand::rng().random_range(low..high)
}

/// The top-level media type that `mime_guess` assigns to a path by its
/// extension.
pub uninterp spec fn guessed_type(path: Seq<char>) -> Option<Seq<char>>;

/// Whether a path reads alike under every platform's path syntax: it has no backslash
/// and no colon, and does not start with two slashes, all of which mean something on
/// some platforms only.
pub open spec fn is_portable_path(path: Seq<char>) -> bool {
    &&& forall|i: int| 0 <= i < path.len() ==> #[trigger] path[i] != '\\' && path[i] != ':'
    &&& !(path.len() >= 2 && path[0] == '/' && path[1] == '/')
}

/// `mime_guess::from_path`, then the top-level type of the first guess. It goes
/// by the extension of the path alone; for other paths than portable ones the
/// platform decides what the extension is, and nothing is claimed.
#[verifier::external_body]
pub(crate) fn mime_top_level(path: &str) -> (r: Option<String>)
    ensures
        is_portable_path(path@) ==> r.deep_view() == guessed_type(path@),
{
    mime_guess::from_path(path).first().map(|m| m.type_().as_str().to_string())
}

/// What `str::to_uppercase` makes of a text.
pub uninterp spec fn uppercase_text(s: Seq<char>) -> Seq<char>;

pub open spec fn is_ascii_text(s: Seq<char>) -> bool {
    forall|i: int| 0 <= i < s.len() ==> #[trigger] s[i] < '\u{80}'
}

pub open spec fn ascii_upper(c: char) -> char {
    if 'a' <= c <= 'z' {
        ((c as int) - 32) as char
    } else {
        c
    }
}

/// `str::to_uppercase`: a function of the text, which on ASCII text maps the
/// letters one by one.
#[verifier::external_body]
pub(crate) fn to_uppercase(s: &str) -> (r: String)
    ensures
        r@ == uppercase_text(s@),
        is_ascii_text(s@) ==> r@ == s@.map_values(|c: char| ascii_upper(c)),
{
    s.to_uppercase()
}

} // verus!
