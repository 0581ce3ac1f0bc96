//! What the engine takes from outside itself: the clock, fresh
//! identifiers, random draws and the password hash. Verus does not read the
//! bodies in this file; each doc comment says what is taken on trust.

use crate::order::Timestamp;
use argon2::{PasswordHasher, PasswordVerifier};
use rand::Rng;
use vstd::prelude::*;

verus! {

/// The bits of a 128-bit identifier that hold its version and variant.
pub const ID_FORMAT_MASK: u128 = 0x0000_0000_0000_f000_c000_0000_0000_0000;

/// Version 4, variant 1: what every freshly drawn identifier carries in the
/// bits of [`ID_FORMAT_MASK`].
pub const ID_FORMAT_RANDOM: u128 = 0x0000_0000_0000_4000_8000_0000_0000_0000;

/// The character of a hexadecimal digit, in lower case; `'0'` for anything
/// that is not one.
pub open spec fn spec_hex_digit(d: int) -> char {
    if d == 10 {
        'a'
    } else if d == 11 {
        'b'
    } else if d == 12 {
        'c'
    } else if d == 13 {
        'd'
    } else if d == 14 {
        'e'
    } else if d == 15 {
        'f'
    } else {
        crate::text::spec_digit(d)
    }
}

/// The last `digits` hexadecimal digits of `n`, most significant first.
pub open spec fn spec_hex(n: nat, digits: nat) -> Seq<char>
    decreases digits,
{
    if digits == 0 {
        Seq::empty()
    } else {
        spec_hex(n / 16, (digits - 1) as nat).push(spec_hex_digit((n % 16) as int))
    }
}

/// An identifier as text: its 32 hexadecimal digits in lower case, in
/// groups of 8, 4, 4, 4 and 12 with a hyphen between them.
pub open spec fn spec_id_text(id: u128) -> Seq<char> {
    let h = spec_hex(id as nat, 32);
    h.subrange(0, 8) + seq!['-'] + h.subrange(8, 12) + seq!['-'] + h.subrange(12, 16) + seq!['-']
        + h.subrange(16, 20) + seq!['-'] + h.subrange(20, 32)
}

/// What is left of `n` above its last `digits` hexadecimal digits.
pub open spec fn spec_above_hex(n: nat, digits: nat) -> nat
    decreases digits,
{
    if digits == 0 {
        n
    } else {
        spec_above_hex(n / 16, (digits - 1) as nat)
    }
}

/// The hexadecimal digits of a number are as many as were asked for.
pub proof fn lemma_hex_len(n: nat, digits: nat)
    ensures
        spec_hex(n, digits).len() == digits,
    decreases digits,
{
    if digits > 0 {
        lemma_hex_len(n / 16, (digits - 1) as nat);
    }
}

/// Two numbers with the same last hexadecimal digits and the same rest
/// above them are the same number.
pub proof fn lemma_hex_injective(a: nat, b: nat, digits: nat)
    requires
        spec_hex(a, digits) == spec_hex(b, digits),
        spec_above_hex(a, digits) == spec_above_hex(b, digits),
    ensures
        a == b,
    decreases digits,
{
    if digits > 0 {
        let rest = (digits - 1) as nat;
        let ha = spec_hex(a / 16, rest);
        let hb = spec_hex(b / 16, rest);
        let da = spec_hex_digit((a % 16) as int);
        let db = spec_hex_digit((b % 16) as int);
        lemma_hex_len(a / 16, rest);
        lemma_hex_len(b / 16, rest);
        assert(ha.push(da).last() == hb.push(db).last());
        assert(ha.push(da).drop_last() =~= ha);
        assert(hb.push(db).drop_last() =~= hb);
        assert(a % 16 == b % 16);
        lemma_hex_injective(a / 16, b / 16, rest);
    }
}

/// A number below `2^(4 * digits)` has nothing above its last `digits`
/// hexadecimal digits; eight digits at a time.
pub proof fn lemma_nothing_above_eight(n: nat)
    requires
        n < 0x1_0000_0000,
    ensures
        spec_above_hex(n, 8) == 0,
{
    reveal_with_fuel(spec_above_hex, 9);
}

/// Dropping digits in two steps drops their sum.
pub proof fn lemma_above_hex_adds(n: nat, first: nat, second: nat)
    ensures
        spec_above_hex(n, first + second) == spec_above_hex(spec_above_hex(n, first), second),
    decreases first,
{
    if first > 0 {
        lemma_above_hex_adds(n / 16, (first - 1) as nat, second);
    }
}

/// Eight hexadecimal digits up is a division by `2^32`.
pub proof fn lemma_above_eight_divides(n: nat)
    ensures
        spec_above_hex(n, 8) == n / 0x1_0000_0000,
{
    reveal_with_fuel(spec_above_hex, 9);
    let a1 = n / 16;
    let a2 = a1 / 16;
    let a3 = a2 / 16;
    let a4 = a3 / 16;
    let a5 = a4 / 16;
    let a6 = a5 / 16;
    let a7 = a6 / 16;
    let a8 = a7 / 16;
    assert(a2 == n / 0x100);
    assert(a4 == a2 / 0x100);
    assert(a4 == n / 0x1_0000);
    assert(a6 == a4 / 0x100);
    assert(a8 == a6 / 0x100);
    assert(a8 == a4 / 0x1_0000);
    assert(a8 == n / 0x1_0000_0000);
}

/// A 128-bit number has 32 hexadecimal digits and nothing above them.
pub proof fn lemma_nothing_above_id(id: u128)
    ensures
        spec_above_hex(id as nat, 32) == 0,
{
    let n = id as nat;
    let n1 = spec_above_hex(n, 8);
    let n2 = spec_above_hex(n1, 8);
    let n3 = spec_above_hex(n2, 8);
    lemma_above_eight_divides(n);
    lemma_above_eight_divides(n1);
    lemma_above_eight_divides(n2);
    assert(n3 < 0x1_0000_0000);
    lemma_nothing_above_eight(n3);
    lemma_above_hex_adds(n, 8, 8);
    lemma_above_hex_adds(n, 16, 8);
    lemma_above_hex_adds(n, 24, 8);
}

/// Identifiers with the same text are the same.
pub proof fn lemma_id_text_injective(a: u128, b: u128)
    requires
        spec_id_text(a) == spec_id_text(b),
    ensures
        a == b,
{
    let ha = spec_hex(a as nat, 32);
    let hb = spec_hex(b as nat, 32);
    let ta = spec_id_text(a);
    let tb = spec_id_text(b);
    lemma_hex_len(a as nat, 32);
    lemma_hex_len(b as nat, 32);
    assert forall|i: int| 0 <= i < 32 implies ha[i] == hb[i] by {
        let k = if i < 8 {
            i
        } else if i < 12 {
            i + 1
        } else if i < 16 {
            i + 2
        } else if i < 20 {
            i + 3
        } else {
            i + 4
        };
        assert(ta[k] == ha[i]);
        assert(tb[k] == hb[i]);
    }
    assert(ha =~= hb);
    lemma_nothing_above_id(a);
    lemma_nothing_above_id(b);
    lemma_hex_injective(a as nat, b as nat, 32);
}

/// The identifier that `uuid::Uuid::parse_str` reads from `text`, or
/// nothing where it reads none.
pub uninterp spec fn spec_parse_id(text: Seq<char>) -> Option<u128>;

/// What `chrono` writes for the UTC time `ts` under the `strftime`
/// pattern `pattern`, or nothing where `ts` is outside the range of its
/// dates or it cannot write the pattern.
pub uninterp spec fn spec_time_text(ts: Timestamp, pattern: Seq<char>) -> Option<Seq<char>>;

/// What `argon2`'s `hash_password` returns, with default parameters, for a
/// password and the sixteen salt bytes of `salt` (big-endian): the hash in
/// PHC string form, or nothing where the function refuses its input.
pub uninterp spec fn spec_kdf_hash(password: Seq<char>, salt: u128) -> Option<Seq<char>>;

/// Whether `argon2`'s `verify_password` accepts `password` for the hash
/// string `stored`. A string that is no PHC hash accepts nothing.
pub uninterp spec fn spec_kdf_verifies(password: Seq<char>, stored: Seq<char>) -> bool;

/// `chrono::Utc::now`, as microseconds since the Unix epoch. Nothing is
/// claimed of the value. The call panics on a machine whose clock reads
/// before 1970.
#[verifier::external_body]
pub(crate) fn now_micros() -> Timestamp {
    chrono::Utc::now().timestamp_micros()
}

/// `uuid::Uuid::new_v4`, as its 128-bit value: random but for the version
/// and variant bits, which the function sets to version 4, variant 1.
#[verifier::external_body]
pub(crate) fn fresh_id() -> (id: u128)
    ensures
        id & ID_FORMAT_MASK == ID_FORMAT_RANDOM,
{
    uuid::Uuid::new_v4().as_u128()
}

/// The `Display` text of the `uuid::Uuid` made from `id`: the hyphenated
/// lower-case form.
#[verifier::external_body]
pub(crate) fn id_text(id: u128) -> (s: String)
    ensures
        s@ == spec_id_text(id),
{
    uuid::Uuid::from_u128(id).to_string()
}

/// `uuid::Uuid::parse_str`, as the 128-bit value of what it read: a
/// function of the text alone.
#[verifier::external_body]
pub(crate) fn parse_id(text: &str) -> (r: Option<u128>)
    ensures
        r == spec_parse_id(text@),
{
    match uuid::Uuid::parse_str(text) {
        Ok(id) => Some(id.as_u128()),
        Err(_) => None,
    }
}

/// `chrono::DateTime::from_timestamp_micros`, then `format` with
/// `pattern`, written by `write_to`: the time `ts` in UTC under the
/// pattern, a function of the two arguments alone; nothing where `chrono`
/// has no date for `ts` or reports that it cannot write the pattern.
#[verifier::external_body]
pub(crate) fn time_text(ts: Timestamp, pattern: &str) -> (r: Option<String>)
    ensures
        match r {
            Some(s) => spec_time_text(ts, pattern@) == Some(s@),
            None => spec_time_text(ts, pattern@) is None,
        },
{
    let time = match chrono::DateTime::from_timestamp_micros(ts) {
        Some(time) => time,
        None => return None,
    };
    let mut text = String::new();
    match time.format(pattern).write_to(&mut text) {
        Ok(()) => Some(text),
        Err(_) => None,
    }
}

/// `rand::random::<u32>`. Nothing is claimed of the value.
#[verifier::external_body]
pub(crate) fn random_draw() -> u32 {
    rand::random::<u32>()
}

/// `rand::random::<u128>`, used as salt. Nothing is claimed of the value.
#[verifier::external_body]
pub(crate) fn random_salt() -> u128 {
    rand::random::<u128>()
}

/// `Rng::gen_range` on the thread's generator, over `low..high`: a value
/// of that half-open range. The function panics on an empty range.
#[verifier::external_body]
pub(crate) fn random_in_range(low: u32, high: u32) -> (n: u32)
    requires
        low < high,
    ensures
        low <= n < high,
{
    rand::thread_rng().gen_range(low..high)
}

/// `Argon2::default().hash_password` with the salt bytes of `salt`. The
/// result is a function of the two arguments, and `verify_password`
/// accepts the password for the hash that comes back: it recomputes the
/// hash from the parameters and salt in the string and compares.
#[verifier::external_body]
pub(crate) fn kdf_hash(password: &str, salt: u128) -> (r: Option<String>)
    ensures
        match r {
            Some(h) => spec_kdf_hash(password@, salt) == Some(h@) && spec_kdf_verifies(
                password@,
                h@,
            ),
            None => spec_kdf_hash(password@, salt) is None,
        },
{
    let salt = match argon2::password_hash::SaltString::encode_b64(&salt.to_be_bytes()) {
        Ok(s) => s,
        Err(_) => return None,
    };
    match argon2::Argon2::default().hash_password(password.as_bytes(), &salt) {
        Ok(h) => Some(h.to_string()),
        Err(_) => None,
    }
}

/// `Argon2::default().verify_password` on the parsed hash string
/// `stored`. The comparison of the two hash outputs inside is constant-time.
#[verifier::external_body]
pub(crate) fn kdf_verify(password: &str, stored: &str) -> (ok: bool)
    ensures
        ok == spec_kdf_verifies(password@, stored@),
{
    match argon2::PasswordHash::new(stored) {
        Ok(parsed) => argon2::Argon2::default().verify_password(
            password.as_bytes(),
            &parsed,
        ).is_ok(),
        Err(_) => false,
    }
}

} // verus!
