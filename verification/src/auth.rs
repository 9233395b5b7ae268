//! Rules on passwords and sessions.
//!
//! Accounts and sessions are stored elsewhere; what is decided here is
//! decided on plain values. Password hashes are Argon2 hashes in the PHC
//! string format, `$argon2id$v=..$m=..,t=..,p=..$salt$hash`, computed by the
//! `argon2` crate. A moment in time is a count of whole seconds since a
//! common epoch together with the nanoseconds that follow them.

use vstd::prelude::*;
use vstd::string::{StrSliceExecFns, StringExecFns};

verus! {

/// The error type of the `password-hash` crate, carried through without
/// being inspected.
#[verifier::external_type_specification]
#[verifier::external_body]
pub struct ExPasswordHashError(password_hash::Error);

/// The character between the fields of an encoded hash.
pub const FIELD_SEPARATOR: char = '$';

/// Position of the salt among the fields of an encoded hash; the first
/// field, before the leading separator, is empty.
pub const SALT_FIELD: usize = 4;

/// How long a session lasts: thirty days, in seconds.
pub const SESSION_LIFETIME: i64 = 2_592_000;

/// The fields of a text, split at every occurrence of the separator. A
/// text without separator is one field; an empty text is one empty field.
pub open spec fn spec_split(text: Seq<char>, separator: char) -> Seq<Seq<char>>
    decreases text.len(),
{
    if text.len() == 0 {
        seq![Seq::<char>::empty()]
    } else {
        let before = spec_split(text.drop_last(), separator);
        if text.last() == separator {
            before.push(Seq::<char>::empty())
        } else {
            before.update(before.len() - 1, before.last().push(text.last()))
        }
    }
}

/// A text has at least one field.
pub proof fn lemma_split_not_empty(text: Seq<char>, separator: char)
    ensures
        spec_split(text, separator).len() >= 1,
    decreases text.len(),
{
    if text.len() > 0 {
        lemma_split_not_empty(text.drop_last(), separator);
    }
}

/// Reading on never changes a field that a separator has closed: the
/// fields of a prefix, but for its last, are fields of every longer prefix.
pub proof fn lemma_split_extends(text: Seq<char>, separator: char, shorter: int, longer: int)
    requires
        0 <= shorter <= longer <= text.len(),
    ensures
        1 <= spec_split(text.take(shorter), separator).len() <= spec_split(
            text.take(longer),
            separator,
        ).len(),
        forall|k: int|
            0 <= k < spec_split(text.take(shorter), separator).len() - 1 ==> spec_split(
                text.take(longer),
                separator,
            )[k] == #[trigger] spec_split(text.take(shorter), separator)[k],
    decreases longer - shorter,
{
    lemma_split_not_empty(text.take(shorter), separator);
    if shorter < longer {
        lemma_split_extends(text, separator, shorter, longer - 1);
        assert(text.take(longer).drop_last() =~= text.take(longer - 1));
    }
}

/// The field with the given index, or nothing where the text has fewer
/// fields.
pub open spec fn spec_field(text: Seq<char>, separator: char, index: int) -> Option<Seq<char>> {
    if 0 <= index < spec_split(text, separator).len() {
        Some(spec_split(text, separator)[index])
    } else {
        None
    }
}

/// Finds the field with the given index in a text split at a separator.
pub fn field(text: &str, separator: char, index: usize) -> (r: Option<String>)
    ensures
        match r {
            Some(found) => spec_field(text@, separator, index as int) == Some(found@),
            None => spec_field(text@, separator, index as int) is None,
        },
{
    let len = text.unicode_len();
    let mut start: usize = 0;
    let mut number: usize = 0;
    let mut at: usize = 0;
    proof {
        assert(text@.take(0) =~= Seq::<char>::empty());
        assert(text@.subrange(0, 0) =~= Seq::<char>::empty());
    }
    while at < len
        invariant
            len == text@.len(),
            start <= at <= len,
            number <= index,
            spec_split(text@.take(at as int), separator).len() == number + 1,
            spec_split(text@.take(at as int), separator).last() == text@.subrange(
                start as int,
                at as int,
            ),
        decreases len - at,
    {
        let c = text.get_char(at);
        proof {
            assert(text@.take(at + 1).drop_last() =~= text@.take(at as int));
            assert(text@.take(at + 1).last() == c);
        }
        if c == separator {
            if number == index {
                proof {
                    lemma_split_extends(text@, separator, at + 1, len as int);
                    assert(text@.take(len as int) =~= text@);
                    assert(spec_split(text@.take(at + 1), separator)[index as int] == text@.subrange(
                        start as int,
                        at as int,
                    ));
                }
                return Some(String::from_str(text.substring_char(start, at)));
            }
            number = number + 1;
            start = at + 1;
            proof {
                assert(text@.subrange(start as int, at + 1) =~= Seq::<char>::empty());
            }
        } else {
            proof {
                assert(text@.subrange(start as int, at + 1) =~= text@.subrange(
                    start as int,
                    at as int,
                ).push(c));
            }
        }
        at = at + 1;
    }
    proof {
        assert(text@.take(len as int) =~= text@);
    }
    if number == index {
        Some(String::from_str(text.substring_char(start, len)))
    } else {
        None
    }
}

/// The encoded hash that `argon2` computes for a password and a salt with
/// its default parameters; nothing where it rejects the salt or fails.
pub uninterp spec fn argon2_encoded(password: Seq<char>, salt: Seq<char>) -> Option<Seq<char>>;

/// Hashes a password: `password_hash::SaltString::from_b64` on the salt,
/// `argon2::Argon2::default()` and its `hash_password`, and the hash written
/// out as a PHC string. Assumed:
/// - the outcome depends on the password and the salt alone, so it can be
///   named `argon2_encoded`;
/// - the encoded hash names its salt: written out, a hash is a separator
///   and the algorithm, a separator and the version, a separator and the
///   parameters, a separator and the salt as it was given, a separator and
///   the digest, and neither the algorithm, the version, the parameters nor
///   an accepted salt holds a separator.
#[verifier::external_body]
fn hash_password(password: &str, salt: &str) -> (r: Result<String, password_hash::Error>)
    ensures
        r matches Ok(encoded) ==> argon2_encoded(password@, salt@) == Some(encoded@),
        r matches Ok(encoded) ==> spec_field(encoded@, FIELD_SEPARATOR, SALT_FIELD as int) == Some(
            salt@,
        ),
        r is Err ==> argon2_encoded(password@, salt@) is None,
{
    let salt = password_hash::SaltString::from_b64(salt)?;
    let hasher = argon2::Argon2::default();
    let hash = argon2::PasswordHasher::hash_password(&hasher, password.as_bytes(), &salt)?;
    Ok(hash.to_string())
}

/// Number of characters of a salt that is drawn afresh: sixteen bytes,
/// written in base 64 without padding.
pub const FRESH_SALT_LEN: usize = 22;

/// Whether a character belongs to the alphabet of base 64: a letter, a
/// digit, `+` or `/`.
pub open spec fn is_base64_char(c: char) -> bool {
    ||| 'A' as u32 <= c as u32 <= 'Z' as u32
    ||| 'a' as u32 <= c as u32 <= 'z' as u32
    ||| '0' as u32 <= c as u32 <= '9' as u32
    ||| c == '+'
    ||| c == '/'
}

/// The shape of a salt that is drawn afresh.
pub open spec fn is_fresh_salt(salt: Seq<char>) -> bool {
    &&& salt.len() == FRESH_SALT_LEN
    &&& forall|i: int| 0 <= i < salt.len() ==> is_base64_char(#[trigger] salt[i])
}

/// Draws a fresh random salt with `password_hash::SaltString::generate` on
/// the random numbers of the operating system. Assumed of every outcome:
/// it is sixteen random bytes written in base 64 without padding, so it has
/// 22 characters of that alphabet. Which ones is left open.
#[verifier::external_body]
fn random_salt() -> (salt: String)
    ensures
        is_fresh_salt(salt@),
{
    password_hash::SaltString::generate(&mut password_hash::rand_core::OsRng).as_str().to_string()
}

/// Hashes a password with the given salt. Nothing comes back where the salt
/// is not accepted or hashing fails. The encoded hash names the salt in its
/// salt field, so the password checks against it.
pub fn hash_with_salt(password: &str, salt: &str) -> (r: Option<String>)
    ensures
        match r {
            Some(encoded) => argon2_encoded(password@, salt@) == Some(encoded@),
            None => argon2_encoded(password@, salt@) is None,
        },
        r matches Some(encoded) ==> spec_field(encoded@, FIELD_SEPARATOR, SALT_FIELD as int)
            == Some(salt@),
        r matches Some(encoded) ==> spec_check_password(encoded@, password@)
            == PasswordCheck::Match,
{
    match hash_password(password, salt) {
        Ok(encoded) => Some(encoded),
        Err(_) => None,
    }
}

/// The text of an encoded hash that may be missing.
pub open spec fn text_of(encoded: Option<String>) -> Option<Seq<char>> {
    match encoded {
        Some(text) => Some(text@),
        None => None,
    }
}

/// Hashes the password of a new account with a salt of its own, drawn at
/// random. What comes back is what hashing the password with that salt
/// yields: the encoded hash, or nothing where hashing with it fails. The
/// hash that comes back names a salt of the shape of a fresh one, and the
/// password checks against it.
pub fn hash_new_password(password: &str) -> (r: Option<String>)
    ensures
        exists|salt: Seq<char>| (#[trigger] argon2_encoded(password@, salt)) == text_of(r),
        r matches Some(encoded) ==> (spec_field(encoded@, FIELD_SEPARATOR, SALT_FIELD as int)
            matches Some(salt) && is_fresh_salt(salt)),
        r matches Some(encoded) ==> spec_check_password(encoded@, password@)
            == PasswordCheck::Match,
{
    let salt = random_salt();
    let r = hash_with_salt(password, salt.as_str());
    proof {
        assert(argon2_encoded(password@, salt@) == text_of(r));
    }
    r
}

/// How a password compares with a stored hash.
#[derive(Clone, Copy, Debug, PartialEq, Eq, Structural)]
pub enum PasswordCheck {
    /// Hashing the password with the salt of the stored hash gives the
    /// stored hash.
    Match,
    /// It gives another hash.
    Mismatch,
    /// The stored hash has no salt field, or the password cannot be hashed
    /// with it.
    Malformed,
}

/// How a password compares with a stored hash: the password is hashed with
/// the salt that the stored hash names, and the two encoded hashes are
/// compared as texts.
pub open spec fn spec_check_password(stored: Seq<char>, password: Seq<char>) -> PasswordCheck {
    match spec_field(stored, FIELD_SEPARATOR, SALT_FIELD as int) {
        None => PasswordCheck::Malformed,
        Some(salt) => match argon2_encoded(password, salt) {
            None => PasswordCheck::Malformed,
            Some(encoded) => if encoded == stored {
                PasswordCheck::Match
            } else {
                PasswordCheck::Mismatch
            },
        },
    }
}

/// Compares a password with the stored hash of an account.
pub fn check_password(stored: &str, password: &str) -> (r: PasswordCheck)
    ensures
        r == spec_check_password(stored@, password@),
{
    let salt = match field(stored, FIELD_SEPARATOR, SALT_FIELD) {
        Some(salt) => salt,
        None => {
            return PasswordCheck::Malformed;
        },
    };
    match hash_password(password, salt.as_str()) {
        Ok(encoded) => {
            let stored = String::from_str(stored);
            if encoded == stored {
                PasswordCheck::Match
            } else {
                PasswordCheck::Mismatch
            }
        },
        Err(_) => PasswordCheck::Malformed,
    }
}

/// A moment in time: whole seconds since a common epoch, and the
/// nanoseconds that follow them. Moments are ordered by their seconds, and
/// within one second by their nanoseconds.
#[derive(Clone, Copy, Debug, PartialEq, Eq, Structural)]
pub struct Moment {
    pub seconds: i64,
    pub nanos: u32,
}

impl Moment {
    /// Whether this moment lies before the other.
    pub open spec fn before(self, other: Moment) -> bool {
        self.seconds < other.seconds || (self.seconds == other.seconds && self.nanos < other.nanos)
    }

    /// Whether this moment lies before the other.
    pub fn is_before(&self, other: &Moment) -> (r: bool)
        ensures
            r == self.before(*other),
    {
        self.seconds < other.seconds || (self.seconds == other.seconds && self.nanos < other.nanos)
    }
}

/// When a session created at `now` expires: one lifetime later, to the
/// nanosecond; nothing where that moment cannot be represented.
pub fn session_expiry(now: Moment) -> (r: Option<Moment>)
    ensures
        now.seconds + SESSION_LIFETIME <= i64::MAX ==> r == Some(
            Moment { seconds: (now.seconds + SESSION_LIFETIME) as i64, nanos: now.nanos },
        ),
        now.seconds + SESSION_LIFETIME > i64::MAX ==> r is None,
{
    if now.seconds > i64::MAX - SESSION_LIFETIME {
        None
    } else {
        Some(Moment { seconds: now.seconds + SESSION_LIFETIME, nanos: now.nanos })
    }
}

/// Whether a session is valid at `now`: it exists, and it has not expired
/// before `now`. A session that expires at `now` itself is still valid.
pub fn session_is_valid(expires_at: Option<Moment>, now: Moment) -> (valid: bool)
    ensures
        valid <==> (expires_at matches Some(end) && !end.before(now)),
{
    match expires_at {
        Some(end) => !end.is_before(&now),
        None => false,
    }
}

} // verus!
