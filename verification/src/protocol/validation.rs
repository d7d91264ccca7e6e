//! Checks on what arrives from outside before it is used.

use vstd::prelude::*;
use vstd::string::{StrSliceExecFns, StringSliceAdditionalSpecFns};
use vstd::utf8::encode_utf8;
use crate::error::ConstructError;
use crate::protocol::messages::{ChatMessage, ProtocolMessage, RegistrationBundle};
use crate::utils::time::current_timestamp;

verus! {

/// Whether a character is a letter or a digit of some script, as the
/// Unicode tables of the standard library have it.
pub uninterp spec fn char_is_alphanumeric(c: char) -> bool;

/// Whether a character is one of the ASCII letters and digits.
pub open spec fn is_ascii_letter_or_digit(c: char) -> bool {
    ('0' <= c && c <= '9') || ('A' <= c && c <= 'Z') || ('a' <= c && c <= 'z')
}

/// Whether a character is a letter or a digit: among the ASCII characters
/// the letters `A` to `Z` and `a` to `z` and the digits `0` to `9`, beyond
/// them what the Unicode tables have as alphabetic or numeric.
pub open spec fn is_letter_or_digit(c: char) -> bool {
    if c <= '\x7f' {
        is_ascii_letter_or_digit(c)
    } else {
        char_is_alphanumeric(c)
    }
}

/// `char::is_alphanumeric` of the standard library: a function of the
/// character alone, which among the ASCII characters holds of the letters
/// and digits and of no other.
#[verifier::external_body]
fn is_alphanumeric(c: char) -> (r: bool)
    ensures
        r == if c <= '\x7f' {
            is_ascii_letter_or_digit(c)
        } else {
            char_is_alphanumeric(c)
        },
{
    c.is_alphanumeric()
}

/// The shortest user name, in bytes.
pub const USERNAME_MIN_LEN: usize = 3;

/// The longest user name, in bytes.
pub const USERNAME_MAX_LEN: usize = 32;

/// The length of a UUID in its hyphenated form.
pub const UUID_LEN: usize = 36;

/// The length of the base64 form of 32 bytes.
pub const BASE64_KEY_LEN: usize = 44;

/// The length of the base64 form of 64 bytes.
pub const BASE64_SIGNATURE_LEN: usize = 88;

/// The length of a ratchet public key.
pub const EPHEMERAL_KEY_LEN: usize = 32;

/// By how many seconds the timestamp of a message may lie ahead.
pub const MAX_CLOCK_SKEW_SECONDS: i64 = 60;

/// Whether a character may stand in a user name.
pub open spec fn is_username_char(c: char) -> bool {
    is_letter_or_digit(c) || c == '_' || c == '-'
}

/// Whether a text is a user name: 3 to 32 bytes of letters, digits,
/// underscores and hyphens.
pub open spec fn is_username(text: Seq<char>) -> bool {
    &&& USERNAME_MIN_LEN <= encode_utf8(text).len() <= USERNAME_MAX_LEN
    &&& forall|i: int| 0 <= i < text.len() ==> is_username_char(#[trigger] text[i])
}

/// Whether a byte is a hyphen.
pub open spec fn is_hyphen(byte: u8) -> bool {
    byte == 0x2d
}

/// Whether a place in a UUID holds a hyphen: the places after 8, 12, 16
/// and 20 other characters.
pub open spec fn is_hyphen_place(i: int) -> bool {
    i == 8 || i == 13 || i == 18 || i == 23
}

/// Whether bytes have the shape of a UUID: 36 of them, which hyphens
/// divide into groups of 8, 4, 4, 4 and 12.
pub open spec fn bytes_have_uuid_shape(bytes: Seq<u8>) -> bool {
    &&& bytes.len() == UUID_LEN
    &&& forall|i: int| 0 <= i < bytes.len() ==> (is_hyphen(#[trigger] bytes[i]) <==> is_hyphen_place(i))
}

/// Whether a text has the shape of a UUID.
pub open spec fn has_uuid_shape(text: Seq<char>) -> bool {
    bytes_have_uuid_shape(encode_utf8(text))
}

/// Whether a registration bundle has fields of the lengths that base64
/// gives to 32-byte keys and a 64-byte signature.
pub open spec fn registration_bundle_valid(bundle: RegistrationBundle) -> bool {
    &&& encode_utf8(bundle.identity_public@).len() == BASE64_KEY_LEN
    &&& encode_utf8(bundle.signed_prekey_public@).len() == BASE64_KEY_LEN
    &&& encode_utf8(bundle.signature@).len() == BASE64_SIGNATURE_LEN
    &&& encode_utf8(bundle.verifying_key@).len() == BASE64_KEY_LEN
}

/// Whether a chat message may be handled at the time `now`: its three ids
/// have the shape of a UUID, its key has 32 bytes, it has content, and its
/// timestamp lies no more than a minute ahead.
pub open spec fn chat_message_valid(msg: ChatMessage, now: i64) -> bool {
    &&& has_uuid_shape(msg.id@)
    &&& has_uuid_shape(msg.from@)
    &&& has_uuid_shape(msg.to@)
    &&& msg.ephemeral_public_key@.len() == EPHEMERAL_KEY_LEN
    &&& msg.content@.len() > 0
    &&& msg.timestamp <= now + MAX_CLOCK_SKEW_SECONDS
}

/// Whether a protocol message may be handled at the time `now`. Names,
/// ids, bundles and chat messages are checked; the other messages hold
/// nothing to check.
pub open spec fn protocol_message_valid(msg: ProtocolMessage, now: i64) -> bool {
    match msg {
        ProtocolMessage::Register { username, bundle } => is_username(username@) && registration_bundle_valid(bundle),
        ProtocolMessage::Login { username } => is_username(username@),
        ProtocolMessage::SendMessage(chat) => chat_message_valid(chat, now),
        ProtocolMessage::ReceiveMessage(chat) => chat_message_valid(chat, now),
        ProtocolMessage::RequestKeyBundle { user_id } => has_uuid_shape(user_id@),
        ProtocolMessage::KeyBundleResponse(data) => has_uuid_shape(data.user_id@) && encode_utf8(
            data.identity_public@,
        ).len() == BASE64_KEY_LEN,
        _ => true,
    }
}

/// The error of a failed check, with what failed.
fn invalid(reason: &str) -> (r: Result<(), ConstructError>)
    ensures
        r matches Err(e) && e matches ConstructError::ValidationError(text) && text@ == reason@,
{
    Err(ConstructError::ValidationError(reason.to_owned()))
}

/// Checks a user name. Every failure is a `ValidationError`.
pub fn validate_username(username: &str) -> (r: Result<(), ConstructError>)
    ensures
        r is Ok <==> is_username(username@),
        r matches Err(e) ==> e is ValidationError,
{
    let byte_count = username.as_bytes().len();
    if byte_count < USERNAME_MIN_LEN || byte_count > USERNAME_MAX_LEN {
        return invalid("Username must be between 3 and 32 characters");
    }
    let count = username.unicode_len();
    let mut i: usize = 0;
    while i < count
        invariant
            i <= count,
            count == username@.len(),
            USERNAME_MIN_LEN <= encode_utf8(username@).len() <= USERNAME_MAX_LEN,
            forall|j: int| 0 <= j < i ==> is_username_char(#[trigger] username@[j]),
        decreases count - i,
    {
        let c = username.get_char(i);
        if !(is_alphanumeric(c) || c == '_' || c == '-') {
            return invalid("Username can only contain alphanumeric characters, underscores, and hyphens");
        }
        i += 1;
    }
    Ok(())
}

/// Checks that a text has the shape of a UUID. Every failure is a
/// `ValidationError`.
pub fn validate_uuid(uuid: &str) -> (r: Result<(), ConstructError>)
    ensures
        r is Ok <==> has_uuid_shape(uuid@),
        r matches Err(e) ==> e is ValidationError,
{
    let bytes = uuid.as_bytes();
    if bytes.len() != UUID_LEN {
        return invalid("Invalid UUID format: incorrect length");
    }
    let mut i: usize = 0;
    while i < UUID_LEN
        invariant
            i <= UUID_LEN,
            bytes@.len() == UUID_LEN,
            bytes@ == encode_utf8(uuid@),
            forall|j: int| 0 <= j < i ==> (is_hyphen(#[trigger] bytes@[j]) <==> is_hyphen_place(j)),
        decreases UUID_LEN - i,
    {
        let hyphen_expected = i == 8 || i == 13 || i == 18 || i == 23;
        if (bytes[i] == 0x2d) != hyphen_expected {
            return invalid("Invalid UUID format");
        }
        i += 1;
    }
    Ok(())
}

/// Checks a chat message against the time `now`. Every failure is a
/// `ValidationError`.
pub fn validate_chat_message_at(msg: &ChatMessage, now: i64) -> (r: Result<(), ConstructError>)
    ensures
        r is Ok <==> chat_message_valid(*msg, now),
        r matches Err(e) ==> e is ValidationError,
{
    validate_uuid(msg.id.as_str())?;
    validate_uuid(msg.from.as_str())?;
    validate_uuid(msg.to.as_str())?;
    if msg.ephemeral_public_key.len() != EPHEMERAL_KEY_LEN {
        return invalid("Ephemeral public key must be 32 bytes");
    }
    if msg.content.as_str().is_empty() {
        return invalid("Message content cannot be empty");
    }
    if (msg.timestamp as i128) > (now as i128) + (MAX_CLOCK_SKEW_SECONDS as i128) {
        return invalid("Message timestamp is in the future");
    }
    Ok(())
}

/// Checks a chat message against the current time. A message that fails
/// for its ids, key or content fails whatever the time.
pub fn validate_chat_message(msg: &ChatMessage) -> (r: Result<(), ConstructError>)
    ensures
        exists|now: i64| now >= 0 && (r is Ok <==> #[trigger] chat_message_valid(*msg, now)),
        r matches Err(e) ==> e is ValidationError,
{
    let now = current_timestamp();
    let r = validate_chat_message_at(msg, now);
    assert(r is Ok <==> chat_message_valid(*msg, now));
    r
}

/// Checks a registration bundle. Every failure is a `ValidationError`.
pub fn validate_registration_bundle(bundle: &RegistrationBundle) -> (r: Result<(), ConstructError>)
    ensures
        r is Ok <==> registration_bundle_valid(*bundle),
        r matches Err(e) ==> e is ValidationError,
{
    if bundle.identity_public.as_str().as_bytes().len() != BASE64_KEY_LEN {
        return invalid("Identity public key must be 44 characters (32 bytes base64)");
    }
    if bundle.signed_prekey_public.as_str().as_bytes().len() != BASE64_KEY_LEN {
        return invalid("Signed prekey public must be 44 characters (32 bytes base64)");
    }
    if bundle.signature.as_str().as_bytes().len() != BASE64_SIGNATURE_LEN {
        return invalid("Signature must be 88 characters (64 bytes base64)");
    }
    if bundle.verifying_key.as_str().as_bytes().len() != BASE64_KEY_LEN {
        return invalid("Verifying key must be 44 characters (32 bytes base64)");
    }
    Ok(())
}

/// Checks a protocol message against the time `now`. Every failure is a
/// `ValidationError`.
pub fn validate_protocol_message_at(msg: &ProtocolMessage, now: i64) -> (r: Result<(), ConstructError>)
    ensures
        r is Ok <==> protocol_message_valid(*msg, now),
        r matches Err(e) ==> e is ValidationError,
{
    match msg {
        ProtocolMessage::Register { username, bundle } => {
            validate_username(username.as_str())?;
            validate_registration_bundle(bundle)
        },
        ProtocolMessage::Login { username } => validate_username(username.as_str()),
        ProtocolMessage::SendMessage(chat) => validate_chat_message_at(chat, now),
        ProtocolMessage::ReceiveMessage(chat) => validate_chat_message_at(chat, now),
        ProtocolMessage::RequestKeyBundle { user_id } => validate_uuid(user_id.as_str()),
        ProtocolMessage::KeyBundleResponse(data) => {
            validate_uuid(data.user_id.as_str())?;
            if data.identity_public.as_str().as_bytes().len() != BASE64_KEY_LEN {
                return invalid("Invalid identity public key length");
            }
            Ok(())
        },
        _ => Ok(()),
    }
}

/// Checks a protocol message against the current time.
pub fn validate_protocol_message(msg: &ProtocolMessage) -> (r: Result<(), ConstructError>)
    ensures
        exists|now: i64| now >= 0 && (r is Ok <==> #[trigger] protocol_message_valid(*msg, now)),
        r matches Err(e) ==> e is ValidationError,
{
    let now = current_timestamp();
    let r = validate_protocol_message_at(msg, now);
    assert(r is Ok <==> protocol_message_valid(*msg, now));
    r
}

} // verus!
