//! Identifiers: UUID text from the `uuid` crate, and the device id that is kept
//! in a file beside the executable.

use vstd::prelude::*;
use crate::text::{is_white_space, lemma_trim_characterized, trim, trim_end, trim_start, trim_str};

verus! {

/// A lowercase hexadecimal digit.
pub open spec fn is_lower_hex_digit(c: char) -> bool {
    ('0' <= c && c <= '9') || ('a' <= c && c <= 'f')
}

/// The positions of the four hyphens in the hyphenated UUID form.
pub open spec fn is_uuid_hyphen_position(i: int) -> bool {
    i == 8 || i == 13 || i == 18 || i == 23
}

/// `s` is a UUID in lowercase hyphenated form (`xxxxxxxx-xxxx-Vxxx-Nxxx-xxxxxxxxxxxx`)
/// whose version digit is `version` and whose variant digit is that of RFC 9562.
pub open spec fn is_uuid_text(s: Seq<char>, version: char) -> bool {
    &&& s.len() == 36
    &&& forall|i: int|
        0 <= i < 36 ==> if is_uuid_hyphen_position(i) {
            s[i] == '-'
        } else {
            is_lower_hex_digit(#[trigger] s[i])
        }
    &&& s[14] == version
    &&& (s[19] == '8' || s[19] == '9' || s[19] == 'a' || s[19] == 'b')
}

/// Calls `uuid::Uuid::new_v4` and formats the result with `Display`.
/// Trusted: the id is random; what is claimed is only its text form, which the
/// crate's source fixes (lowercase hyphenated, version nibble 4, variant bits 10).
/// The call panics if the operating system's random source fails; no argument
/// can rule that out.
#[verifier::external_body]
fn new_random_uuid_text() -> (id: String)
    ensures
        is_uuid_text(id@, '4'),
{
    uuid::Uuid::new_v4().to_string()
}

/// Calls `uuid::Uuid::now_v7` and formats the result with `Display`.
/// Trusted: the id depends on the clock and on random bits; what is claimed is only
/// its text form (lowercase hyphenated, version nibble 7, variant bits 10).
/// The call panics if the system clock reads earlier than the Unix epoch.
#[verifier::external_body]
pub(crate) fn new_time_ordered_uuid_text() -> (id: String)
    ensures
        is_uuid_text(id@, '7'),
{
    uuid::Uuid::now_v7().to_string()
}

/// What becomes of the content of the device id file, if there is one:
/// `Some(id)` when the stored id is reused, `None` when a fresh id must be made.
pub open spec fn stored_device_id(stored: Option<Seq<char>>) -> Option<Seq<char>> {
    match stored {
        Some(content) => if trim(content).len() > 0 {
            Some(trim(content))
        } else {
            None
        },
        None => None,
    }
}

/// The device id, and whether it was read from the file or has just been made
/// (and must then be written to the file).
#[derive(Debug)]
pub enum DeviceId {
    Stored(String),
    Fresh(String),
}

impl DeviceId {
    /// The id itself.
    pub open spec fn id_view(&self) -> Seq<char> {
        match self {
            DeviceId::Stored(id) => id@,
            DeviceId::Fresh(id) => id@,
        }
    }

    /// The id as a string.
    pub fn id(&self) -> (s: &str)
        ensures
            s@ == self.id_view(),
    {
        match self {
            DeviceId::Stored(id) => id.as_str(),
            DeviceId::Fresh(id) => id.as_str(),
        }
    }

    /// Whether the id was just made and still has to be stored.
    pub fn is_fresh(&self) -> (b: bool)
        ensures
            b == (self is Fresh),
    {
        match self {
            DeviceId::Stored(_) => false,
            DeviceId::Fresh(_) => true,
        }
    }
}

/// Decides the device id from the content of the device id file (`None` when the
/// file does not exist): the trimmed content when it is not empty, else a fresh
/// random UUID, which the caller stores.
pub fn get_or_create_device_id(stored: Option<&str>) -> (d: DeviceId)
    ensures
        match stored_device_id(
            match stored {
                Some(s) => Some(s@),
                None => None,
            },
        ) {
            Some(id) => d matches DeviceId::Stored(s) && s@ == id,
            None => d matches DeviceId::Fresh(s) && is_uuid_text(s@, '4'),
        },
{
    match stored {
        Some(content) => {
            let trimmed = trim_str(content);
            if trimmed.unicode_len() > 0 {
                return DeviceId::Stored(trimmed);
            }
        },
        None => {},
    }
    DeviceId::Fresh(new_random_uuid_text())
}

/// A UUID in hyphenated form is its own trimmed form: it neither starts nor ends
/// with whitespace.
pub proof fn lemma_uuid_text_is_trimmed(s: Seq<char>, version: char)
    requires
        is_uuid_text(s, version),
    ensures
        trim(s) == s,
        s.len() > 0,
{
    assert(is_lower_hex_digit(s[0]));
    assert(!is_white_space(s[0]));
    assert(trim_start(s) == s);
    assert(is_lower_hex_digit(s[35]));
    assert(s.last() == s[35]);
    assert(!is_white_space(s.last()));
}

/// A freshly made device id, once written to the file, is read back unchanged on
/// the next start: the device id is stable across runs.
pub proof fn lemma_fresh_device_id_reads_back(id: Seq<char>)
    requires
        is_uuid_text(id, '4'),
    ensures
        stored_device_id(Some(id)) == Some(id),
{
    lemma_uuid_text_is_trimmed(id, '4');
}

/// A stored id that is read once is read again unchanged: trimming is idempotent.
pub proof fn lemma_stored_device_id_is_stable(content: Seq<char>)
    requires
        stored_device_id(Some(content)) is Some,
    ensures
        stored_device_id(Some(stored_device_id(Some(content))->0)) == stored_device_id(
            Some(content),
        ),
{
    crate::text::lemma_trim_idempotent(content);
}

/// The device id in terms of the file: a fresh id is made exactly when there is no
/// file or the file holds only whitespace; otherwise the id is the file's text with
/// the whitespace around it cut off (and nothing else), which is not empty and neither
/// starts nor ends with whitespace.
pub proof fn lemma_device_id_in_terms_of_file(content: Option<Seq<char>>)
    ensures
        (stored_device_id(content) is None) <==> (content is None || forall|k: int|
            0 <= k < content->0.len() ==> is_white_space(#[trigger] content->0[k])),
        stored_device_id(content) is Some ==> {
            let id = stored_device_id(content)->0;
            let c = content->0;
            &&& id.len() > 0
            &&& !is_white_space(id[0])
            &&& !is_white_space(id.last())
            &&& exists|i: int, j: int|
                0 <= i <= j <= c.len() && id == c.subrange(i, j) && (forall|k: int|
                    0 <= k < i ==> is_white_space(#[trigger] c[k])) && (forall|k: int|
                    j <= k < c.len() ==> is_white_space(#[trigger] c[k]))
        },
{
    if content is Some {
        let c = content->0;
        let (i, j) = lemma_trim_characterized(c);
        if trim(c).len() > 0 {
            assert(trim(c)[0] == c[i]);
            assert(trim(c).last() == c[j - 1]);
            assert(0 <= i <= j <= c.len() && trim(c) == c.subrange(i, j));
        }
    }
}

} // verus!
