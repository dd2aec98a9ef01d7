//! The three requests that the service answers, each as one function over
//! the table: write, read and delete. Everything that can be refused is
//! refused before the table is touched.

use vstd::prelude::*;
use vstd::string::StringExecFns;
use crate::access::{authorization, authorize_delete, token_text, token_verdict, DeletionToken};
use crate::codec::{
    compress,
    decode,
    decompress,
    encode,
    lemma_round_trip,
    too_large_text,
    CodecFault,
    MAX_CONTENT_LEN,
};
use crate::errors::{out_of_range_text, Error};
use crate::policy::{
    content_verdict,
    identifier_verdict,
    native_length_of,
    stored_length_of,
    to_native_length,
    to_stored_length,
    validate_content_length,
    validate_identifier,
    Limits,
};
use crate::render::{render_bytes, renders};
use crate::store::{conflict_text, later, Entry, EntryView, Store, StoreView};

verus! {

/// Why a write is turned away before anything is stored.
pub enum Refusal {
    /// The policy's verdict on the content or the identifier.
    Policy(Error),
    /// The length of the content does not fit the integer of the stored row.
    Length,
    /// The content is larger than the codec can describe.
    TooLarge,
}

impl Refusal {
    /// Whether `err` is the failure that stands for this refusal.
    pub open spec fn reported_as(self, err: Error) -> bool {
        match self {
            Refusal::Policy(verdict) => err == verdict,
            Refusal::Length => err matches Error::IntConversion(detail) && detail@
                == out_of_range_text(),
            Refusal::TooLarge => err matches Error::Compression(detail) && detail@
                == too_large_text(),
        }
    }
}

/// What is made of a write before the table is asked: the encoded content
/// and its length as the row stores it, or the refusal. The size of the
/// content is judged first, the identifier second, the length third and the
/// codec's limit last.
pub open spec fn admission(limits: Limits, id: Seq<char>, content: Seq<u8>) -> Result<
    (Seq<u8>, i64),
    Refusal,
> {
    if content_verdict(content.len(), limits.max_content_len as nat) is Err {
        Err(Refusal::Policy(Error::WrongSize))
    } else if identifier_verdict(id, limits.id_len as nat) is Err {
        Err(Refusal::Policy(identifier_verdict(id, limits.id_len as nat)->Err_0))
    } else if stored_length_of(content.len()) is None {
        Err(Refusal::Length)
    } else if content.len() > MAX_CONTENT_LEN {
        Err(Refusal::TooLarge)
    } else {
        Ok((encode(content), stored_length_of(content.len())->0))
    }
}

/// Judges a write and encodes its content, without touching any table.
pub fn prepare(limits: &Limits, id: &str, content: &[u8]) -> (sealed: Result<(Vec<u8>, i64), Error>)
    ensures
        match admission(*limits, id@, content@) {
            Ok((bytes, length)) => sealed matches Ok((b, l)) && b@ == bytes && l == length,
            Err(refusal) => sealed matches Err(err) && refusal.reported_as(err),
        },
{
    match validate_content_length(content.len(), limits.max_content_len) {
        Ok(()) => {},
        Err(err) => {
            return Err(err);
        },
    }
    match validate_identifier(id, limits.id_len) {
        Ok(()) => {},
        Err(err) => {
            return Err(err);
        },
    }
    let length: i64 = match to_stored_length(content.len()) {
        Ok(length) => length,
        Err(err) => {
            return Err(err);
        },
    };
    match compress(content) {
        Ok(bytes) => Ok((bytes, length)),
        Err(err) => Err(err),
    }
}

/// What a write does to the table and what it returns. A write that is
/// refused, and one under an identifier that is taken, leaves the table as
/// it was. Any other adds the entry and returns its identifier.
pub open spec fn write_post(
    before: StoreView,
    limits: Limits,
    id: Seq<char>,
    content: Seq<u8>,
    token: Seq<char>,
    now: u64,
    outcome: Result<String, Error>,
    after: StoreView,
) -> bool {
    match admission(limits, id, content) {
        Err(refusal) => {
            &&& outcome matches Err(err)
            &&& refusal.reported_as(err)
            &&& after == before
        },
        Ok((bytes, length)) => if before.entries.dom().contains(id) {
            &&& outcome matches Err(Error::Sqlite(detail))
            &&& detail@ == conflict_text()
            &&& after == before
        } else {
            &&& outcome matches Ok(name)
            &&& name@ == id
            &&& after.clock == later(now, before.clock)
            &&& after.entries == before.entries.insert(
                id,
                EntryView {
                    id,
                    compressed_content: bytes,
                    content_length: length,
                    deletion_token: token,
                    created_at: after.clock,
                },
            )
        },
    }
}

/// Stores `content` under `id`, to be deleted by whoever presents `token`,
/// and returns the identifier. An identifier that is taken is not given
/// away a second time: the write fails, and the entry that is there stays
/// as it is.
pub fn write(
    store: &mut Store,
    limits: &Limits,
    id: &str,
    content: &[u8],
    token: DeletionToken,
    now: u64,
) -> (outcome: Result<String, Error>)
    ensures
        write_post(old(store)@, *limits, id@, content@, token@, now, outcome, final(store)@),
{
    let (bytes, length) = match prepare(limits, id, content) {
        Ok(sealed) => sealed,
        Err(err) => {
            return Err(err);
        },
    };
    match store.insert(id, bytes, length, token, now) {
        Ok(()) => Ok(String::from_str(id)),
        Err(err) => Err(err),
    }
}

/// Why the content of an entry cannot be handed out.
pub enum Damage {
    /// The recorded length is no length at all.
    Length,
    /// The codec cannot decode the stored bytes.
    Codec(CodecFault),
    /// The decoded content has another length than the recorded one.
    Mismatch,
}

/// The description of the failure for content that has another length than
/// the one recorded with it.
pub open spec fn mismatch_text() -> Seq<char> {
    "content length differs from the recorded one"@
}

impl Damage {
    /// Whether `err` is the failure that stands for this damage.
    pub open spec fn reported_as(self, err: Error) -> bool {
        match self {
            Damage::Length => err matches Error::IntConversion(detail) && detail@
                == out_of_range_text(),
            Damage::Codec(fault) => err matches Error::Compression(detail) && detail@
                == fault.text(),
            Damage::Mismatch => err matches Error::Compression(detail) && detail@
                == mismatch_text(),
        }
    }
}

/// The content of an entry: what its bytes decode to, where that has the
/// recorded length. The recorded length is judged first, the bytes second.
pub open spec fn opened(entry: EntryView) -> Result<Seq<u8>, Damage> {
    match native_length_of(entry.content_length) {
        None => Err(Damage::Length),
        Some(length) => match decode(entry.compressed_content) {
            Err(fault) => Err(Damage::Codec(fault)),
            Ok(content) => if content.len() == length {
                Ok(content)
            } else {
                Err(Damage::Mismatch)
            },
        },
    }
}

/// Decodes the content of an entry and holds it against the recorded
/// length. The content comes back whole or not at all.
pub fn open_entry(entry: &Entry) -> (content: Result<Vec<u8>, Error>)
    ensures
        match opened(entry@) {
            Ok(bytes) => content matches Ok(c) && c@ == bytes,
            Err(damage) => content matches Err(err) && damage.reported_as(err),
        },
{
    let length: usize = match to_native_length(entry.content_length()) {
        Ok(length) => length,
        Err(err) => {
            return Err(err);
        },
    };
    let content = match decompress(entry.compressed_content()) {
        Ok(content) => content,
        Err(err) => {
            return Err(err);
        },
    };
    if content.len() != length {
        return Err(
            Error::Compression(String::from_str("content length differs from the recorded one")),
        );
    }
    Ok(content)
}

/// Why a read hands out no content.
pub enum Miss {
    /// The policy does not admit the identifier.
    Policy(Error),
    /// The table has no entry under the identifier.
    Absent,
    /// The entry is there and its content is damaged.
    Damaged(Damage),
}

impl Miss {
    /// Whether `err` is the failure that stands for this miss.
    pub open spec fn reported_as(self, err: Error) -> bool {
        match self {
            Miss::Policy(verdict) => err == verdict,
            Miss::Absent => err == Error::NotFound,
            Miss::Damaged(damage) => damage.reported_as(err),
        }
    }
}

/// The content that the table holds under an identifier, or why a read
/// hands out none. The identifier is judged first; then the entry has to be
/// there; then its content has to be whole.
pub open spec fn content_of(table: StoreView, limits: Limits, id: Seq<char>) -> Result<
    Seq<u8>,
    Miss,
> {
    if identifier_verdict(id, limits.id_len as nat) is Err {
        Err(Miss::Policy(identifier_verdict(id, limits.id_len as nat)->Err_0))
    } else if !table.entries.dom().contains(id) {
        Err(Miss::Absent)
    } else {
        match opened(table.entries[id]) {
            Ok(bytes) => Ok(bytes),
            Err(damage) => Err(Miss::Damaged(damage)),
        }
    }
}

/// What a read returns: the content under the identifier, or the failure
/// that stands for the miss.
pub open spec fn read_post(
    table: StoreView,
    limits: Limits,
    id: Seq<char>,
    outcome: Result<Vec<u8>, Error>,
) -> bool {
    match content_of(table, limits, id) {
        Ok(bytes) => outcome matches Ok(content) && content@ == bytes,
        Err(miss) => outcome matches Err(err) && miss.reported_as(err),
    }
}

/// Returns the content stored under `id`.
pub fn read(store: &Store, limits: &Limits, id: &str) -> (outcome: Result<Vec<u8>, Error>)
    ensures
        read_post(store@, *limits, id@, outcome),
{
    match validate_identifier(id, limits.id_len) {
        Ok(()) => {},
        Err(err) => {
            return Err(err);
        },
    }
    match store.get(id) {
        Ok(entry) => open_entry(entry),
        Err(err) => Err(err),
    }
}

/// What a rendered read returns: the highlighted content under the
/// identifier, the failure that stands for the miss, or the failure of the
/// renderer.
pub open spec fn read_rendered_post(
    table: StoreView,
    limits: Limits,
    id: Seq<char>,
    hint: Seq<char>,
    theme: Seq<char>,
    outcome: Result<String, Error>,
) -> bool {
    match content_of(table, limits, id) {
        Ok(bytes) => renders(bytes, hint, theme, outcome),
        Err(miss) => outcome matches Err(err) && miss.reported_as(err),
    }
}

/// Returns the content stored under `id` as highlighted HTML.
pub fn read_rendered(store: &Store, limits: &Limits, id: &str, hint: &str, theme: &str) -> (outcome:
    Result<String, Error>)
    ensures
        read_rendered_post(store@, *limits, id@, hint@, theme@, outcome),
{
    match read(store, limits, id) {
        Ok(content) => render_bytes(content.as_slice(), hint, theme),
        Err(err) => Err(err),
    }
}

/// What a delete does to the table and what it returns. The identifier is
/// judged first and the presented token second; then the entry has to be
/// there, and the token has to be the recorded one. Only then is the entry
/// taken out; in every other case the table stays as it was.
pub open spec fn delete_post(
    before: StoreView,
    limits: Limits,
    id: Seq<char>,
    presented: Option<Seq<char>>,
    outcome: Result<(), Error>,
    after: StoreView,
) -> bool {
    if identifier_verdict(id, limits.id_len as nat) is Err {
        outcome == identifier_verdict(id, limits.id_len as nat) && after == before
    } else {
        match token_verdict(presented) {
            Err(fault) => {
                &&& outcome matches Err(Error::CookieParsing(detail))
                &&& detail@ == fault.text()
                &&& after == before
            },
            Ok(token) => if !before.entries.dom().contains(id) {
                outcome == Err::<(), Error>(Error::NotFound) && after == before
            } else if authorization(before.entries[id].deletion_token, token) is Err {
                outcome == Err::<(), Error>(Error::Delete) && after == before
            } else {
                &&& outcome == Ok::<(), Error>(())
                &&& after.entries == before.entries.remove(id)
                &&& after.clock == before.clock
            },
        }
    }
}

/// Deletes the entry under `id` for whoever presents its token.
pub fn delete(store: &mut Store, limits: &Limits, id: &str, presented: Option<&str>) -> (outcome:
    Result<(), Error>)
    ensures
        delete_post(
            old(store)@,
            *limits,
            id@,
            match presented {
                Some(text) => Some(text@),
                None => None,
            },
            outcome,
            final(store)@,
        ),
{
    match validate_identifier(id, limits.id_len) {
        Ok(()) => {},
        Err(err) => {
            return Err(err);
        },
    }
    let token = match DeletionToken::parse(presented) {
        Ok(token) => token,
        Err(err) => {
            return Err(err);
        },
    };
    match store.get(id) {
        Ok(entry) => match authorize_delete(entry, &token) {
            Ok(()) => {},
            Err(err) => {
                return Err(err);
            },
        },
        Err(err) => {
            return Err(err);
        },
    }
    store.delete(id)
}

/// A write keeps the table consistent, and never changes or removes an
/// entry that is there.
pub proof fn lemma_write_keeps_entries(
    before: StoreView,
    limits: Limits,
    id: Seq<char>,
    content: Seq<u8>,
    token: Seq<char>,
    now: u64,
    outcome: Result<String, Error>,
    after: StoreView,
)
    requires
        before.consistent(),
        write_post(before, limits, id, content, token, now, outcome, after),
    ensures
        after.consistent(),
        before.clock <= after.clock,
        outcome is Err ==> after == before,
        outcome is Ok ==> forall|other: Seq<char>| #[trigger]
            before.entries.dom().contains(other) ==> before.entries[other].created_at
                <= after.entries[id].created_at,
        forall|other: Seq<char>| #[trigger]
            before.entries.dom().contains(other) ==> after.entries.dom().contains(other)
                && after.entries[other] == before.entries[other],
{
}

/// A write with empty content, or with more content than the limit, is
/// refused with `WrongSize` and leaves the table exactly as it was,
/// whatever the identifier, the token and the table are.
pub proof fn lemma_wrong_size_leaves_no_trace(
    before: StoreView,
    limits: Limits,
    id: Seq<char>,
    content: Seq<u8>,
    token: Seq<char>,
    now: u64,
    outcome: Result<String, Error>,
    after: StoreView,
)
    requires
        write_post(before, limits, id, content, token, now, outcome, after),
        content.len() == 0 || content.len() > limits.max_content_len,
    ensures
        outcome matches Err(err) && err == Error::WrongSize,
        after == before,
{
}

/// A write under an identifier with a character outside the identifier
/// alphabet is refused with `IllegalCharacters`, where the size of the
/// content is in order, and leaves the table exactly as it was.
pub proof fn lemma_illegal_identifier_leaves_no_trace(
    before: StoreView,
    limits: Limits,
    id: Seq<char>,
    content: Seq<u8>,
    token: Seq<char>,
    now: u64,
    outcome: Result<String, Error>,
    after: StoreView,
)
    requires
        write_post(before, limits, id, content, token, now, outcome, after),
        0 < content.len() <= limits.max_content_len,
        !crate::policy::Alphabet::Identifier.admits_all(id),
    ensures
        outcome matches Err(err) && err == Error::IllegalCharacters,
        after == before,
{
}

/// Two writes under one identifier cannot both succeed. After one that
/// succeeded the next changes nothing, and where it is not refused for its
/// own sake it fails with the storage failure for a taken identifier.
pub proof fn lemma_second_write_conflicts(
    before: StoreView,
    limits: Limits,
    id: Seq<char>,
    first_content: Seq<u8>,
    first_token: Seq<char>,
    first_now: u64,
    first: Result<String, Error>,
    between: StoreView,
    second_content: Seq<u8>,
    second_token: Seq<char>,
    second_now: u64,
    second: Result<String, Error>,
    after: StoreView,
)
    requires
        write_post(before, limits, id, first_content, first_token, first_now, first, between),
        write_post(between, limits, id, second_content, second_token, second_now, second, after),
    ensures
        !(first is Ok && second is Ok),
        first is Ok ==> second is Err && after == between,
        first is Ok && admission(limits, id, second_content) is Ok ==> (second matches Err(
            Error::Sqlite(detail),
        ) && detail@ == conflict_text()),
{
}

/// What was written is what is read: after a write that succeeded, a read
/// under the same identifier returns the content, byte for byte.
pub proof fn lemma_read_returns_what_was_written(
    before: StoreView,
    limits: Limits,
    id: Seq<char>,
    content: Seq<u8>,
    token: Seq<char>,
    now: u64,
    written: Result<String, Error>,
    after: StoreView,
    outcome: Result<Vec<u8>, Error>,
)
    requires
        write_post(before, limits, id, content, token, now, written, after),
        written is Ok,
        read_post(after, limits, id, outcome),
    ensures
        outcome matches Ok(bytes) && bytes@ == content,
{
    lemma_round_trip(content);
}

/// A read under an identifier that the policy admits and the table does
/// not hold gives `NotFound`.
pub proof fn lemma_missing_entry_is_not_found(
    table: StoreView,
    limits: Limits,
    id: Seq<char>,
    outcome: Result<Vec<u8>, Error>,
)
    requires
        read_post(table, limits, id, outcome),
        identifier_verdict(id, limits.id_len as nat) is Ok,
        !table.entries.dom().contains(id),
    ensures
        outcome matches Err(err) && err == Error::NotFound,
{
}

/// After a delete that succeeded, a read under the same identifier gives
/// `NotFound`.
pub proof fn lemma_deleted_entry_is_not_found(
    before: StoreView,
    limits: Limits,
    id: Seq<char>,
    presented: Option<Seq<char>>,
    deleted: Result<(), Error>,
    after: StoreView,
    outcome: Result<Vec<u8>, Error>,
)
    requires
        delete_post(before, limits, id, presented, deleted, after),
        deleted is Ok,
        read_post(after, limits, id, outcome),
    ensures
        outcome matches Err(err) && err == Error::NotFound,
{
}

/// Deleting what was written takes the token it was written with: with a
/// token that can be read, the delete succeeds if and only if the token is
/// the recorded one, character for character. Any other such token is
/// answered with `Delete` and leaves the entry where it is.
pub proof fn lemma_delete_takes_the_recorded_token(
    before: StoreView,
    limits: Limits,
    id: Seq<char>,
    content: Seq<u8>,
    token: Seq<char>,
    now: u64,
    written: Result<String, Error>,
    between: StoreView,
    presented: Seq<char>,
    deleted: Result<(), Error>,
    after: StoreView,
)
    requires
        write_post(before, limits, id, content, token, now, written, between),
        written is Ok,
        token_text(presented),
        delete_post(between, limits, id, Some(presented), deleted, after),
    ensures
        deleted is Ok <==> presented == token,
        presented == token ==> !after.entries.dom().contains(id),
        presented != token ==> deleted == Err::<(), Error>(Error::Delete) && after == between,
{
}

/// A delete that fails, for whatever reason, leaves the table exactly as
/// it was; one that succeeds takes out the one entry and no other.
pub proof fn lemma_delete_removes_one_or_nothing(
    before: StoreView,
    limits: Limits,
    id: Seq<char>,
    presented: Option<Seq<char>>,
    deleted: Result<(), Error>,
    after: StoreView,
)
    requires
        before.consistent(),
        delete_post(before, limits, id, presented, deleted, after),
    ensures
        after.consistent(),
        deleted is Err ==> after == before,
        deleted is Ok ==> !after.entries.dom().contains(id),
        forall|other: Seq<char>| #[trigger]
            before.entries.dom().contains(other) && other != id ==> after.entries.dom().contains(
                other,
            ) && after.entries[other] == before.entries[other],
{
}

} // verus!
