//! The table of entries: keyed insert, lookup and removal.
//!
//! The table lives in memory. An identifier names at most one entry, an
//! entry never changes once it is in the table, and its removal leaves no
//! trace. Every change takes the table by exclusive reference, so two
//! changes to one table take their turn, and no reader sees half of one.

use vstd::prelude::*;
use vstd::string::StringExecFns;
use crate::access::DeletionToken;
use crate::errors::Error;

verus! {

/// What an entry holds, as plain mathematical values.
pub struct EntryView {
    pub id: Seq<char>,
    pub compressed_content: Seq<u8>,
    pub content_length: i64,
    pub deletion_token: Seq<char>,
    pub created_at: u64,
}

/// One stored piece of content with what is recorded about it. Every
/// field is set when the entry is made; nothing can change one later.
#[derive(Debug, PartialEq, Eq)]
pub struct Entry {
    id: String,
    compressed_content: Vec<u8>,
    content_length: i64,
    deletion_token: DeletionToken,
    created_at: u64,
}

impl View for Entry {
    type V = EntryView;

    closed spec fn view(&self) -> EntryView {
        EntryView {
            id: self.id@,
            compressed_content: self.compressed_content@,
            content_length: self.content_length,
            deletion_token: self.deletion_token@,
            created_at: self.created_at,
        }
    }
}

impl Clone for Entry {
    fn clone(&self) -> (copy: Entry)
        ensures
            copy@ == self@,
    {
        Entry {
            id: self.id.clone(),
            compressed_content: self.compressed_content.clone(),
            content_length: self.content_length,
            deletion_token: self.deletion_token.clone(),
            created_at: self.created_at,
        }
    }
}

impl Entry {
    /// An entry with the given fields.
    pub fn new(
        id: String,
        compressed_content: Vec<u8>,
        content_length: i64,
        deletion_token: DeletionToken,
        created_at: u64,
    ) -> (entry: Entry)
        ensures
            entry@ == (EntryView {
                id: id@,
                compressed_content: compressed_content@,
                content_length,
                deletion_token: deletion_token@,
                created_at,
            }),
    {
        Entry { id, compressed_content, content_length, deletion_token, created_at }
    }

    /// The identifier under which the entry is found.
    pub fn id(&self) -> (id: &str)
        ensures
            id@ == self@.id,
    {
        self.id.as_str()
    }

    /// The content in the form the codec wrote it.
    pub fn compressed_content(&self) -> (bytes: &[u8])
        ensures
            bytes@ == self@.compressed_content,
    {
        self.compressed_content.as_slice()
    }

    /// The length that the content has once it is decoded.
    pub fn content_length(&self) -> (len: i64)
        ensures
            len == self@.content_length,
    {
        self.content_length
    }

    /// The token that has to be presented to delete the entry.
    pub fn deletion_token(&self) -> (token: &DeletionToken)
        ensures
            token@ == self@.deletion_token,
    {
        &self.deletion_token
    }

    /// When the entry was made.
    pub fn created_at(&self) -> (at: u64)
        ensures
            at == self@.created_at,
    {
        self.created_at
    }
}

/// No two entries of the sequence have the same identifier.
spec fn distinct_ids(entries: Seq<Entry>) -> bool {
    forall|i: int, j: int|
        0 <= i < j < entries.len() ==> (#[trigger] entries[i])@.id != (#[trigger] entries[j])@.id
}

/// Where in the sequence the entry with this identifier stands.
spec fn position(entries: Seq<Entry>, id: Seq<char>) -> int {
    choose|i: int| 0 <= i < entries.len() && (#[trigger] entries[i])@.id == id
}

/// The table that a sequence of entries stands for.
spec fn table_of(entries: Seq<Entry>) -> Map<Seq<char>, EntryView> {
    Map::new(
        |id: Seq<char>| exists|i: int| 0 <= i < entries.len() && (#[trigger] entries[i])@.id == id,
        |id: Seq<char>| entries[position(entries, id)]@,
    )
}

/// The entry at a position is what the table holds under its identifier.
proof fn lemma_table_at(entries: Seq<Entry>, i: int)
    requires
        distinct_ids(entries),
        0 <= i < entries.len(),
    ensures
        table_of(entries).dom().contains(entries[i]@.id),
        table_of(entries)[entries[i]@.id] == entries[i]@,
{
    let id = entries[i]@.id;
    let p = position(entries, id);
    assert(0 <= p < entries.len() && entries[p]@.id == id);
    if p < i {
        assert(entries[p]@.id != entries[i]@.id);
    } else if i < p {
        assert(entries[i]@.id != entries[p]@.id);
    }
}

/// Appending an entry with a new identifier adds it to the table.
proof fn lemma_table_push(entries: Seq<Entry>, entry: Entry)
    requires
        distinct_ids(entries),
        !table_of(entries).dom().contains(entry@.id),
    ensures
        distinct_ids(entries.push(entry)),
        table_of(entries.push(entry)) == table_of(entries).insert(entry@.id, entry@),
{
    let longer = entries.push(entry);
    assert forall|i: int, j: int| 0 <= i < j < longer.len() implies (#[trigger] longer[i])@.id != (
    #[trigger] longer[j])@.id by {
        if j == entries.len() {
            assert(longer[i] == entries[i]);
            if entries[i]@.id == entry@.id {
                assert(table_of(entries).dom().contains(entry@.id));
            }
        } else {
            assert(longer[i] == entries[i] && longer[j] == entries[j]);
        }
    }
    let expected = table_of(entries).insert(entry@.id, entry@);
    assert forall|id: Seq<char>| #[trigger] table_of(longer).dom().contains(id) implies expected.dom().contains(
        id,
    ) by {
        let p = position(longer, id);
        assert(0 <= p < longer.len() && longer[p]@.id == id);
        if p < entries.len() {
            assert(entries[p]@.id == id);
        }
    }
    assert forall|id: Seq<char>| #[trigger] expected.dom().contains(id) implies table_of(
        longer,
    ).dom().contains(id) && table_of(longer)[id] == expected[id] by {
        if id == entry@.id {
            assert(longer[entries.len() as int]@.id == id);
            lemma_table_at(longer, entries.len() as int);
        } else {
            let p = position(entries, id);
            assert(0 <= p < entries.len() && entries[p]@.id == id);
            assert(longer[p] == entries[p]);
            lemma_table_at(longer, p);
            lemma_table_at(entries, p);
        }
    }
    assert(table_of(longer) =~= expected);
}

/// Taking an entry out of the sequence takes it out of the table.
proof fn lemma_table_remove(entries: Seq<Entry>, i: int)
    requires
        distinct_ids(entries),
        0 <= i < entries.len(),
    ensures
        distinct_ids(entries.remove(i)),
        table_of(entries.remove(i)) == table_of(entries).remove(entries[i]@.id),
{
    let shorter = entries.remove(i);
    let gone = entries[i]@.id;
    assert forall|a: int, b: int| 0 <= a < b < shorter.len() implies (#[trigger] shorter[a])@.id != (
    #[trigger] shorter[b])@.id by {
        let a0 = if a < i { a } else { a + 1 };
        let b0 = if b < i { b } else { b + 1 };
        assert(shorter[a] == entries[a0] && shorter[b] == entries[b0]);
    }
    let expected = table_of(entries).remove(gone);
    assert forall|id: Seq<char>| #[trigger] table_of(shorter).dom().contains(id) implies expected.dom().contains(
        id,
    ) && table_of(shorter)[id] == expected[id] by {
        let p = position(shorter, id);
        assert(0 <= p < shorter.len() && shorter[p]@.id == id);
        let before_removal = if p < i { p } else { p + 1 };
        assert(shorter[p] == entries[before_removal]);
        if before_removal < i {
            assert(entries[before_removal]@.id != entries[i]@.id);
        } else {
            assert(entries[i]@.id != entries[before_removal]@.id);
        }
        lemma_table_at(entries, before_removal);
        lemma_table_at(shorter, p);
    }
    assert forall|id: Seq<char>| #[trigger] expected.dom().contains(id) implies table_of(
        shorter,
    ).dom().contains(id) by {
        let p = position(entries, id);
        assert(0 <= p < entries.len() && entries[p]@.id == id);
        assert(p != i);
        let q = if p < i { p } else { p - 1 };
        assert(shorter[q] == entries[p]);
    }
    assert(table_of(shorter) =~= expected);
}

/// The table of a sequence with distinct identifiers and no entry younger
/// than the clock is consistent.
proof fn lemma_table_consistent(entries: Seq<Entry>, clock: u64)
    requires
        distinct_ids(entries),
        forall|i: int| 0 <= i < entries.len() ==> (#[trigger] entries[i])@.created_at <= clock,
    ensures
        (StoreView { entries: table_of(entries), clock }).consistent(),
{
    let table = table_of(entries);
    assert forall|id: Seq<char>| #[trigger] table.dom().contains(id) implies table[id].id == id
        && table[id].created_at <= clock by {
        let p = position(entries, id);
        assert(0 <= p < entries.len() && entries[p]@.id == id);
    }
}

/// The table has as many entries as the sequence.
proof fn lemma_table_size(entries: Seq<Entry>)
    requires
        distinct_ids(entries),
    ensures
        table_of(entries).dom().finite(),
        table_of(entries).dom().len() == entries.len(),
    decreases entries.len(),
{
    if entries.len() == 0 {
        assert(table_of(entries).dom() =~= Set::<Seq<char>>::empty());
    } else {
        let last = entries.last();
        let front = entries.drop_last();
        assert forall|i: int, j: int| 0 <= i < j < front.len() implies (#[trigger] front[i])@.id != (
        #[trigger] front[j])@.id by {
            assert(front[i] == entries[i] && front[j] == entries[j]);
        }
        lemma_table_size(front);
        if table_of(front).dom().contains(last@.id) {
            let p = position(front, last@.id);
            assert(0 <= p < front.len() && front[p]@.id == last@.id);
            assert(front[p] == entries[p]);
            assert(entries[p]@.id != entries[entries.len() - 1]@.id);
        }
        lemma_table_push(front, last);
        assert(front.push(last) =~= entries);
    }
}

/// The description that the failure of an insert carries where the
/// identifier is taken.
pub open spec fn conflict_text() -> Seq<char> {
    "identifier is already taken"@
}

/// The later of two times.
pub open spec fn later(a: u64, b: u64) -> u64 {
    if a >= b {
        a
    } else {
        b
    }
}

/// What a table holds, as plain mathematical values.
pub struct StoreView {
    /// The entries, each under its identifier.
    pub entries: Map<Seq<char>, EntryView>,
    /// The latest time at which an entry was made; zero before the first.
    pub clock: u64,
}

impl StoreView {
    /// No entry is younger than the clock, and each stands under its own
    /// identifier. Every table is like this.
    pub open spec fn consistent(self) -> bool {
        forall|id: Seq<char>| #[trigger]
            self.entries.dom().contains(id) ==> self.entries[id].id == id
                && self.entries[id].created_at <= self.clock
    }

    /// A table without entries.
    pub open spec fn empty() -> StoreView {
        StoreView { entries: Map::empty(), clock: 0 }
    }

    /// What an insert does. Under an identifier that is taken it fails with
    /// a storage failure and changes nothing. Under a free one it adds the
    /// entry, stamped with `now` or with the clock, whichever is later.
    pub open spec fn insert_post(
        self,
        id: Seq<char>,
        compressed_content: Seq<u8>,
        content_length: i64,
        deletion_token: Seq<char>,
        now: u64,
        outcome: Result<(), Error>,
        after: StoreView,
    ) -> bool {
        if self.entries.dom().contains(id) {
            &&& outcome matches Err(Error::Sqlite(detail))
            &&& detail@ == conflict_text()
            &&& after == self
        } else {
            &&& outcome == Ok::<(), Error>(())
            &&& after.clock == later(now, self.clock)
            &&& after.entries == self.entries.insert(
                id,
                EntryView {
                    id,
                    compressed_content,
                    content_length,
                    deletion_token,
                    created_at: after.clock,
                },
            )
        }
    }

    /// What a lookup gives: the entry under the identifier, or `NotFound`.
    pub open spec fn get_post(self, id: Seq<char>, found: Result<&Entry, Error>) -> bool {
        match found {
            Ok(entry) => self.entries.dom().contains(id) && entry@ == self.entries[id],
            Err(err) => !self.entries.dom().contains(id) && err == Error::NotFound,
        }
    }

    /// What a removal does: it takes the entry under the identifier out, or
    /// fails with `NotFound` and changes nothing.
    pub open spec fn delete_post(
        self,
        id: Seq<char>,
        outcome: Result<(), Error>,
        after: StoreView,
    ) -> bool {
        if self.entries.dom().contains(id) {
            &&& outcome == Ok::<(), Error>(())
            &&& after.entries == self.entries.remove(id)
            &&& after.clock == self.clock
        } else {
            &&& outcome == Err::<(), Error>(Error::NotFound)
            &&& after == self
        }
    }
}

/// Two inserts under one identifier cannot both succeed: after one that
/// succeeded, the next fails with the storage failure for a taken
/// identifier and leaves the table, the first entry included, as it was.
pub proof fn lemma_second_insert_conflicts(
    before: StoreView,
    id: Seq<char>,
    first_content: Seq<u8>,
    first_length: i64,
    first_token: Seq<char>,
    first_now: u64,
    first: Result<(), Error>,
    between: StoreView,
    second_content: Seq<u8>,
    second_length: i64,
    second_token: Seq<char>,
    second_now: u64,
    second: Result<(), Error>,
    after: StoreView,
)
    requires
        before.insert_post(
            id,
            first_content,
            first_length,
            first_token,
            first_now,
            first,
            between,
        ),
        between.insert_post(
            id,
            second_content,
            second_length,
            second_token,
            second_now,
            second,
            after,
        ),
    ensures
        !(first is Ok && second is Ok),
        first is Ok ==> {
            &&& second matches Err(Error::Sqlite(detail))
            &&& detail@ == conflict_text()
            &&& after == between
            &&& after.entries[id].compressed_content == first_content
            &&& after.entries[id].deletion_token == first_token
        },
{
}

/// An insert keeps the table consistent, and stamps the new entry no
/// earlier than any entry that was there before it.
pub proof fn lemma_insert_keeps_order(
    before: StoreView,
    id: Seq<char>,
    compressed_content: Seq<u8>,
    content_length: i64,
    deletion_token: Seq<char>,
    now: u64,
    outcome: Result<(), Error>,
    after: StoreView,
)
    requires
        before.consistent(),
        before.insert_post(id, compressed_content, content_length, deletion_token, now, outcome, after),
    ensures
        after.consistent(),
        before.clock <= after.clock,
        outcome is Ok ==> forall|other: Seq<char>| #[trigger]
            before.entries.dom().contains(other) ==> before.entries[other].created_at
                <= after.entries[id].created_at,
        forall|other: Seq<char>| #[trigger]
            before.entries.dom().contains(other) ==> after.entries.dom().contains(other)
                && after.entries[other] == before.entries[other],
{
}

/// A removal keeps the table consistent, takes out the one entry and
/// leaves every other as it was. What was removed is not found afterwards.
pub proof fn lemma_delete_removes_one(
    before: StoreView,
    id: Seq<char>,
    outcome: Result<(), Error>,
    after: StoreView,
)
    requires
        before.consistent(),
        before.delete_post(id, outcome, after),
    ensures
        after.consistent(),
        outcome is Ok <==> before.entries.dom().contains(id),
        !after.entries.dom().contains(id),
        forall|other: Seq<char>| #[trigger]
            before.entries.dom().contains(other) && other != id ==> after.entries.dom().contains(
                other,
            ) && after.entries[other] == before.entries[other],
        forall|found: Result<&Entry, Error>| #[trigger]
            after.get_post(id, found) ==> found == Err::<&Entry, Error>(Error::NotFound),
{
}

/// The table of entries, with the latest time at which one was made.
#[derive(Debug)]
pub struct Store {
    entries: Vec<Entry>,
    clock: u64,
}

impl View for Store {
    type V = StoreView;

    closed spec fn view(&self) -> StoreView {
        StoreView { entries: table_of(self.entries@), clock: self.clock }
    }
}

impl Store {
    #[verifier::type_invariant]
    spec fn well_formed(self) -> bool {
        &&& distinct_ids(self.entries@)
        &&& forall|i: int|
            0 <= i < self.entries@.len() ==> (#[trigger] self.entries@[i])@.created_at
                <= self.clock
    }

    /// A table without entries.
    pub fn new() -> (store: Store)
        ensures
            store@ == StoreView::empty(),
    {
        let store = Store { entries: Vec::new(), clock: 0 };
        assert(store@.entries =~= Map::<Seq<char>, EntryView>::empty());
        store
    }

    /// The number of entries.
    pub fn len(&self) -> (n: usize)
        ensures
            self@.entries.dom().finite(),
            n == self@.entries.dom().len(),
    {
        proof {
            use_type_invariant(self);
            lemma_table_size(self.entries@);
        }
        self.entries.len()
    }

    /// The latest time at which an entry was made; zero before the first.
    /// No entry of the table is younger.
    pub fn clock(&self) -> (clock: u64)
        ensures
            clock == self@.clock,
            self@.consistent(),
    {
        proof {
            use_type_invariant(self);
            lemma_table_consistent(self.entries@, self.clock);
        }
        self.clock
    }

    /// Adds an entry under an identifier that is free. Under an identifier
    /// that is taken nothing is added or changed, and the insert fails with
    /// a storage failure. The entry is stamped with `now`, or with the time
    /// of the latest entry where the clock has gone back; so no entry is
    /// older than one that was there before it.
    pub fn insert(
        &mut self,
        id: &str,
        compressed_content: Vec<u8>,
        content_length: i64,
        deletion_token: DeletionToken,
        now: u64,
    ) -> (outcome: Result<(), Error>)
        ensures
            old(self)@.insert_post(
                id@,
                compressed_content@,
                content_length,
                deletion_token@,
                now,
                outcome,
                final(self)@,
            ),
            old(self)@.consistent(),
            final(self)@.consistent(),
    {
        proof {
            use_type_invariant(&*self);
            lemma_table_consistent(self.entries@, self.clock);
        }
        let key = String::from_str(id);
        match self.find(&key) {
            Some(_) => Err(Error::Sqlite(String::from_str("identifier is already taken"))),
            None => {
                let created_at = if now >= self.clock {
                    now
                } else {
                    self.clock
                };
                let entry = Entry::new(
                    key,
                    compressed_content,
                    content_length,
                    deletion_token,
                    created_at,
                );
                proof {
                    lemma_table_push(self.entries@, entry);
                }
                let mut entries: Vec<Entry> = Vec::new();
                core::mem::swap(&mut self.entries, &mut entries);
                entries.push(entry);
                self.clock = created_at;
                self.entries = entries;
                proof {
                    lemma_table_consistent(self.entries@, self.clock);
                }
                Ok(())
            },
        }
    }

    /// The entry under an identifier; `NotFound` where there is none.
    pub fn get(&self, id: &str) -> (found: Result<&Entry, Error>)
        ensures
            self@.get_post(id@, found),
            self@.consistent(),
    {
        proof {
            use_type_invariant(self);
            lemma_table_consistent(self.entries@, self.clock);
        }
        let key = String::from_str(id);
        match self.find(&key) {
            Some(i) => {
                proof {
                    lemma_table_at(self.entries@, i as int);
                }
                Ok(&self.entries[i])
            },
            None => Err(Error::NotFound),
        }
    }

    /// Removes the entry under an identifier; `NotFound`, and nothing
    /// changed, where there is none. Who may ask for this is not decided
    /// here.
    pub fn delete(&mut self, id: &str) -> (outcome: Result<(), Error>)
        ensures
            old(self)@.delete_post(id@, outcome, final(self)@),
            old(self)@.consistent(),
            final(self)@.consistent(),
    {
        proof {
            use_type_invariant(&*self);
            lemma_table_consistent(self.entries@, self.clock);
        }
        let key = String::from_str(id);
        match self.find(&key) {
            Some(i) => {
                proof {
                    lemma_table_remove(self.entries@, i as int);
                }
                let mut entries: Vec<Entry> = Vec::new();
                core::mem::swap(&mut self.entries, &mut entries);
                entries.remove(i);
                self.entries = entries;
                proof {
                    lemma_table_consistent(self.entries@, self.clock);
                }
                Ok(())
            },
            None => Err(Error::NotFound),
        }
    }

    /// Where the entry with this identifier stands, if there is one.
    fn find(&self, id: &String) -> (at: Option<usize>)
        ensures
            match at {
                Some(i) => i < self.entries@.len() && self.entries@[i as int]@.id == id@,
                None => !self@.entries.dom().contains(id@),
            },
    {
        let n = self.entries.len();
        let mut i: usize = 0;
        while i < n
            invariant
                i <= n,
                n == self.entries@.len(),
                forall|j: int| 0 <= j < i ==> (#[trigger] self.entries@[j])@.id != id@,
            decreases n - i,
        {
            if self.entries[i].id == *id {
                return Some(i);
            }
            i += 1;
        }
        None
    }
}

} // verus!
