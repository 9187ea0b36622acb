use vstd::prelude::*;

use crate::model::{
    BlogEntry, Status, ValidationError, entry_lt, first_invalid_field, is_valid_entry,
    lemma_entry_lt_total, lemma_entry_lt_transitive, same_entry, same_fields,
};

verus! {

/// Why a repository operation was refused.
#[derive(Debug, Clone, Copy, PartialEq, Eq, Structural)]
pub enum RepoError {
    /// An entry field is too short.
    Validation(ValidationError),
    /// No entry has the given identifier.
    NotFound,
    /// `add_blog` was handed an entry that already has an identifier.
    IdAlreadySet,
    /// The stored data breaks the repository's integrity (duplicate or empty
    /// identifiers).
    Store,
}

/// Identifiers are non-empty and pairwise different.
pub open spec fn wf_entries(s: Seq<BlogEntry>) -> bool {
    &&& forall|i: int| 0 <= i < s.len() ==> #[trigger] s[i]._id@.len() > 0
    &&& forall|i: int, j: int|
        0 <= i < s.len() && 0 <= j < s.len() && i != j ==> s[i]._id@ != s[j]._id@
}

/// Some entry of `s` has identifier `id`.
pub open spec fn has_id(s: Seq<BlogEntry>, id: Seq<char>) -> bool {
    exists|i: int| 0 <= i < s.len() && #[trigger] s[i]._id@ == id
}

/// `e` is a faithful copy of an entry of `s`.
pub open spec fn contains_entry(s: Seq<BlogEntry>, e: BlogEntry) -> bool {
    exists|i: int| 0 <= i < s.len() && same_entry(#[trigger] s[i], e)
}

/// `e` is what looking up `id` in `s` finds.
pub open spec fn lookup(s: Seq<BlogEntry>, id: Seq<char>, e: BlogEntry) -> bool {
    e._id@ == id && contains_entry(s, e)
}

/// Whether an entry is shown by a listing that filters drafts or not.
pub open spec fn visible(e: BlogEntry, filter_drafts: bool) -> bool {
    !filter_drafts || e.status == Status::Published
}

/// `r` lists the visible entries of `s`, each once, in listing order.
pub open spec fn is_listing(s: Seq<BlogEntry>, filter_drafts: bool, r: Seq<BlogEntry>) -> bool {
    &&& forall|a: int, b: int| 0 <= a < b < r.len() ==> entry_lt(#[trigger] r[a], #[trigger] r[b])
    &&& forall|k: int| 0 <= k < r.len() ==> visible(#[trigger] r[k], filter_drafts)
    &&& forall|k: int| 0 <= k < r.len() ==> contains_entry(s, #[trigger] r[k])
    &&& forall|j: int| 0 <= j < s.len() && visible(#[trigger] s[j], filter_drafts)
        ==> contains_entry(r, s[j])
}

/// `after` is `before` with one entry appended: `entry` under identifier `id`.
pub open spec fn created_from(
    before: Seq<BlogEntry>,
    entry: BlogEntry,
    id: Seq<char>,
    after: Seq<BlogEntry>,
) -> bool {
    &&& after.len() == before.len() + 1
    &&& after.drop_last() == before
    &&& after.last()._id@ == id
    &&& same_fields(after.last(), entry)
}

/// `after` is `before` with the entry that has `entry`'s identifier replaced by `entry`.
pub open spec fn updated_from(before: Seq<BlogEntry>, entry: BlogEntry, after: Seq<BlogEntry>) -> bool {
    &&& after.len() == before.len()
    &&& forall|j: int|
        0 <= j < before.len() ==> if before[j]._id@ == entry._id@ {
            same_entry(#[trigger] after[j], entry)
        } else {
            after[j] == before[j]
        }
}

/// `after` is `before` without the entry whose identifier is `id`.
pub open spec fn deleted_from(before: Seq<BlogEntry>, id: Seq<char>, after: Seq<BlogEntry>) -> bool {
    exists|i: int| 0 <= i < before.len() && #[trigger] before[i]._id@ == id && after == before.remove(i)
}

/// A draft is never listed when drafts are filtered, and always listed when
/// they are not.
pub proof fn lemma_drafts_listed_to_editors_only(
    s: Seq<BlogEntry>,
    public_listing: Seq<BlogEntry>,
    editor_listing: Seq<BlogEntry>,
    i: int,
)
    requires
        is_listing(s, true, public_listing),
        is_listing(s, false, editor_listing),
        0 <= i < s.len(),
        s[i].status == Status::Draft,
    ensures
        !contains_entry(public_listing, s[i]),
        contains_entry(editor_listing, s[i]),
{
    if contains_entry(public_listing, s[i]) {
        let k = choose|k: int| 0 <= k < public_listing.len() && same_entry(public_listing[k], s[i]);
        assert(visible(public_listing[k], true));
    }
    assert(visible(s[i], false));
}

/// Looking up the identifier that creating an entry returned finds that
/// entry, with every field as given and the new, non-empty identifier.
pub proof fn lemma_get_after_create(
    before: Seq<BlogEntry>,
    entry: BlogEntry,
    id: Seq<char>,
    after: Seq<BlogEntry>,
    got: BlogEntry,
)
    requires
        wf_entries(before),
        id.len() > 0,
        !has_id(before, id),
        created_from(before, entry, id, after),
        lookup(after, id, got),
    ensures
        has_id(after, id),
        got._id@ == id,
        got._id@.len() > 0,
        same_fields(got, entry),
{
    let k = choose|k: int| 0 <= k < after.len() && same_entry(after[k], got);
    assert(after[after.len() - 1]._id@ == id);
    if k < before.len() {
        assert(after[k] == after.drop_last()[k]);
        assert(before[k]._id@ == id);
    }
}

/// After an update, looking up the entry's identifier finds exactly the new
/// field values.
pub proof fn lemma_get_after_update(
    before: Seq<BlogEntry>,
    entry: BlogEntry,
    after: Seq<BlogEntry>,
    got: BlogEntry,
)
    requires
        wf_entries(before),
        has_id(before, entry._id@),
        updated_from(before, entry, after),
        lookup(after, entry._id@, got),
    ensures
        has_id(after, entry._id@),
        same_entry(got, entry),
{
    let i = choose|i: int| 0 <= i < before.len() && before[i]._id@ == entry._id@;
    assert(same_entry(after[i], entry));
    let k = choose|k: int| 0 <= k < after.len() && same_entry(after[k], got);
    if before[k]._id@ != entry._id@ {
        assert(after[k] == before[k]);
    }
}

/// After a delete, the identifier is gone: looking it up and deleting it
/// again both report that it is not found.
pub proof fn lemma_gone_after_delete(before: Seq<BlogEntry>, id: Seq<char>, after: Seq<BlogEntry>)
    requires
        wf_entries(before),
        deleted_from(before, id, after),
    ensures
        !has_id(after, id),
{
    let i = choose|i: int| 0 <= i < before.len() && before[i]._id@ == id && after == before.remove(i);
    if has_id(after, id) {
        let k = choose|k: int| 0 <= k < after.len() && after[k]._id@ == id;
        if k < i {
            assert(after[k] == before[k]);
        } else {
            assert(after[k] == before[k + 1]);
        }
    }
}

/// A lowercase hexadecimal digit.
pub open spec fn is_lower_hex_digit(c: char) -> bool {
    ('0' <= c && c <= '9') || ('a' <= c && c <= 'f')
}

/// The text form of an object id: 24 lowercase hexadecimal digits.
pub open spec fn is_object_id_text(s: Seq<char>) -> bool {
    s.len() == 24 && forall|i: int| 0 <= i < s.len() ==> is_lower_hex_digit(#[trigger] s[i])
}

/// No stored identifier has the text form of an object id, so no freshly
/// made one can clash with it.
pub open spec fn no_object_id_text(s: Seq<BlogEntry>) -> bool {
    forall|i: int| 0 <= i < s.len() ==> !is_object_id_text(#[trigger] s[i]._id@)
}

/// Relies on bson's `ObjectId::new` and `ObjectId::to_hex`: a new object id,
/// written by `hex::encode` as the two lowercase hexadecimal digits of each of
/// its twelve bytes.
#[verifier::external_body]
fn new_object_id() -> (r: String)
    ensures
        is_object_id_text(r@),
{
    mongodb::bson::oid::ObjectId::new().to_hex()
}

/// The entries of the blog, held as a snapshot of the underlying store.
pub struct BlogStore {
    entries: Vec<BlogEntry>,
}

impl BlogStore {
    pub closed spec fn view(&self) -> Seq<BlogEntry> {
        self.entries@
    }

    pub open spec fn wf(&self) -> bool {
        wf_entries(self@)
    }

    /// An empty repository.
    pub fn new() -> (r: BlogStore)
        ensures
            r.wf(),
            r@.len() == 0,
    {
        BlogStore { entries: Vec::new() }
    }

    /// A repository over loaded entries; refused when an identifier is empty
    /// or occurs twice.
    pub fn from_entries(entries: Vec<BlogEntry>) -> (r: Result<BlogStore, RepoError>)
        ensures
            r is Ok <==> wf_entries(entries@),
            r matches Ok(st) ==> st@ == entries@,
            r matches Err(e) ==> e == RepoError::Store,
    {
        let n = entries.len();
        let mut i: usize = 0;
        while i < n
            invariant
                n == entries@.len(),
                i <= n,
                forall|a: int| 0 <= a < i ==> #[trigger] entries@[a]._id@.len() > 0,
                forall|a: int, b: int|
                    0 <= a < i && 0 <= b < n && a != b ==> entries@[a]._id@ != entries@[b]._id@,
            decreases n - i,
        {
            if entries[i]._id.as_str().unicode_len() == 0 {
                return Err(RepoError::Store);
            }
            let mut j: usize = 0;
            while j < n
                invariant
                    n == entries@.len(),
                    i < n,
                    j <= n,
                    forall|b: int| 0 <= b < j && b != i ==> entries@[i as int]._id@ != #[trigger] entries@[b]._id@,
                decreases n - j,
            {
                if j != i && entries[i]._id == entries[j]._id {
                    return Err(RepoError::Store);
                }
                j = j + 1;
            }
            i = i + 1;
        }
        Ok(BlogStore { entries })
    }

    /// Position of the entry with identifier `id`, if any.
    fn position(&self, id: &String) -> (r: Option<usize>)
        ensures
            r matches Some(i) ==> i < self@.len() && self@[i as int]._id@ == id@,
            r is None ==> !has_id(self@, id@),
    {
        let n = self.entries.len();
        let mut i: usize = 0;
        while i < n
            invariant
                n == self@.len(),
                self@ == self.entries@,
                i <= n,
                forall|a: int| 0 <= a < i ==> #[trigger] self@[a]._id@ != id@,
            decreases n - i,
        {
            if self.entries[i]._id == *id {
                return Some(i);
            }
            i = i + 1;
        }
        None
    }

    /// The entry with identifier `id`.
    pub fn find_blog(&self, id: String) -> (r: Result<BlogEntry, RepoError>)
        ensures
            r is Ok <==> has_id(self@, id@),
            r matches Ok(e) ==> lookup(self@, id@, e),
            r matches Err(e) ==> e == RepoError::NotFound,
    {
        match self.position(&id) {
            Some(i) => {
                let e = self.entries[i].duplicate();
                assert(same_entry(self@[i as int], e));
                Ok(e)
            },
            None => Err(RepoError::NotFound),
        }
    }

    /// Stores a new entry under identifier `id` and returns that identifier.
    /// Refused when the entry already carries an identifier, when a field is
    /// too short, and when `id` is empty or already taken.
    pub fn add_blog_with_id(&mut self, entry: BlogEntry, id: String) -> (r: Result<String, RepoError>)
        requires
            old(self).wf(),
        ensures
            final(self).wf(),
            entry._id@.len() > 0 ==> r == Err::<String, RepoError>(RepoError::IdAlreadySet),
            entry._id@.len() == 0 && !is_valid_entry(entry) ==> r == Err::<String, RepoError>(
                RepoError::Validation(ValidationError { field: first_invalid_field(entry)->0 }),
            ),
            entry._id@.len() == 0 && is_valid_entry(entry) && (id@.len() == 0 || has_id(
                old(self)@,
                id@,
            )) ==> r == Err::<String, RepoError>(RepoError::Store),
            r is Ok <==> entry._id@.len() == 0 && is_valid_entry(entry) && id@.len() > 0
                && !has_id(old(self)@, id@),
            r matches Ok(s) ==> s@ == id@ && created_from(old(self)@, entry, id@, final(self)@),
            r is Err ==> final(self)@ == old(self)@,
    {
        if entry._id.as_str().unicode_len() > 0 {
            return Err(RepoError::IdAlreadySet);
        }
        match entry.validate() {
            Err(e) => {
                return Err(RepoError::Validation(e));
            },
            Ok(()) => {},
        }
        if id.as_str().unicode_len() == 0 {
            return Err(RepoError::Store);
        }
        match self.position(&id) {
            Some(_) => Err(RepoError::Store),
            None => {
                let stored = BlogEntry {
                    _id: id.clone(),
                    title: entry.title,
                    content: entry.content,
                    author: entry.author,
                    last_edit_date: entry.last_edit_date,
                    status: entry.status,
                };
                self.entries.push(stored);
                assert(self@.drop_last() =~= old(self)@);
                Ok(id)
            },
        }
    }

    /// Stores a new entry under a freshly made identifier and returns it.
    /// Refused as `add_blog_with_id` refuses; the new identifier is taken from
    /// a generator, so a clash with a stored one is reported as a store error.
    pub fn add_blog(&mut self, entry: BlogEntry) -> (r: Result<String, RepoError>)
        requires
            old(self).wf(),
        ensures
            final(self).wf(),
            entry._id@.len() > 0 ==> r == Err::<String, RepoError>(RepoError::IdAlreadySet),
            entry._id@.len() == 0 && !is_valid_entry(entry) ==> r == Err::<String, RepoError>(
                RepoError::Validation(ValidationError { field: first_invalid_field(entry)->0 }),
            ),
            r matches Ok(s) ==> s@.len() > 0 && !has_id(old(self)@, s@) && created_from(
                old(self)@,
                entry,
                s@,
                final(self)@,
            ),
            entry._id@.len() == 0 && is_valid_entry(entry) ==> (r matches Err(e) ==> e
                == RepoError::Store),
            entry._id@.len() == 0 && is_valid_entry(entry) && no_object_id_text(old(self)@) ==> r is Ok,
            r matches Ok(s) ==> is_object_id_text(s@),
            r matches Err(e) ==> final(self)@ == old(self)@ && (e == RepoError::Store ==> (
            entry._id@.len() == 0 && is_valid_entry(entry))),
    {
        if entry._id.as_str().unicode_len() > 0 {
            return Err(RepoError::IdAlreadySet);
        }
        let id = new_object_id();
        proof {
            if has_id(self@, id@) {
                let i = choose|i: int| 0 <= i < self@.len() && self@[i]._id@ == id@;
                assert(is_object_id_text(self@[i]._id@));
            }
        }
        self.add_blog_with_id(entry, id)
    }

    /// Replaces the stored entry that has `entry`'s identifier.
    pub fn update_blog(&mut self, entry: BlogEntry) -> (r: Result<(), RepoError>)
        requires
            old(self).wf(),
        ensures
            final(self).wf(),
            !is_valid_entry(entry) ==> r == Err::<(), RepoError>(
                RepoError::Validation(ValidationError { field: first_invalid_field(entry)->0 }),
            ),
            is_valid_entry(entry) && !has_id(old(self)@, entry._id@) ==> r == Err::<(), RepoError>(
                RepoError::NotFound,
            ),
            r is Ok <==> is_valid_entry(entry) && has_id(old(self)@, entry._id@),
            r is Ok ==> updated_from(old(self)@, entry, final(self)@),
            r is Err ==> final(self)@ == old(self)@,
    {
        match entry.validate() {
            Err(e) => {
                return Err(RepoError::Validation(e));
            },
            Ok(()) => {},
        }
        match self.position(&entry._id) {
            None => Err(RepoError::NotFound),
            Some(i) => {
                let ghost before = self@;
                let ghost e = entry;
                self.entries.set(i, entry);
                assert forall|j: int| 0 <= j < before.len() implies if before[j]._id@ == e._id@ {
                    same_entry(#[trigger] self@[j], e)
                } else {
                    self@[j] == before[j]
                } by {
                    if j != i && before[j]._id@ == e._id@ {
                        assert(before[i as int]._id@ == e._id@);
                    }
                }
                Ok(())
            },
        }
    }

    /// Saves an entry from the editor: one without an identifier is created
    /// (as `add_blog`), one with an identifier replaces the stored entry (as
    /// `update_blog`). Returns the entry's identifier.
    pub fn save_blog(&mut self, entry: BlogEntry) -> (r: Result<String, RepoError>)
        requires
            old(self).wf(),
        ensures
            final(self).wf(),
            r is Err ==> final(self)@ == old(self)@,
            entry._id@.len() == 0 && !is_valid_entry(entry) ==> r == Err::<String, RepoError>(
                RepoError::Validation(ValidationError { field: first_invalid_field(entry)->0 }),
            ),
            entry._id@.len() == 0 ==> (r matches Ok(s) ==> s@.len() > 0 && !has_id(old(self)@, s@)
                && created_from(old(self)@, entry, s@, final(self)@)),
            entry._id@.len() == 0 && is_valid_entry(entry) ==> (r matches Err(e) ==> e
                == RepoError::Store),
            entry._id@.len() == 0 && is_valid_entry(entry) && no_object_id_text(old(self)@) ==> r is Ok,
            entry._id@.len() > 0 ==> (r is Ok <==> is_valid_entry(entry) && has_id(
                old(self)@,
                entry._id@,
            )),
            entry._id@.len() > 0 && !is_valid_entry(entry) ==> r == Err::<String, RepoError>(
                RepoError::Validation(ValidationError { field: first_invalid_field(entry)->0 }),
            ),
            entry._id@.len() > 0 && is_valid_entry(entry) && !has_id(old(self)@, entry._id@) ==> r
                == Err::<String, RepoError>(RepoError::NotFound),
            entry._id@.len() > 0 ==> (r matches Ok(s) ==> s@ == entry._id@ && updated_from(
                old(self)@,
                entry,
                final(self)@,
            )),
    {
        if entry._id.as_str().unicode_len() == 0 {
            self.add_blog(entry)
        } else {
            let id = entry._id.clone();
            match self.update_blog(entry) {
                Ok(()) => Ok(id),
                Err(e) => Err(e),
            }
        }
    }

    /// Removes the entry with identifier `id`.
    pub fn delete_blog(&mut self, id: String) -> (r: Result<(), RepoError>)
        requires
            old(self).wf(),
        ensures
            final(self).wf(),
            r is Ok <==> has_id(old(self)@, id@),
            r is Ok ==> deleted_from(old(self)@, id@, final(self)@),
            r matches Err(e) ==> e == RepoError::NotFound && final(self)@ == old(self)@,
    {
        match self.position(&id) {
            None => Err(RepoError::NotFound),
            Some(i) => {
                let ghost before = self@;
                self.entries.remove(i);
                assert(self@ == before.remove(i as int));
                assert(before[i as int]._id@ == id@);
                Ok(())
            },
        }
    }

    /// The visible entries in listing order: all of them, or only published
    /// ones when `filter_drafts` is set.
    pub fn fetch_all_published_blogs(&self, filter_drafts: bool) -> (r: Vec<BlogEntry>)
        requires
            self.wf(),
        ensures
            is_listing(self@, filter_drafts, r@),
    {
        let n = self.entries.len();
        let mut out: Vec<BlogEntry> = Vec::new();
        let mut i: usize = 0;
        while i < n
            invariant
                n == self@.len(),
                self@ == self.entries@,
                wf_entries(self@),
                i <= n,
                forall|a: int, b: int|
                    0 <= a < b < out@.len() ==> entry_lt(#[trigger] out@[a], #[trigger] out@[b]),
                forall|k: int| 0 <= k < out@.len() ==> visible(#[trigger] out@[k], filter_drafts),
                forall|k: int|
                    0 <= k < out@.len() ==> exists|j: int|
                        0 <= j < i && same_entry(#[trigger] self@[j], #[trigger] out@[k]),
                forall|j: int|
                    0 <= j < i && visible(#[trigger] self@[j], filter_drafts) ==> contains_entry(
                        out@,
                        self@[j],
                    ),
            decreases n - i,
        {
            let e = &self.entries[i];
            if !filter_drafts || e.status == Status::Published {
                let mut p: usize = 0;
                while p < out.len() && !e.listed_before(&out[p])
                    invariant
                        p <= out@.len(),
                        forall|a: int| 0 <= a < p ==> !entry_lt(*e, #[trigger] out@[a]),
                    decreases out@.len() - p,
                {
                    p = p + 1;
                }
                let ghost before = out@;
                let c = e.duplicate();
                out.insert(p, c);
                proof {
                    assert(out@ == before.insert(p as int, c));
                    assert forall|a: int| 0 <= a < p implies #[trigger] entry_lt(before[a], c) by {
                        let j = choose|j: int| 0 <= j < i && same_entry(self@[j], before[a]);
                        assert(self@[j]._id@ != self@[i as int]._id@);
                        lemma_entry_lt_total(before[a], c);
                    }
                    assert forall|b: int| p <= b < before.len() implies #[trigger] entry_lt(c, before[b]) by {
                        if b > p {
                            lemma_entry_lt_transitive(c, before[p as int], before[b]);
                        }
                    }
                    assert forall|a: int, b: int|
                        0 <= a < b < out@.len() implies entry_lt(#[trigger] out@[a], #[trigger] out@[b]) by {
                        if b == p {
                            assert(entry_lt(before[a], c));
                        } else if a == p {
                            assert(entry_lt(c, before[b - 1]));
                        } else if a < p && b > p {
                            lemma_entry_lt_transitive(before[a], c, before[b - 1]);
                        }
                    }
                    assert forall|k: int| 0 <= k < out@.len() implies exists|j: int|
                        0 <= j < i + 1 && same_entry(#[trigger] self@[j], #[trigger] out@[k]) by {
                        if k == p {
                            assert(same_entry(self@[i as int], out@[k]));
                        } else if k < p {
                            assert(out@[k] == before[k]);
                        } else {
                            assert(out@[k] == before[k - 1]);
                        }
                    }
                    assert forall|j: int|
                        0 <= j < i + 1 && visible(#[trigger] self@[j], filter_drafts) implies contains_entry(
                            out@,
                            self@[j],
                        ) by {
                        if j == i {
                            assert(same_entry(out@[p as int], self@[j]));
                        } else {
                            let k = choose|k: int| 0 <= k < before.len() && same_entry(before[k], self@[j]);
                            if k < p {
                                assert(same_entry(out@[k], self@[j]));
                            } else {
                                assert(same_entry(out@[k + 1], self@[j]));
                            }
                        }
                    }
                }
            }
            i = i + 1;
        }
        proof {
            assert forall|k: int| 0 <= k < out@.len() implies contains_entry(self@, #[trigger] out@[k]) by {
                let j = choose|j: int| 0 <= j < n && same_entry(self@[j], out@[k]);
                assert(same_entry(self@[j], out@[k]));
            }
        }
        out
    }
}

} // verus!
