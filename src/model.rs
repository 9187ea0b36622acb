use vstd::prelude::*;

verus! {

/// Minimum number of bytes (UTF-8) of a title.
pub const MIN_TITLE_LEN: usize = 2;

/// Minimum number of bytes (UTF-8) of an entry's content.
pub const MIN_CONTENT_LEN: usize = 10;

/// Minimum number of bytes (UTF-8) of an author name.
pub const MIN_AUTHOR_LEN: usize = 1;

/// Publication state of an entry: drafts are only shown to editors.
#[derive(Debug, Clone, Copy, PartialEq, Eq, Structural)]
pub enum Status {
    Draft,
    Published,
}

/// An entry submitted without a status is a draft, so nothing is published
/// by accident.
impl Default for Status {
    fn default() -> (r: Status)
        ensures
            r == Status::Draft,
    {
        Status::Draft
    }
}

/// A blog entry. An empty `_id` marks an entry that has not been stored yet.
#[derive(Debug)]
pub struct BlogEntry {
    pub _id: String,
    pub title: String,
    pub content: String,
    pub author: String,
    pub last_edit_date: String,
    pub status: Status,
}

/// The field of an entry that failed validation.
#[derive(Debug, Clone, Copy, PartialEq, Eq, Structural)]
pub enum Field {
    Title,
    Content,
    Author,
}

/// An entry field that is shorter than its minimum.
#[derive(Debug, Clone, Copy, PartialEq, Eq, Structural)]
pub struct ValidationError {
    pub field: Field,
}

/// Length of a text in UTF-8 bytes.
pub open spec fn byte_len(s: Seq<char>) -> nat {
    vstd::utf8::encode_utf8(s).len()
}

/// The first field, in the order title, content, author, that is too short.
pub open spec fn first_invalid_field(e: BlogEntry) -> Option<Field> {
    if byte_len(e.title@) < MIN_TITLE_LEN {
        Some(Field::Title)
    } else if byte_len(e.content@) < MIN_CONTENT_LEN {
        Some(Field::Content)
    } else if byte_len(e.author@) < MIN_AUTHOR_LEN {
        Some(Field::Author)
    } else {
        None
    }
}

pub open spec fn is_valid_entry(e: BlogEntry) -> bool {
    first_invalid_field(e) is None
}

/// Two entries that agree on every field but possibly the identifier.
pub open spec fn same_fields(a: BlogEntry, b: BlogEntry) -> bool {
    &&& a.title@ == b.title@
    &&& a.content@ == b.content@
    &&& a.author@ == b.author@
    &&& a.last_edit_date@ == b.last_edit_date@
    &&& a.status == b.status
}

/// Two entries that agree on every field.
pub open spec fn same_entry(a: BlogEntry, b: BlogEntry) -> bool {
    a._id@ == b._id@ && same_fields(a, b)
}

/// Lexicographic order on character sequences, by code point, from index `i` on.
pub open spec fn seq_lt_from(a: Seq<char>, b: Seq<char>, i: nat) -> bool
    decreases a.len() - i,
{
    if i >= a.len() {
        i < b.len()
    } else if i >= b.len() {
        false
    } else if a[i as int] != b[i as int] {
        a[i as int] < b[i as int]
    } else {
        seq_lt_from(a, b, i + 1)
    }
}

/// Strict lexicographic order on character sequences, by code point.
pub open spec fn seq_lt(a: Seq<char>, b: Seq<char>) -> bool {
    seq_lt_from(a, b, 0)
}

/// Listing order of entries: by title, then by identifier.
pub open spec fn entry_lt(a: BlogEntry, b: BlogEntry) -> bool {
    seq_lt(a.title@, b.title@) || (a.title@ == b.title@ && seq_lt(a._id@, b._id@))
}

pub proof fn lemma_seq_lt_from_transitive(a: Seq<char>, b: Seq<char>, c: Seq<char>, i: nat)
    requires
        seq_lt_from(a, b, i),
        seq_lt_from(b, c, i),
    ensures
        seq_lt_from(a, c, i),
    decreases a.len() - i,
{
    if i < a.len() && i < b.len() && i < c.len() && a[i as int] == b[i as int] && b[i as int]
        == c[i as int] {
        lemma_seq_lt_from_transitive(a, b, c, i + 1);
    }
}

/// Any two different sequences are ordered one way or the other.
pub proof fn lemma_seq_lt_from_total(a: Seq<char>, b: Seq<char>, i: nat)
    requires
        i <= a.len(),
        i <= b.len(),
        a.subrange(0, i as int) == b.subrange(0, i as int),
        a != b,
    ensures
        seq_lt_from(a, b, i) || seq_lt_from(b, a, i),
    decreases a.len() - i,
{
    if i < a.len() && i < b.len() {
        if a[i as int] == b[i as int] {
            assert(a.subrange(0, i + 1 as int) =~= a.subrange(0, i as int).push(a[i as int]));
            assert(b.subrange(0, i + 1 as int) =~= b.subrange(0, i as int).push(b[i as int]));
            lemma_seq_lt_from_total(a, b, i + 1);
        } else {
        }
    } else if i == a.len() && i == b.len() {
        assert(a =~= a.subrange(0, i as int));
        assert(b =~= b.subrange(0, i as int));
    }
}

pub proof fn lemma_entry_lt_transitive(a: BlogEntry, b: BlogEntry, c: BlogEntry)
    requires
        entry_lt(a, b),
        entry_lt(b, c),
    ensures
        entry_lt(a, c),
{
    if seq_lt(a.title@, b.title@) && seq_lt(b.title@, c.title@) {
        lemma_seq_lt_from_transitive(a.title@, b.title@, c.title@, 0);
    } else if a.title@ == b.title@ && b.title@ == c.title@ {
        lemma_seq_lt_from_transitive(a._id@, b._id@, c._id@, 0);
    }
}

/// Entries with different identifiers are ordered one way or the other.
pub proof fn lemma_entry_lt_total(a: BlogEntry, b: BlogEntry)
    requires
        a._id@ != b._id@,
    ensures
        entry_lt(a, b) || entry_lt(b, a),
{
    if a.title@ != b.title@ {
        assert(a.title@.subrange(0, 0) =~= b.title@.subrange(0, 0));
        lemma_seq_lt_from_total(a.title@, b.title@, 0);
    } else {
        assert(a._id@.subrange(0, 0) =~= b._id@.subrange(0, 0));
        lemma_seq_lt_from_total(a._id@, b._id@, 0);
    }
}

/// Whether `a` comes strictly before `b` in code-point order.
pub fn str_lt(a: &str, b: &str) -> (r: bool)
    ensures
        r == seq_lt(a@, b@),
{
    let la = a.unicode_len();
    let lb = b.unicode_len();
    let mut i: usize = 0;
    while i < la && i < lb
        invariant
            la == a@.len(),
            lb == b@.len(),
            i <= la,
            i <= lb,
            seq_lt_from(a@, b@, 0) == seq_lt_from(a@, b@, i as nat),
        decreases la - i,
    {
        let ca = a.get_char(i);
        let cb = b.get_char(i);
        if ca != cb {
            return ca < cb;
        }
        i = i + 1;
    }
    i < lb && i == la
}

impl BlogEntry {
    /// A copy of the entry.
    pub fn duplicate(&self) -> (r: BlogEntry)
        ensures
            same_entry(r, *self),
    {
        BlogEntry {
            _id: self._id.clone(),
            title: self.title.clone(),
            content: self.content.clone(),
            author: self.author.clone(),
            last_edit_date: self.last_edit_date.clone(),
            status: self.status,
        }
    }

    /// Checks the byte-length minimums of title, content and author, in that
    /// order.
    pub fn validate(&self) -> (r: Result<(), ValidationError>)
        ensures
            r matches Err(e) ==> first_invalid_field(*self) == Some(e.field),
            r is Ok <==> is_valid_entry(*self),
    {
        if self.title.as_str().as_bytes().len() < MIN_TITLE_LEN {
            Err(ValidationError { field: Field::Title })
        } else if self.content.as_str().as_bytes().len() < MIN_CONTENT_LEN {
            Err(ValidationError { field: Field::Content })
        } else if self.author.as_str().as_bytes().len() < MIN_AUTHOR_LEN {
            Err(ValidationError { field: Field::Author })
        } else {
            Ok(())
        }
    }

    /// Whether `self` is listed before `other`.
    pub fn listed_before(&self, other: &BlogEntry) -> (r: bool)
        ensures
            r == entry_lt(*self, *other),
    {
        if str_lt(self.title.as_str(), other.title.as_str()) {
            true
        } else if str_lt(other.title.as_str(), self.title.as_str()) {
            false
        } else {
            proof {
                if self.title@ != other.title@ {
                    assert(self.title@.subrange(0, 0) =~= other.title@.subrange(0, 0));
                    lemma_seq_lt_from_total(self.title@, other.title@, 0);
                }
            }
            str_lt(self._id.as_str(), other._id.as_str())
        }
    }
}

} // verus!
