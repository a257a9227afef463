use vstd::prelude::*;

use crate::ordered::{
    insert_sorted, lemma_sorted_unique, lemma_text_less_irreflexive, lemma_text_less_total, lemma_text_less_transitive,
    remove_sorted, strictly_sorted, text_before, text_less,
};
use crate::text::{
    chars_of, decimal, decimal_string, join_texts, joined, lemma_decimal_injective, parse_decimal,
    push_text, string_from_chars, texts_view,
};

verus! {

/// The version of the review-state file that this library reads and writes.
pub const FORMAT_VERSION: u64 = 1;

/// Whether `c` is an ASCII hexadecimal digit, in either case.
pub open spec fn is_hex_digit(c: char) -> bool {
    ||| '0' as int <= c as int <= '9' as int
    ||| 'a' as int <= c as int <= 'f' as int
    ||| 'A' as int <= c as int <= 'F' as int
}

/// A complete commit SHA: 40 (SHA-1) or 64 (SHA-256) hexadecimal digits.
pub open spec fn is_full_sha(text: Seq<char>) -> bool {
    &&& (text.len() == 40 || text.len() == 64)
    &&& forall|i: int| 0 <= i < text.len() ==> is_hex_digit(#[trigger] text[i])
}

/// `c` with an ASCII capital letter made small; every other character unchanged.
pub open spec fn ascii_lowercase(c: char) -> char {
    if 'A' as int <= c as int <= 'Z' as int {
        ((c as int) + 32) as char
    } else {
        c
    }
}

/// `text` with its ASCII capitals made small.
pub open spec fn lowercased(text: Seq<char>) -> Seq<char> {
    text.map_values(|c: char| ascii_lowercase(c))
}

/// A SHA as marks store it: complete and in small letters.
pub open spec fn is_canonical_sha(text: Seq<char>) -> bool {
    is_full_sha(text) && lowercased(text) == text
}

fn hex_digit(c: char) -> (is_hex: bool)
    ensures
        is_hex == is_hex_digit(c),
{
    let code = c as u32;
    (48 <= code && code <= 57) || (97 <= code && code <= 102) || (65 <= code && code <= 70)
}

fn lowercase_ascii(c: char) -> (lowered: char)
    ensures
        lowered == ascii_lowercase(c),
{
    let code = c as u32;
    if 65 <= code && code <= 90 {
        let small = (code + 32) as u8;
        small as char
    } else {
        c
    }
}

/// Whether `text` is a complete SHA.
pub fn full_sha(text: &str) -> (complete: bool)
    ensures
        complete == is_full_sha(text@),
{
    let chars = chars_of(text);
    if chars.len() != 40 && chars.len() != 64 {
        return false;
    }
    let mut i: usize = 0;
    while i < chars.len()
        invariant
            chars@ == text@,
            i <= chars@.len(),
            forall|k: int| 0 <= k < i ==> is_hex_digit(#[trigger] text@[k]),
        decreases chars.len() - i,
    {
        if !hex_digit(chars[i]) {
            return false;
        }
        i = i + 1;
    }
    true
}

/// `text` with its ASCII capitals made small.
pub fn ascii_lowercase_text(text: &str) -> (lowered: String)
    ensures
        lowered@ == lowercased(text@),
{
    let chars = chars_of(text);
    let mut small: Vec<char> = Vec::new();
    let mut i: usize = 0;
    while i < chars.len()
        invariant
            chars@ == text@,
            i <= chars@.len(),
            small@ == lowercased(text@.take(i as int)),
        decreases chars.len() - i,
    {
        small.push(lowercase_ascii(chars[i]));
        proof {
            assert(lowercased(text@.take(i + 1)) =~= lowercased(text@.take(i as int)).push(
                ascii_lowercase(text@[i as int]),
            ));
        }
        i = i + 1;
    }
    proof {
        assert(text@.take(i as int) =~= text@);
    }
    string_from_chars(small.as_slice())
}

/// Making small what is small already changes nothing.
pub proof fn lemma_lowercased_idempotent(text: Seq<char>)
    ensures
        lowercased(lowercased(text)) == lowercased(text),
{
    assert(lowercased(lowercased(text)) =~= lowercased(text));
}

/// A complete SHA stays complete once made small.
pub proof fn lemma_lowercased_full_sha(text: Seq<char>)
    requires
        is_full_sha(text),
    ensures
        is_canonical_sha(lowercased(text)),
{
    lemma_lowercased_idempotent(text);
    assert forall|i: int| 0 <= i < lowercased(text).len() implies is_hex_digit(
        #[trigger] lowercased(text)[i],
    ) by {
        assert(is_hex_digit(text[i]));
    }
}

/// The identity of a reviewed commit: a repository's numeric id and the full SHA, in small
/// letters.
#[derive(Debug, PartialEq, Eq)]
pub struct ReviewKey {
    repository_id: u64,
    sha: String,
}

/// A review key as values.
pub struct KeyView {
    pub repository_id: u64,
    pub sha: Seq<char>,
}

impl View for ReviewKey {
    type V = KeyView;

    closed spec fn view(&self) -> KeyView {
        KeyView { repository_id: self.repository_id, sha: self.sha@ }
    }
}

impl Clone for ReviewKey {
    fn clone(&self) -> (copy: Self)
        ensures
            copy@ == self@,
    {
        proof {
            use_type_invariant(self);
        }
        ReviewKey { repository_id: self.repository_id, sha: self.sha.clone() }
    }
}

/// A SHA that is not complete and hexadecimal was offered as a commit identity.
#[derive(Clone, Copy, Debug, PartialEq, Eq, Structural)]
pub struct ReviewKeyError;

impl ReviewKeyError {
    /// What went wrong, for a person.
    pub fn message(&self) -> (text: String)
        ensures
            text@ == "commit identity must be a complete hexadecimal SHA"@,
    {
        "commit identity must be a complete hexadecimal SHA".to_owned()
    }
}

impl ReviewKey {
    #[verifier::type_invariant]
    spec fn canonical(self) -> bool {
        is_canonical_sha(self.sha@)
    }

    /// The key of commit `sha` in repository `repository_id`, if `sha` is a complete
    /// hexadecimal SHA; it is kept in small letters.
    pub fn new(repository_id: u64, sha: &str) -> (key: Result<ReviewKey, ReviewKeyError>)
        ensures
            match key {
                Ok(key) => {
                    &&& is_full_sha(sha@)
                    &&& key@.repository_id == repository_id
                    &&& key@.sha == lowercased(sha@)
                },
                Err(_) => !is_full_sha(sha@),
            },
    {
        if !full_sha(sha) {
            return Err(ReviewKeyError);
        }
        proof {
            lemma_lowercased_full_sha(sha@);
        }
        Ok(ReviewKey { repository_id, sha: ascii_lowercase_text(sha) })
    }

    /// The repository's numeric id.
    pub fn repository_id(&self) -> (id: u64)
        ensures
            id == self@.repository_id,
    {
        self.repository_id
    }

    /// The full SHA, in small letters.
    pub fn sha(&self) -> (sha: &str)
        ensures
            sha@ == self@.sha,
    {
        self.sha.as_str()
    }
}

/// The reviewed commits of one repository.
#[derive(Debug, PartialEq, Eq)]
struct RepositoryMarks {
    repository_id: u64,
    reviewed: Vec<String>,
}

/// The reviewed commits of one repository, as values.
pub struct RepositoryMarksView {
    pub repository_id: u64,
    pub reviewed: Seq<Seq<char>>,
}

impl View for RepositoryMarks {
    type V = RepositoryMarksView;

    closed spec fn view(&self) -> RepositoryMarksView {
        RepositoryMarksView { repository_id: self.repository_id, reviewed: texts_view(self.reviewed@) }
    }
}

/// The views of `entries`.
pub open spec fn entries_view_of(entries: Seq<RepositoryMarks>) -> Seq<RepositoryMarksView> {
    entries.map_values(|entry: RepositoryMarks| entry@)
}

/// The decimal notation of each repository id, in order.
pub open spec fn id_texts(entries: Seq<RepositoryMarksView>) -> Seq<Seq<char>> {
    entries.map_values(|entry: RepositoryMarksView| decimal(entry.repository_id as nat))
}

/// Repositories ordered by the text of their ids (as the file lists them), each with at least one
/// reviewed commit, its SHAs canonical and in order.
pub open spec fn entries_well_formed(entries: Seq<RepositoryMarksView>) -> bool {
    &&& strictly_sorted(id_texts(entries))
    &&& forall|i: int|
        0 <= i < entries.len() ==> {
            &&& (#[trigger] entries[i]).reviewed.len() > 0
            &&& strictly_sorted(entries[i].reviewed)
            &&& forall|j: int|
                0 <= j < entries[i].reviewed.len() ==> is_canonical_sha(
                    #[trigger] entries[i].reviewed[j],
                )
        }
}

/// The (repository id, SHA) pairs that `entries` mark as reviewed.
pub open spec fn marked_pairs(entries: Seq<RepositoryMarksView>) -> Set<(u64, Seq<char>)> {
    Set::new(
        |pair: (u64, Seq<char>)|
            exists|i: int|
                0 <= i < entries.len() && (#[trigger] entries[i]).repository_id == pair.0
                    && entries[i].reviewed.contains(pair.1),
    )
}

/// The number of SHAs that `entries` hold.
pub open spec fn reviewed_total(entries: Seq<RepositoryMarksView>) -> nat
    decreases entries.len(),
{
    if entries.len() == 0 {
        0
    } else {
        reviewed_total(entries.drop_last()) + entries.last().reviewed.len()
    }
}

/// In well-formed entries no repository id occurs twice.
pub proof fn lemma_ids_distinct(entries: Seq<RepositoryMarksView>, i: int, j: int)
    requires
        entries_well_formed(entries),
        0 <= i < entries.len(),
        0 <= j < entries.len(),
        i != j,
    ensures
        entries[i].repository_id != entries[j].repository_id,
{
    let texts = id_texts(entries);
    if i < j {
        assert(text_less(texts[i], texts[j]));
    } else {
        assert(text_less(texts[j], texts[i]));
    }
    if entries[i].repository_id == entries[j].repository_id {
        lemma_text_less_irreflexive(texts[i]);
    }
}

/// Which commits were reviewed, per repository.
#[derive(Debug, PartialEq, Eq)]
pub struct ReviewMarks {
    repositories: Vec<RepositoryMarks>,
}

impl ReviewMarks {
    #[verifier::type_invariant]
    spec fn well_formed(self) -> bool {
        entries_well_formed(entries_view_of(self.repositories@))
    }

    /// The repositories with their reviewed commits, ordered by the text of their ids.
    pub closed spec fn entries(&self) -> Seq<RepositoryMarksView> {
        entries_view_of(self.repositories@)
    }

    /// The (repository id, SHA) pairs marked as reviewed.
    pub open spec fn marked(&self) -> Set<(u64, Seq<char>)> {
        marked_pairs(self.entries())
    }

    /// No commit marked.
    pub fn new() -> (marks: ReviewMarks)
        ensures
            marks.entries().len() == 0,
            marks.marked().is_empty(),
            entries_well_formed(marks.entries()),
    {
        let marks = ReviewMarks { repositories: Vec::new() };
        proof {
            assert(marks.marked() =~= Set::<(u64, Seq<char>)>::empty());
        }
        marks
    }

    /// Whether the commit of `key` is marked as reviewed.
    pub fn is_reviewed(&self, key: &ReviewKey) -> (reviewed: bool)
        ensures
            reviewed == self.marked().contains((key@.repository_id, key@.sha)),
    {
        proof {
            use_type_invariant(self);
        }
        match position_of_repository(&self.repositories, key.repository_id) {
            None => false,
            Some(at) => {
                let found = crate::ordered::position_of_text(&self.repositories[at].reviewed, &key.sha);
                proof {
                    let entries = self.entries();
                    if found is None && self.marked().contains((key@.repository_id, key@.sha)) {
                        let i = choose|i: int|
                            0 <= i < entries.len() && (#[trigger] entries[i]).repository_id
                                == key@.repository_id && entries[i].reviewed.contains(key@.sha);
                        if i != at {
                            lemma_ids_distinct(entries, i, at as int);
                        }
                    }
                    if found is Some {
                        assert(entries[at as int].reviewed[found.unwrap() as int] == key@.sha);
                    }
                }
                found.is_some()
            },
        }
    }

    /// How many commits are marked, across all repositories (at most `usize::MAX`).
    pub fn reviewed_count(&self) -> (count: usize)
        ensures
            count == if reviewed_total(self.entries()) <= usize::MAX {
                reviewed_total(self.entries())
            } else {
                usize::MAX as nat
            },
    {
        let mut count: usize = 0;
        let mut i: usize = 0;
        while i < self.repositories.len()
            invariant
                i <= self.repositories@.len(),
                count == if reviewed_total(self.entries().take(i as int)) <= usize::MAX {
                    reviewed_total(self.entries().take(i as int))
                } else {
                    usize::MAX as nat
                },
            decreases self.repositories.len() - i,
        {
            let size = self.repositories[i].reviewed.len();
            proof {
                assert(self.entries().take(i + 1).drop_last() =~= self.entries().take(i as int));
                assert(self.entries()[i as int].reviewed.len() == size);
            }
            count = if count > usize::MAX - size {
                usize::MAX
            } else {
                count + size
            };
            i = i + 1;
        }
        proof {
            assert(self.entries().take(i as int) =~= self.entries());
        }
        count
    }

    /// How many repositories have a marked commit.
    pub fn repository_count(&self) -> (count: usize)
        ensures
            count == self.entries().len(),
            entries_well_formed(self.entries()),
    {
        proof {
            use_type_invariant(self);
        }
        self.repositories.len()
    }

    /// What the state file lists: per repository, the decimal text of its id and its SHAs, in
    /// the order of the id texts.
    pub fn state_entries(&self) -> (entries: Vec<StateEntry>)
        ensures
            state_entries_view(entries@) == file_entries(self.entries()),
    {
        let mut entries: Vec<StateEntry> = Vec::new();
        let mut i: usize = 0;
        while i < self.repositories.len()
            invariant
                i <= self.repositories@.len(),
                state_entries_view(entries@) == file_entries(self.entries().take(i as int)),
            decreases self.repositories.len() - i,
        {
            let repository = &self.repositories[i];
            let reviewed = repository.reviewed.clone();
            proof {
                assert forall|k: int| 0 <= k < repository.reviewed@.len() implies reviewed@[k]@
                    == repository.reviewed@[k]@ by {
                    assert(cloned(repository.reviewed[k], reviewed[k]));
                }
                assert(texts_view(reviewed@) =~= texts_view(repository.reviewed@));
            }
            let ghost previous = entries@;
            let entry = StateEntry { repository: decimal_string(repository.repository_id), reviewed };
            entries.push(entry);
            proof {
                assert(state_entries_view(entries@) =~= state_entries_view(previous).push(entry@));
                assert(file_entries(self.entries().take(i + 1)) =~= file_entries(
                    self.entries().take(i as int),
                ).push(file_entry(self.entries()[i as int])));
            }
            i = i + 1;
        }
        proof {
            assert(self.entries().take(i as int) =~= self.entries());
        }
        entries
    }

    /// Marks the commit of `key` as reviewed, or unmarks it; a repository left without a mark is
    /// dropped.
    pub fn set_reviewed(&mut self, key: &ReviewKey, reviewed: bool)
        ensures
            entries_well_formed(final(self).entries()),
            final(self).marked() == if reviewed {
                old(self).marked().insert((key@.repository_id, key@.sha))
            } else {
                old(self).marked().remove((key@.repository_id, key@.sha))
            },
            final(self).marked() == old(self).marked() ==> final(self).entries() == old(self).entries(),
    {
        proof {
            use_type_invariant(&*self);
            use_type_invariant(key);
        }
        let mut repositories: Vec<RepositoryMarks> = Vec::new();
        std::mem::swap(&mut repositories, &mut self.repositories);
        let ghost before = entries_view_of(repositories@);
        let ghost pair = (key@.repository_id, key@.sha);
        match position_of_repository(&repositories, key.repository_id) {
            Some(at) => {
                let mut entry = repositories.remove(at);
                proof {
                    assert(entry@ == before[at as int]);
                    assert(before[at as int].reviewed.len() > 0);
                    assert(strictly_sorted(texts_view(entry.reviewed@)));
                }
                if reviewed {
                    insert_sorted(&mut entry.reviewed, key.sha.clone());
                } else {
                    remove_sorted(&mut entry.reviewed, &key.sha);
                }
                proof {
                    lemma_entry_update(before, at as int, entry@, pair, reviewed);
                }
                if entry.reviewed.len() > 0 {
                    repositories.insert(at, entry);
                    proof {
                        assert(entries_view_of(repositories@) =~= before.update(at as int, entry@));
                    }
                } else {
                    proof {
                        assert(entries_view_of(repositories@) =~= before.remove(at as int));
                        lemma_entry_dropped(before, at as int, entry@);
                    }
                }
            },
            None => {
                if reviewed {
                    let mut shas: Vec<String> = Vec::new();
                    shas.push(key.sha.clone());
                    let entry = RepositoryMarks { repository_id: key.repository_id, reviewed: shas };
                    proof {
                        assert(entry@.reviewed =~= seq![key@.sha]);
                    }
                    insert_repository(&mut repositories, entry);
                    proof {
                        lemma_entry_added(before, entries_view_of(repositories@), entry@);
                    }
                } else {
                    proof {
                        assert(marked_pairs(before).remove(pair) =~= marked_pairs(before));
                    }
                }
            },
        }
        self.repositories = repositories;
        proof {
            if self.marked() == old(self).marked() {
                law_marks_determined_by_marked(old(self).entries(), self.entries());
            }
        }
    }
}

impl Clone for ReviewMarks {
    fn clone(&self) -> (copy: Self)
        ensures
            copy.entries() == self.entries(),
            entries_well_formed(copy.entries()),
    {
        proof {
            use_type_invariant(self);
        }
        let mut repositories: Vec<RepositoryMarks> = Vec::new();
        let mut i: usize = 0;
        while i < self.repositories.len()
            invariant
                i <= self.repositories@.len(),
                entries_view_of(repositories@) == self.entries().take(i as int),
            decreases self.repositories.len() - i,
        {
            let entry = &self.repositories[i];
            let reviewed = entry.reviewed.clone();
            proof {
                assert forall|k: int| 0 <= k < entry.reviewed@.len() implies reviewed@[k]@
                    == entry.reviewed@[k]@ by {
                    assert(cloned(entry.reviewed[k], reviewed[k]));
                }
                assert(texts_view(reviewed@) =~= texts_view(entry.reviewed@));
            }
            let ghost previous = repositories@;
            let copy = RepositoryMarks { repository_id: entry.repository_id, reviewed };
            proof {
                assert(copy@ == self.entries()[i as int]);
            }
            repositories.push(copy);
            proof {
                assert(entries_view_of(repositories@) =~= entries_view_of(previous).push(copy@));
                assert(self.entries().take(i + 1) =~= self.entries().take(i as int).push(
                    self.entries()[i as int],
                ));
            }
            i = i + 1;
        }
        proof {
            assert(self.entries().take(i as int) =~= self.entries());
        }
        ReviewMarks { repositories }
    }
}

impl Default for ReviewMarks {
    fn default() -> (marks: Self)
        ensures
            marks.entries().len() == 0,
            marks.marked().is_empty(),
    {
        ReviewMarks::new()
    }
}

/// One repository of the state file: the decimal text of its id and its reviewed SHAs.
#[derive(Debug, PartialEq, Eq)]
pub struct StateEntry {
    pub repository: String,
    pub reviewed: Vec<String>,
}

/// A state-file entry as values.
pub struct StateEntryView {
    pub repository: Seq<char>,
    pub reviewed: Seq<Seq<char>>,
}

impl View for StateEntry {
    type V = StateEntryView;

    open spec fn view(&self) -> StateEntryView {
        StateEntryView { repository: self.repository@, reviewed: texts_view(self.reviewed@) }
    }
}

/// The views of `entries`.
pub open spec fn state_entries_view(entries: Seq<StateEntry>) -> Seq<StateEntryView> {
    entries.map_values(|entry: StateEntry| entry@)
}

/// The state-file entry of a repository's marks.
pub open spec fn file_entry(entry: RepositoryMarksView) -> StateEntryView {
    StateEntryView { repository: decimal(entry.repository_id as nat), reviewed: entry.reviewed }
}

/// The state-file entries of marks.
pub open spec fn file_entries(entries: Seq<RepositoryMarksView>) -> Seq<StateEntryView> {
    entries.map_values(|entry: RepositoryMarksView| file_entry(entry))
}

/// `text` in double quotes.
pub open spec fn quoted(text: Seq<char>) -> Seq<char> {
    "\""@ + text + "\""@
}

/// The lines that list `shas` in a state file.
pub open spec fn sha_lines(shas: Seq<Seq<char>>) -> Seq<char> {
    joined(shas.map_values(|sha: Seq<char>| "        "@ + quoted(sha)), ",\n"@)
}

/// The block of one repository in a state file.
pub open spec fn entry_block(entry: StateEntryView) -> Seq<char> {
    "    "@ + quoted(entry.repository) + ": {\n      \"reviewed\": ["@ + (if entry.reviewed.len() == 0 {
        "]"@
    } else {
        "\n"@ + sha_lines(entry.reviewed) + "\n      ]"@
    }) + "\n    }"@
}

/// The text of a state file that lists `entries`: pretty JSON, two spaces per level, ending in
/// a newline.
pub open spec fn state_text(entries: Seq<StateEntryView>) -> Seq<char> {
    "{\n  \"version\": 1,\n  \"repositories\": "@ + (if entries.len() == 0 {
        "{}"@
    } else {
        "{\n"@ + joined(entries.map_values(|entry: StateEntryView| entry_block(entry)), ",\n"@)
            + "\n  }"@
    }) + "\n}\n"@
}

fn quoted_text(text: &str) -> (quoted_copy: String)
    ensures
        quoted_copy@ == quoted(text@),
{
    let mut result = String::new();
    push_text(&mut result, "\"");
    push_text(&mut result, text);
    push_text(&mut result, "\"");
    result
}

fn entry_block_text(entry: &StateEntry) -> (block: String)
    ensures
        block@ == entry_block(entry@),
{
    let mut block = String::new();
    push_text(&mut block, "    ");
    let name = quoted_text(entry.repository.as_str());
    push_text(&mut block, name.as_str());
    push_text(&mut block, ": {\n      \"reviewed\": [");
    if entry.reviewed.len() == 0 {
        push_text(&mut block, "]");
    } else {
        let mut lines: Vec<String> = Vec::new();
        let mut i: usize = 0;
        while i < entry.reviewed.len()
            invariant
                i <= entry.reviewed@.len(),
                texts_view(lines@) == entry@.reviewed.take(i as int).map_values(
                    |sha: Seq<char>| "        "@ + quoted(sha),
                ),
            decreases entry.reviewed.len() - i,
        {
            let mut line = String::new();
            push_text(&mut line, "        ");
            let sha = quoted_text(entry.reviewed[i].as_str());
            push_text(&mut line, sha.as_str());
            let ghost previous = lines@;
            lines.push(line);
            proof {
                assert(texts_view(lines@) =~= texts_view(previous).push(line@));
                assert(entry@.reviewed.take(i + 1) =~= entry@.reviewed.take(i as int).push(
                    entry@.reviewed[i as int],
                ));
            }
            i = i + 1;
        }
        proof {
            assert(entry@.reviewed.take(i as int) =~= entry@.reviewed);
        }
        push_text(&mut block, "\n");
        let listed = join_texts(&lines, ",\n");
        push_text(&mut block, listed.as_str());
        push_text(&mut block, "\n      ]");
    }
    push_text(&mut block, "\n    }");
    proof {
        assert(block@ =~= entry_block(entry@));
    }
    block
}

/// The state file that records `marks`.
pub fn encode_state(marks: &ReviewMarks) -> (text: String)
    ensures
        text@ == state_text(file_entries(marks.entries())),
{
    let entries = marks.state_entries();
    let ghost listed = state_entries_view(entries@);
    let mut text = String::new();
    push_text(&mut text, "{\n  \"version\": 1,\n  \"repositories\": ");
    if entries.len() == 0 {
        push_text(&mut text, "{}");
    } else {
        let mut blocks: Vec<String> = Vec::new();
        let mut i: usize = 0;
        while i < entries.len()
            invariant
                i <= entries@.len(),
                listed == state_entries_view(entries@),
                texts_view(blocks@) == listed.take(i as int).map_values(
                    |entry: StateEntryView| entry_block(entry),
                ),
            decreases entries.len() - i,
        {
            let block = entry_block_text(&entries[i]);
            let ghost previous = blocks@;
            blocks.push(block);
            proof {
                assert(texts_view(blocks@) =~= texts_view(previous).push(block@));
                assert(listed.take(i + 1) =~= listed.take(i as int).push(listed[i as int]));
            }
            i = i + 1;
        }
        proof {
            assert(listed.take(i as int) =~= listed);
        }
        push_text(&mut text, "{\n");
        let body = join_texts(&blocks, ",\n");
        push_text(&mut text, body.as_str());
        push_text(&mut text, "\n  }");
    }
    push_text(&mut text, "\n}\n");
    proof {
        assert(text@ =~= state_text(listed));
    }
    text
}

/// Why review state could not be used.
#[derive(Clone, Copy, Debug, PartialEq, Eq)]
pub enum ReviewStateError {
    /// No absolute user-data directory is configured.
    Unavailable,
    /// The state file exists but could not be read.
    Read(std::io::ErrorKind),
    /// The state file is not a valid state file.
    Malformed,
    /// The state file has another version than this library writes.
    UnsupportedVersion,
    /// The state file could not be written.
    Write(std::io::ErrorKind),
}

impl ReviewStateError {
    /// What went wrong and what to do, for a person; never a path or file content.
    pub fn message(&self) -> (text: String)
        ensures
            match *self {
                ReviewStateError::Unavailable => text@
                    == "review state is unavailable; set XDG_DATA_HOME or HOME to an absolute directory"@,
                ReviewStateError::Malformed => text@
                    == "review state is malformed; repair or move review-state.json before saving progress"@,
                ReviewStateError::UnsupportedVersion => text@
                    == "review state uses an unsupported version; upgrade ReviewBox or move review-state.json"@,
                ReviewStateError::Read(kind) => exists|kind_text: String|
                    #[trigger] vstd::string::to_string_from_display_ensures::<std::io::ErrorKind>(&kind, kind_text)
                        && text@ == "could not read review state ("@ + kind_text@
                        + "); check user-data directory permissions"@,
                ReviewStateError::Write(kind) => exists|kind_text: String|
                    #[trigger] vstd::string::to_string_from_display_ensures::<std::io::ErrorKind>(&kind, kind_text)
                        && text@ == "could not save review state ("@ + kind_text@
                        + "); check user-data directory permissions and free space"@,
            },
    {
        match self {
            ReviewStateError::Unavailable => "review state is unavailable; set XDG_DATA_HOME or HOME to an absolute directory".to_owned(),
            ReviewStateError::Malformed => "review state is malformed; repair or move review-state.json before saving progress".to_owned(),
            ReviewStateError::UnsupportedVersion => "review state uses an unsupported version; upgrade ReviewBox or move review-state.json".to_owned(),
            ReviewStateError::Read(kind) => {
                let kind_text = kind.to_string();
                let mut text = String::new();
                push_text(&mut text, "could not read review state (");
                push_text(&mut text, kind_text.as_str());
                push_text(&mut text, "); check user-data directory permissions");
                text
            },
            ReviewStateError::Write(kind) => {
                let kind_text = kind.to_string();
                let mut text = String::new();
                push_text(&mut text, "could not save review state (");
                push_text(&mut text, kind_text.as_str());
                push_text(&mut text, "); check user-data directory permissions and free space");
                text
            },
        }
    }
}

/// The repository id that `text` is the decimal notation of, if it is one.
pub open spec fn names_repository(text: Seq<char>) -> bool {
    exists|id: u64| text == decimal(id as nat)
}

/// The repository id whose decimal notation is `text` (see `names_repository`).
pub open spec fn repository_of(text: Seq<char>) -> u64 {
    choose|id: u64| text == decimal(id as nat)
}

/// A state-file entry this library accepts: the canonical decimal text of a `u64` id, and only
/// complete SHAs.
pub open spec fn entry_decodable(entry: StateEntryView) -> bool {
    &&& names_repository(entry.repository)
    &&& forall|j: int| 0 <= j < entry.reviewed.len() ==> is_full_sha(#[trigger] entry.reviewed[j])
}

/// Every entry is one this library accepts.
pub open spec fn all_decodable(entries: Seq<StateEntryView>) -> bool {
    forall|i: int| 0 <= i < entries.len() ==> entry_decodable(#[trigger] entries[i])
}

/// The pairs that one state-file entry marks.
pub open spec fn entry_pairs(entry: StateEntryView) -> Set<(u64, Seq<char>)> {
    Set::new(
        |pair: (u64, Seq<char>)|
            pair.0 == repository_of(entry.repository) && exists|j: int|
                0 <= j < entry.reviewed.len() && lowercased(#[trigger] entry.reviewed[j]) == pair.1,
    )
}

/// The pairs that state-file entries mark, SHAs made small.
pub open spec fn decoded_pairs(entries: Seq<StateEntryView>) -> Set<(u64, Seq<char>)>
    decreases entries.len(),
{
    if entries.len() == 0 {
        Set::empty()
    } else {
        decoded_pairs(entries.drop_last()).union(entry_pairs(entries.last()))
    }
}

/// What a state file read as `version` and `entries` gives: no readable version is malformed, an
/// unknown version unsupported, entries that are not a state file's or that this library does
/// not accept malformed; otherwise the marks that the entries list.
pub fn decode_state(version: Option<u64>, entries: Option<Vec<StateEntry>>) -> (marks: Result<
    ReviewMarks,
    ReviewStateError,
>)
    ensures
        match (version, entries) {
            (None, _) => marks == Err::<ReviewMarks, ReviewStateError>(ReviewStateError::Malformed),
            (Some(v), _) if v != FORMAT_VERSION => marks == Err::<ReviewMarks, ReviewStateError>(
                ReviewStateError::UnsupportedVersion,
            ),
            (Some(_), None) => marks == Err::<ReviewMarks, ReviewStateError>(
                ReviewStateError::Malformed,
            ),
            (Some(_), Some(listed)) => {
                &&& all_decodable(state_entries_view(listed@)) ==> {
                    &&& marks is Ok
                    &&& marks.unwrap().marked() == decoded_pairs(state_entries_view(listed@))
                    &&& entries_well_formed(marks.unwrap().entries())
                }
                &&& !all_decodable(state_entries_view(listed@)) ==> marks == Err::<
                    ReviewMarks,
                    ReviewStateError,
                >(ReviewStateError::Malformed)
            },
        },
{
    let read_version = match version {
        None => return Err(ReviewStateError::Malformed),
        Some(read_version) => read_version,
    };
    if read_version != FORMAT_VERSION {
        return Err(ReviewStateError::UnsupportedVersion);
    }
    let listed = match entries {
        None => return Err(ReviewStateError::Malformed),
        Some(listed) => listed,
    };
    let ghost views = state_entries_view(listed@);
    let mut marks = ReviewMarks::new();
    proof {
        assert(decoded_pairs(views.take(0)) =~= Set::<(u64, Seq<char>)>::empty());
    }
    let mut i: usize = 0;
    while i < listed.len()
        invariant
            i <= listed@.len(),
            version == Some(FORMAT_VERSION),
            entries == Some(listed),
            views == state_entries_view(listed@),
            forall|k: int| 0 <= k < i ==> entry_decodable(#[trigger] views[k]),
            marks.marked() == decoded_pairs(views.take(i as int)),
            entries_well_formed(marks.entries()),
        decreases listed.len() - i,
    {
        let entry = &listed[i];
        let ghost view = views[i as int];
        let repository_id = match parse_decimal(entry.repository.as_str()) {
            None => {
                proof {
                    assert(!entry_decodable(views[i as int]));
                    assert(!all_decodable(views));
                }
                return Err(ReviewStateError::Malformed);
            },
            Some(id) => id,
        };
        proof {
            assert(names_repository(view.repository));
            lemma_decimal_injective(repository_of(view.repository) as nat, repository_id as nat);
        }
        let ghost start = marks.marked();
        let mut j: usize = 0;
        while j < entry.reviewed.len()
            invariant
                j <= entry.reviewed@.len(),
                i < listed@.len(),
                version == Some(FORMAT_VERSION),
                entries == Some(listed),
                views == state_entries_view(listed@),
                view == views[i as int],
                view == entry@,
                repository_of(view.repository) == repository_id,
                forall|k: int| 0 <= k < j ==> is_full_sha(#[trigger] view.reviewed[k]),
                marks.marked() == start.union(entry_pairs(StateEntryView {
                    repository: view.repository,
                    reviewed: view.reviewed.take(j as int),
                })),
                entries_well_formed(marks.entries()),
            decreases entry.reviewed.len() - j,
        {
            let key = match ReviewKey::new(repository_id, entry.reviewed[j].as_str()) {
                Err(_) => {
                    proof {
                        assert(!is_full_sha(view.reviewed[j as int]));
                        assert(!entry_decodable(views[i as int]));
                        assert(!all_decodable(views));
                    }
                    return Err(ReviewStateError::Malformed);
                },
                Ok(key) => key,
            };
            let ghost before = marks.marked();
            marks.set_reviewed(&key, true);
            proof {
                let previous = StateEntryView { repository: view.repository, reviewed: view.reviewed.take(j as int) };
                let next = StateEntryView { repository: view.repository, reviewed: view.reviewed.take(j + 1) };
                assert forall|pair: (u64, Seq<char>)| entry_pairs(next).contains(pair) <==> entry_pairs(previous).insert(
                    (repository_id, key@.sha),
                ).contains(pair) by {
                    if entry_pairs(next).contains(pair) && pair != (repository_id, key@.sha) {
                        let k = choose|k: int| 0 <= k < next.reviewed.len() && lowercased(#[trigger] next.reviewed[k]) == pair.1;
                        if k == j {
                            assert(next.reviewed[k] == view.reviewed[j as int]);
                        } else {
                            assert(previous.reviewed[k] == next.reviewed[k]);
                        }
                    }
                    if entry_pairs(previous).insert((repository_id, key@.sha)).contains(pair) {
                        if pair == (repository_id, key@.sha) {
                            assert(lowercased(next.reviewed[j as int]) == pair.1);
                        } else {
                            let k = choose|k: int| 0 <= k < previous.reviewed.len() && lowercased(#[trigger] previous.reviewed[k]) == pair.1;
                            assert(next.reviewed[k] == previous.reviewed[k]);
                        }
                    }
                }
                assert(entry_pairs(next) =~= entry_pairs(previous).insert((repository_id, key@.sha)));
                assert(marks.marked() =~= start.union(entry_pairs(next)));
            }
            j = j + 1;
        }
        proof {
            assert(view.reviewed.take(j as int) =~= view.reviewed);
            assert(views.take(i + 1).drop_last() =~= views.take(i as int));
            assert(entry_decodable(views[i as int]));
        }
        i = i + 1;
    }
    proof {
        assert(views.take(i as int) =~= views);
    }
    Ok(marks)
}

/// Reading back the state file written for marks gives the same marks: every entry is accepted,
/// and the pairs it lists are exactly the marked ones.
pub proof fn law_state_round_trip(entries: Seq<RepositoryMarksView>)
    requires
        entries_well_formed(entries),
    ensures
        all_decodable(file_entries(entries)),
        decoded_pairs(file_entries(entries)) == marked_pairs(entries),
    decreases entries.len(),
{
    let listed = file_entries(entries);
    assert forall|i: int| 0 <= i < listed.len() implies entry_decodable(#[trigger] listed[i]) by {
        assert(listed[i].repository == decimal(entries[i].repository_id as nat));
        assert(entries[i].reviewed.len() > 0);
        assert forall|j: int| 0 <= j < listed[i].reviewed.len() implies is_full_sha(#[trigger] listed[i].reviewed[j]) by {
            assert(is_canonical_sha(entries[i].reviewed[j]));
        }
    }
    if entries.len() > 0 {
        let rest = entries.drop_last();
        lemma_well_formed_prefix(entries);
        law_state_round_trip(rest);
        assert(file_entries(rest) =~= listed.drop_last());
        let last = entries.last();
        assert(last.reviewed.len() > 0);
        assert(listed.last() == file_entry(last));
        lemma_decimal_injective(repository_of(listed.last().repository) as nat, last.repository_id as nat);
        assert forall|pair: (u64, Seq<char>)| decoded_pairs(listed).contains(pair) <==> marked_pairs(entries).contains(pair) by {
            if marked_pairs(entries).contains(pair) {
                let i = choose|i: int| 0 <= i < entries.len() && (#[trigger] entries[i]).repository_id == pair.0 && entries[i].reviewed.contains(pair.1);
                if i < entries.len() - 1 {
                    assert(rest[i] == entries[i]);
                    assert(marked_pairs(rest).contains(pair));
                } else {
                    let j = choose|j: int| 0 <= j < last.reviewed.len() && last.reviewed[j] == pair.1;
                    assert(is_canonical_sha(last.reviewed[j]));
                    assert(lowercased(listed.last().reviewed[j]) == pair.1);
                    assert(entry_pairs(listed.last()).contains(pair));
                }
            }
            if decoded_pairs(listed).contains(pair) {
                if decoded_pairs(listed.drop_last()).contains(pair) {
                    let i = choose|i: int| 0 <= i < rest.len() && (#[trigger] rest[i]).repository_id == pair.0 && rest[i].reviewed.contains(pair.1);
                    assert(entries[i] == rest[i]);
                } else {
                    let j = choose|j: int| 0 <= j < listed.last().reviewed.len() && lowercased(#[trigger] listed.last().reviewed[j]) == pair.1;
                    assert(is_canonical_sha(last.reviewed[j]));
                    assert(last.reviewed.contains(pair.1));
                    assert(entries[entries.len() - 1] == last);
                }
            }
        }
        assert(decoded_pairs(listed) =~= marked_pairs(entries));
    } else {
        assert(marked_pairs(entries) =~= Set::<(u64, Seq<char>)>::empty());
    }
}

/// The repositories counted by `repository_count` are exactly those with a marked commit: a
/// repository whose last mark is removed is no longer counted.
pub proof fn law_repositories_are_those_marked(entries: Seq<RepositoryMarksView>)
    requires
        entries_well_formed(entries),
    ensures
        entries.len() == marked_pairs(entries).map(|pair: (u64, Seq<char>)| pair.0).len(),
{
    let ids = entries.map_values(|entry: RepositoryMarksView| entry.repository_id);
    assert forall|i: int, j: int| 0 <= i < ids.len() && 0 <= j < ids.len() && i != j implies ids[i] != ids[j] by {
        lemma_ids_distinct(entries, i, j);
    }
    assert(ids.no_duplicates());
    ids.unique_seq_to_set();
    let repositories = marked_pairs(entries).map(|pair: (u64, Seq<char>)| pair.0);
    assert forall|id: u64| ids.to_set().contains(id) <==> repositories.contains(id) by {
        if ids.to_set().contains(id) {
            let i = choose|i: int| 0 <= i < ids.len() && ids[i] == id;
            assert(entries[i].reviewed.len() > 0);
            let pair = (id, entries[i].reviewed[0]);
            assert(entries[i].reviewed.contains(pair.1));
            assert(marked_pairs(entries).contains(pair));
        }
        if repositories.contains(id) {
            let pair = choose|pair: (u64, Seq<char>)| marked_pairs(entries).contains(pair) && pair.0 == id;
            let i = choose|i: int| 0 <= i < entries.len() && (#[trigger] entries[i]).repository_id == pair.0 && entries[i].reviewed.contains(pair.1);
            assert(ids[i] == id);
        }
    }
    assert(ids.to_set() =~= repositories);
}

/// The entries without the last are well formed too.
proof fn lemma_well_formed_prefix(entries: Seq<RepositoryMarksView>)
    requires
        entries_well_formed(entries),
        entries.len() > 0,
    ensures
        entries_well_formed(entries.drop_last()),
{
    let rest = entries.drop_last();
    assert(id_texts(rest) =~= id_texts(entries).drop_last());
    assert forall|i: int| 0 <= i < rest.len() implies {
        &&& (#[trigger] rest[i]).reviewed.len() > 0
        &&& strictly_sorted(rest[i].reviewed)
        &&& forall|j: int| 0 <= j < rest[i].reviewed.len() ==> is_canonical_sha(#[trigger] rest[i].reviewed[j])
    } by {
        assert(rest[i] == entries[i]);
    }
}

/// Marking a commit that was not marked and then unmarking it leaves exactly the marks there
/// were (see `ReviewMarks::set_reviewed`); marking a marked commit again changes nothing.
pub proof fn law_unmark_undoes_mark(marked: Set<(u64, Seq<char>)>, key: (u64, Seq<char>))
    ensures
        !marked.contains(key) ==> marked.insert(key).remove(key) == marked,
        marked.contains(key) ==> marked.insert(key) == marked,
{
    assert(!marked.contains(key) ==> marked.insert(key).remove(key) =~= marked);
    assert(marked.contains(key) ==> marked.insert(key) =~= marked);
}

/// Well-formed marks are determined by what they mark: two that mark the same (repository,
/// SHA) pairs are equal. So marking a commit and unmarking it again, or marking a marked commit
/// again, gives marks equal by value to those before (see `law_unmark_undoes_mark`).
pub proof fn law_marks_determined_by_marked(a: Seq<RepositoryMarksView>, b: Seq<RepositoryMarksView>)
    requires
        entries_well_formed(a),
        entries_well_formed(b),
        marked_pairs(a) == marked_pairs(b),
    ensures
        a == b,
{
    lemma_same_ids(a, b);
    lemma_same_ids(b, a);
    let ta = id_texts(a);
    let tb = id_texts(b);
    assert(ta.to_set() =~= tb.to_set());
    lemma_sorted_unique(ta, tb);
    assert(ta.len() == a.len());
    assert(tb.len() == b.len());
    assert(a.len() == b.len());
    assert forall|i: int| 0 <= i < a.len() implies a[i] == b[i] by {
        assert(ta[i] == tb[i]);
        lemma_decimal_injective(a[i].repository_id as nat, b[i].repository_id as nat);
        lemma_same_shas(a, b, i);
        lemma_same_shas(b, a, i);
        assert(a[i].reviewed.to_set() =~= b[i].reviewed.to_set());
        lemma_sorted_unique(a[i].reviewed, b[i].reviewed);
    }
    assert(a =~= b);
}

/// Every id text of `a` is one of `b` where both mark the same pairs.
proof fn lemma_same_ids(a: Seq<RepositoryMarksView>, b: Seq<RepositoryMarksView>)
    requires
        entries_well_formed(a),
        entries_well_formed(b),
        marked_pairs(a) == marked_pairs(b),
    ensures
        forall|x: Seq<char>| id_texts(a).contains(x) ==> id_texts(b).contains(x),
{
    assert forall|x: Seq<char>| id_texts(a).contains(x) implies id_texts(b).contains(x) by {
        let i = choose|i: int| 0 <= i < id_texts(a).len() && id_texts(a)[i] == x;
        let pair = (a[i].repository_id, a[i].reviewed[0]);
        assert(a[i].reviewed.contains(a[i].reviewed[0]));
        assert(marked_pairs(a).contains(pair));
        assert(marked_pairs(b).contains(pair));
        let j = choose|j: int|
            0 <= j < b.len() && (#[trigger] b[j]).repository_id == pair.0 && b[j].reviewed.contains(pair.1);
        assert(id_texts(b)[j] == x);
    }
}

/// Where `a` and `b` mark the same pairs and have the same id at `i`, every SHA of `a[i]` is one
/// of `b[i]`.
proof fn lemma_same_shas(a: Seq<RepositoryMarksView>, b: Seq<RepositoryMarksView>, i: int)
    requires
        entries_well_formed(a),
        entries_well_formed(b),
        marked_pairs(a) == marked_pairs(b),
        0 <= i < a.len(),
        i < b.len(),
        a[i].repository_id == b[i].repository_id,
    ensures
        forall|x: Seq<char>| a[i].reviewed.contains(x) ==> b[i].reviewed.contains(x),
{
    assert forall|x: Seq<char>| a[i].reviewed.contains(x) implies b[i].reviewed.contains(x) by {
        let pair = (a[i].repository_id, x);
        assert(marked_pairs(a).contains(pair));
        assert(marked_pairs(b).contains(pair));
        let j = choose|j: int|
            0 <= j < b.len() && (#[trigger] b[j]).repository_id == pair.0 && b[j].reviewed.contains(pair.1);
        if j != i {
            lemma_ids_distinct(b, i, j);
        }
    }
}

/// Marking a commit that was not marked adds one to the number of reviewed commits; unmarking
/// a marked one takes one away; any other `set_reviewed` leaves the number as it was.
pub proof fn law_marking_counts_by_one(
    before: Seq<RepositoryMarksView>,
    after: Seq<RepositoryMarksView>,
    key: (u64, Seq<char>),
    reviewed: bool,
)
    requires
        entries_well_formed(before),
        entries_well_formed(after),
        marked_pairs(after) == if reviewed {
            marked_pairs(before).insert(key)
        } else {
            marked_pairs(before).remove(key)
        },
    ensures
        reviewed_total(after) == if reviewed && !marked_pairs(before).contains(key) {
            reviewed_total(before) + 1int
        } else if !reviewed && marked_pairs(before).contains(key) {
            reviewed_total(before) - 1
        } else {
            reviewed_total(before) as int
        },
{
    law_reviewed_count_counts_marks(before);
    law_reviewed_count_counts_marks(after);
    if reviewed && marked_pairs(before).contains(key) {
        assert(marked_pairs(before).insert(key) =~= marked_pairs(before));
    }
    if !reviewed && !marked_pairs(before).contains(key) {
        assert(marked_pairs(before).remove(key) =~= marked_pairs(before));
    }
}

/// `reviewed_count` counts marked commits: the SHAs held, summed over the repositories, are
/// exactly the marked (repository, SHA) pairs.
pub proof fn law_reviewed_count_counts_marks(entries: Seq<RepositoryMarksView>)
    requires
        entries_well_formed(entries),
    ensures
        marked_pairs(entries).finite(),
        marked_pairs(entries).len() == reviewed_total(entries),
    decreases entries.len(),
{
    if entries.len() == 0 {
        assert(marked_pairs(entries) =~= Set::<(u64, Seq<char>)>::empty());
    } else {
        let rest = entries.drop_last();
        let last = entries.last();
        lemma_well_formed_prefix(entries);
        law_reviewed_count_counts_marks(rest);
        let id = last.repository_id;
        let pair_of = |sha: Seq<char>| (id, sha);
        let shas = last.reviewed.to_set();
        let added = shas.map(pair_of);
        assert(last.reviewed.len() > 0);
        assert(strictly_sorted(last.reviewed));
        assert forall|i: int, j: int| 0 <= i < last.reviewed.len() && 0 <= j < last.reviewed.len() && i != j implies last.reviewed[i] != last.reviewed[j] by {
            if i < j {
                assert(text_less(last.reviewed[i], last.reviewed[j]));
            } else {
                assert(text_less(last.reviewed[j], last.reviewed[i]));
            }
            lemma_text_less_irreflexive(last.reviewed[i]);
        }
        assert(last.reviewed.no_duplicates());
        last.reviewed.unique_seq_to_set();
        assert(vstd::relations::injective_on(pair_of, shas)) by {
            assert forall|a: Seq<char>, b: Seq<char>| shas.contains(a) && shas.contains(b) && #[trigger] pair_of(a) == #[trigger] pair_of(b) implies a == b by {
                assert(pair_of(a).1 == a);
                assert(pair_of(b).1 == b);
            }
        }
        vstd::set_lib::lemma_map_size(shas, added, pair_of);
        assert forall|pair: (u64, Seq<char>)| marked_pairs(entries).contains(pair) <==> (marked_pairs(rest) + added).contains(pair) by {
            if marked_pairs(entries).contains(pair) {
                let i = choose|i: int| 0 <= i < entries.len() && (#[trigger] entries[i]).repository_id == pair.0 && entries[i].reviewed.contains(pair.1);
                if i < entries.len() - 1 {
                    assert(rest[i] == entries[i]);
                } else {
                    assert(shas.contains(pair.1));
                    assert(pair_of(pair.1) == pair);
                }
            }
            if marked_pairs(rest).contains(pair) {
                let i = choose|i: int| 0 <= i < rest.len() && (#[trigger] rest[i]).repository_id == pair.0 && rest[i].reviewed.contains(pair.1);
                assert(entries[i] == rest[i]);
            }
            if added.contains(pair) {
                let sha = choose|sha: Seq<char>| shas.contains(sha) && pair_of(sha) == pair;
                assert(entries[entries.len() - 1] == last);
                assert(last.reviewed.contains(sha));
            }
        }
        assert(marked_pairs(entries) =~= marked_pairs(rest) + added);
        assert(marked_pairs(rest).disjoint(added)) by {
            assert forall|pair: (u64, Seq<char>)| marked_pairs(rest).contains(pair) implies !added.contains(pair) by {
                let i = choose|i: int| 0 <= i < rest.len() && (#[trigger] rest[i]).repository_id == pair.0 && rest[i].reviewed.contains(pair.1);
                lemma_ids_distinct(entries, i, entries.len() - 1);
                assert(entries[i] == rest[i]);
            }
        }
        vstd::set_lib::lemma_set_disjoint_lens(marked_pairs(rest), added);
    }
}

/// Where marks are kept between runs.
pub trait ReviewStore {
    /// The marks kept so far.
    fn load(&self) -> Result<ReviewMarks, ReviewStateError>;

    /// Marks or unmarks one commit and keeps the result; returns the marks now kept.
    fn set_reviewed(&mut self, key: &ReviewKey, reviewed: bool) -> Result<
        ReviewMarks,
        ReviewStateError,
    >;
}

/// Marks kept in memory only, for the demo and for tests.
#[derive(Debug)]
pub struct MemoryReviewStore {
    marks: ReviewMarks,
}

impl MemoryReviewStore {
    /// A store that starts with `marks`.
    pub fn new(marks: ReviewMarks) -> (store: MemoryReviewStore)
        ensures
            store.kept() == marks.entries(),
    {
        MemoryReviewStore { marks }
    }

    /// The marks the store keeps.
    pub closed spec fn kept(&self) -> Seq<RepositoryMarksView> {
        self.marks.entries()
    }
}

impl Default for MemoryReviewStore {
    fn default() -> (store: Self)
        ensures
            store.kept().len() == 0,
    {
        MemoryReviewStore { marks: ReviewMarks::new() }
    }
}

impl ReviewStore for MemoryReviewStore {
    fn load(&self) -> (marks: Result<ReviewMarks, ReviewStateError>)
        ensures
            marks matches Ok(loaded) && loaded.entries() == self.kept(),
    {
        Ok(self.marks.clone())
    }

    fn set_reviewed(&mut self, key: &ReviewKey, reviewed: bool) -> (marks: Result<
        ReviewMarks,
        ReviewStateError,
    >)
        ensures
            marked_pairs(final(self).kept()) == if reviewed {
                marked_pairs(old(self).kept()).insert((key@.repository_id, key@.sha))
            } else {
                marked_pairs(old(self).kept()).remove((key@.repository_id, key@.sha))
            },
            marks matches Ok(saved) && saved.entries() == final(self).kept(),
    {
        self.marks.set_reviewed(key, reviewed);
        Ok(self.marks.clone())
    }
}

/// An absolute directory: a text that starts at the root.
pub open spec fn is_absolute_directory(path: Seq<char>) -> bool {
    path.len() > 0 && path[0] == '/'
}

/// `relative` below `base`, with one separator between them.
pub open spec fn path_below(base: Seq<char>, relative: Seq<char>) -> Seq<char> {
    if base.len() > 0 && base.last() == '/' {
        base + relative
    } else {
        base + "/"@ + relative
    }
}

fn path_below_text(base: &str, relative: &str) -> (path: String)
    ensures
        path@ == path_below(base@, relative@),
{
    let chars = chars_of(base);
    let mut path = String::new();
    push_text(&mut path, base);
    if chars.len() == 0 || chars[chars.len() - 1] != '/' {
        push_text(&mut path, "/");
    }
    push_text(&mut path, relative);
    path
}

fn absolute_directory(path: &str) -> (absolute: bool)
    ensures
        absolute == is_absolute_directory(path@),
{
    let chars = chars_of(path);
    chars.len() > 0 && chars[0] == '/'
}

/// Where a data file named `file_name` lives, from the values of `XDG_DATA_HOME` and `HOME`:
/// in `reviewbox` below an absolute `XDG_DATA_HOME`, else below `.local/share` of an absolute
/// `HOME`; nowhere when neither is absolute (an empty or relative value counts as unset).
pub open spec fn data_file_path(
    xdg_data_home: Option<Seq<char>>,
    home: Option<Seq<char>>,
    file_name: Seq<char>,
) -> Option<Seq<char>> {
    match (xdg_data_home, home) {
        (Some(data), _) if is_absolute_directory(data) => Some(
            path_below(data, "reviewbox/"@ + file_name),
        ),
        (_, Some(home)) if is_absolute_directory(home) => Some(
            path_below(home, ".local/share/reviewbox/"@ + file_name),
        ),
        _ => None,
    }
}

/// A data file is never placed relative to the working directory: every location found is
/// absolute.
pub proof fn law_data_files_are_absolute(
    xdg_data_home: Option<Seq<char>>,
    home: Option<Seq<char>>,
    file_name: Seq<char>,
)
    ensures
        data_file_path(xdg_data_home, home, file_name) matches Some(path) ==> is_absolute_directory(path),
{
    if let Some(path) = data_file_path(xdg_data_home, home, file_name) {
        match (xdg_data_home, home) {
            (Some(data), _) if is_absolute_directory(data) => {
                assert(path[0] == data[0]);
            },
            (_, Some(base)) if is_absolute_directory(base) => {
                assert(path[0] == base[0]);
            },
            _ => {},
        }
    }
}

/// See `data_file_path`.
pub fn data_file_location(xdg_data_home: Option<&str>, home: Option<&str>, file_name: &str) -> (location:
    Option<String>)
    ensures
        match data_file_path(
            match xdg_data_home {
                Some(text) => Some(text@),
                None => None,
            },
            match home {
                Some(text) => Some(text@),
                None => None,
            },
            file_name@,
        ) {
            Some(path) => location matches Some(found) && found@ == path,
            None => location is None,
        },
{
    if let Some(data) = xdg_data_home {
        if absolute_directory(data) {
            let mut relative = String::new();
            push_text(&mut relative, "reviewbox/");
            push_text(&mut relative, file_name);
            return Some(path_below_text(data, relative.as_str()));
        }
    }
    if let Some(home) = home {
        if absolute_directory(home) {
            let mut relative = String::new();
            push_text(&mut relative, ".local/share/reviewbox/");
            push_text(&mut relative, file_name);
            return Some(path_below_text(home, relative.as_str()));
        }
    }
    None
}

/// Where the review-state file lives (see `data_file_path`); unavailable when no directory is
/// usable.
pub fn state_file_location(xdg_data_home: Option<&str>, home: Option<&str>) -> (location: Result<
    String,
    ReviewStateError,
>)
    ensures
        match data_file_path(
            match xdg_data_home {
                Some(text) => Some(text@),
                None => None,
            },
            match home {
                Some(text) => Some(text@),
                None => None,
            },
            "review-state.json"@,
        ) {
            Some(path) => location matches Ok(found) && found@ == path,
            None => location == Err::<String, ReviewStateError>(ReviewStateError::Unavailable),
        },
{
    match data_file_location(xdg_data_home, home, "review-state.json") {
        Some(path) => Ok(path),
        None => Err(ReviewStateError::Unavailable),
    }
}

/// Where the entry for `repository_id` stands, if there is one.
fn position_of_repository(repositories: &Vec<RepositoryMarks>, repository_id: u64) -> (position: Option<usize>)
    ensures
        match position {
            Some(at) => at < repositories@.len() && repositories@[at as int]@.repository_id == repository_id,
            None => forall|i: int| 0 <= i < repositories@.len() ==> repositories@[i]@.repository_id != repository_id,
        },
{
    let mut at: usize = 0;
    while at < repositories.len()
        invariant
            at <= repositories@.len(),
            forall|i: int| 0 <= i < at ==> repositories@[i]@.repository_id != repository_id,
        decreases repositories.len() - at,
    {
        if repositories[at].repository_id == repository_id {
            return Some(at);
        }
        at = at + 1;
    }
    None
}

/// Inserts the entry of a repository that has none yet where the order of id texts puts it.
fn insert_repository(repositories: &mut Vec<RepositoryMarks>, entry: RepositoryMarks)
    requires
        entries_well_formed(entries_view_of(old(repositories)@)),
        entry@.reviewed.len() > 0,
        strictly_sorted(entry@.reviewed),
        forall|j: int| 0 <= j < entry@.reviewed.len() ==> is_canonical_sha(#[trigger] entry@.reviewed[j]),
        forall|i: int| 0 <= i < old(repositories)@.len() ==> old(repositories)@[i]@.repository_id != entry@.repository_id,
    ensures
        entries_well_formed(entries_view_of(final(repositories)@)),
        exists|at: int|
            0 <= at <= old(repositories)@.len() && entries_view_of(final(repositories)@)
                == #[trigger] entries_view_of(old(repositories)@).insert(at, entry@),
{
    let ghost before = entries_view_of(repositories@);
    let ghost texts = id_texts(before);
    let text = decimal_string(entry.repository_id);
    let mut at: usize = 0;
    let mut searching = true;
    while searching && at < repositories.len()
        invariant
            at <= repositories@.len(),
            entries_view_of(repositories@) == before,
            texts == id_texts(before),
            entries_well_formed(before),
            text@ == decimal(entry@.repository_id as nat),
            forall|i: int| 0 <= i < at ==> text_less(texts[i], text@),
            !searching ==> at < repositories@.len() && !text_less(texts[at as int], text@),
        decreases repositories.len() - at, if searching { 1int } else { 0int },
    {
        let existing = decimal_string(repositories[at].repository_id);
        if text_before(existing.as_str(), text.as_str()) {
            at = at + 1;
        } else {
            searching = false;
        }
    }
    proof {
        assert forall|i: int| at <= i < before.len() implies text_less(text@, texts[i]) by {
            if texts[i] == text@ {
                lemma_decimal_injective(before[i].repository_id as nat, entry@.repository_id as nat);
            }
            if i == at {
                lemma_text_less_total(texts[i], text@);
            } else {
                assert(text_less(texts[at as int], texts[i]));
                if texts[at as int] == text@ {
                    lemma_decimal_injective(before[at as int].repository_id as nat, entry@.repository_id as nat);
                }
                lemma_text_less_total(texts[at as int], text@);
                lemma_text_less_transitive(text@, texts[at as int], texts[i]);
            }
        }
    }
    repositories.insert(at, entry);
    proof {
        let after = entries_view_of(repositories@);
        assert(after =~= before.insert(at as int, entry@));
        let after_texts = id_texts(after);
        assert(after_texts =~= texts.insert(at as int, text@));
        assert forall|i: int, j: int| 0 <= i < j < after_texts.len() implies text_less(after_texts[i], after_texts[j]) by {
            if i < at && j > at {
                lemma_text_less_transitive(after_texts[i], text@, after_texts[j]);
            }
        }
        assert forall|i: int| 0 <= i < after.len() implies {
            &&& (#[trigger] after[i]).reviewed.len() > 0
            &&& strictly_sorted(after[i].reviewed)
            &&& forall|j: int| 0 <= j < after[i].reviewed.len() ==> is_canonical_sha(#[trigger] after[i].reviewed[j])
        } by {
            if i < at {
                assert(after[i] == before[i]);
            } else if i > at {
                assert(after[i] == before[i - 1]);
            }
        }
    }
}

/// Replacing the entry at `at` by `entry`, the same repository with one SHA more or less, changes
/// the marked pairs by that pair alone and keeps the entries well formed where `entry` keeps a SHA.
proof fn lemma_entry_update(
    before: Seq<RepositoryMarksView>,
    at: int,
    entry: RepositoryMarksView,
    pair: (u64, Seq<char>),
    reviewed: bool,
)
    requires
        entries_well_formed(before),
        0 <= at < before.len(),
        before[at].repository_id == pair.0,
        entry.repository_id == pair.0,
        is_canonical_sha(pair.1),
        strictly_sorted(entry.reviewed),
        entry.reviewed.to_set() == if reviewed {
            before[at].reviewed.to_set().insert(pair.1)
        } else {
            before[at].reviewed.to_set().remove(pair.1)
        },
    ensures
        entry.reviewed.len() > 0 ==> entries_well_formed(before.update(at, entry)),
        entry.reviewed.len() > 0 ==> marked_pairs(before.update(at, entry)) == if reviewed {
            marked_pairs(before).insert(pair)
        } else {
            marked_pairs(before).remove(pair)
        },
        forall|j: int| 0 <= j < entry.reviewed.len() ==> is_canonical_sha(#[trigger] entry.reviewed[j]),
        entry.reviewed.len() == 0 ==> !reviewed && before[at].reviewed.to_set() =~= set![pair.1],
{
    assert forall|j: int| 0 <= j < entry.reviewed.len() implies is_canonical_sha(#[trigger] entry.reviewed[j]) by {
        assert(entry.reviewed.to_set().contains(entry.reviewed[j]));
        if entry.reviewed[j] != pair.1 {
            assert(before[at].reviewed.contains(entry.reviewed[j]));
            let k = choose|k: int| 0 <= k < before[at].reviewed.len() && before[at].reviewed[k] == entry.reviewed[j];
            assert(is_canonical_sha(before[at].reviewed[k]));
        }
    }
    if entry.reviewed.len() == 0 {
        assert(entry.reviewed.to_set() =~= Set::<Seq<char>>::empty());
        if reviewed {
            assert(entry.reviewed.to_set().contains(pair.1));
        }
        assert(before[at].reviewed.len() > 0);
        assert forall|t: Seq<char>| #[trigger] before[at].reviewed.to_set().contains(t) implies t == pair.1 by {
            if t != pair.1 {
                assert(before[at].reviewed.to_set().remove(pair.1).contains(t));
            }
        }
        assert(before[at].reviewed.to_set().contains(before[at].reviewed[0]));
    } else {
        let after = before.update(at, entry);
        assert(id_texts(after) =~= id_texts(before));
        assert forall|i: int| 0 <= i < after.len() implies {
            &&& (#[trigger] after[i]).reviewed.len() > 0
            &&& strictly_sorted(after[i].reviewed)
            &&& forall|j: int| 0 <= j < after[i].reviewed.len() ==> is_canonical_sha(#[trigger] after[i].reviewed[j])
        } by {
            if i != at {
                assert(after[i] == before[i]);
            }
        }
        let expected = if reviewed { marked_pairs(before).insert(pair) } else { marked_pairs(before).remove(pair) };
        assert forall|p: (u64, Seq<char>)| marked_pairs(after).contains(p) <==> expected.contains(p) by {
            if p.0 == pair.0 {
                if marked_pairs(after).contains(p) {
                    let i = choose|i: int| 0 <= i < after.len() && (#[trigger] after[i]).repository_id == p.0 && after[i].reviewed.contains(p.1);
                    if i != at {
                        lemma_ids_distinct(before, i, at);
                    }
                    assert(entry.reviewed.to_set().contains(p.1));
                    if p.1 != pair.1 {
                        assert(before[at].reviewed.contains(p.1));
                        assert(marked_pairs(before).contains(p));
                    }
                }
                if expected.contains(p) {
                    if p.1 != pair.1 {
                        let i = choose|i: int| 0 <= i < before.len() && (#[trigger] before[i]).repository_id == p.0 && before[i].reviewed.contains(p.1);
                        if i != at {
                            lemma_ids_distinct(before, i, at);
                        }
                        assert(before[at].reviewed.to_set().contains(p.1));
                        assert(entry.reviewed.to_set().contains(p.1));
                    } else {
                        assert(entry.reviewed.to_set().contains(p.1));
                    }
                    assert(after[at] == entry);
                }
            } else {
                if marked_pairs(after).contains(p) {
                    let i = choose|i: int| 0 <= i < after.len() && (#[trigger] after[i]).repository_id == p.0 && after[i].reviewed.contains(p.1);
                    assert(before[i] == after[i]);
                }
                if expected.contains(p) {
                    let i = choose|i: int| 0 <= i < before.len() && (#[trigger] before[i]).repository_id == p.0 && before[i].reviewed.contains(p.1);
                    assert(before[i] == after[i]);
                }
            }
        }
        assert(marked_pairs(after) =~= expected);
    }
}

/// Dropping the entry at `at`, whose only SHA was just unmarked, removes exactly that pair.
proof fn lemma_entry_dropped(before: Seq<RepositoryMarksView>, at: int, entry: RepositoryMarksView)
    requires
        entries_well_formed(before),
        0 <= at < before.len(),
        entry.reviewed.len() == 0,
    ensures
        entries_well_formed(before.remove(at)),
        forall|sha: Seq<char>|
            before[at].reviewed.to_set() == set![sha] ==> marked_pairs(before.remove(at)) == marked_pairs(before).remove(
                (before[at].repository_id, sha),
            ),
{
    let after = before.remove(at);
    assert(id_texts(after) =~= id_texts(before).remove(at));
    assert forall|i: int, j: int| 0 <= i < j < id_texts(after).len() implies text_less(id_texts(after)[i], id_texts(after)[j]) by {
        let texts = id_texts(before);
        if i >= at {
            assert(id_texts(after)[i] == texts[i + 1]);
            assert(id_texts(after)[j] == texts[j + 1]);
        } else if j >= at {
            assert(id_texts(after)[j] == texts[j + 1]);
        }
    }
    assert forall|i: int| 0 <= i < after.len() implies {
        &&& (#[trigger] after[i]).reviewed.len() > 0
        &&& strictly_sorted(after[i].reviewed)
        &&& forall|j: int| 0 <= j < after[i].reviewed.len() ==> is_canonical_sha(#[trigger] after[i].reviewed[j])
    } by {
        if i < at {
            assert(after[i] == before[i]);
        } else {
            assert(after[i] == before[i + 1]);
        }
    }
    assert forall|sha: Seq<char>| before[at].reviewed.to_set() == set![sha] implies marked_pairs(after) == marked_pairs(before).remove(
        (before[at].repository_id, sha),
    ) by {
        let pair = (before[at].repository_id, sha);
        assert forall|p: (u64, Seq<char>)| marked_pairs(after).contains(p) <==> marked_pairs(before).remove(pair).contains(p) by {
            if marked_pairs(after).contains(p) {
                let i = choose|i: int| 0 <= i < after.len() && (#[trigger] after[i]).repository_id == p.0 && after[i].reviewed.contains(p.1);
                let k = if i < at { i } else { i + 1 };
                assert(after[i] == before[k]);
                if p.0 == pair.0 {
                    lemma_ids_distinct(before, k, at);
                }
            }
            if marked_pairs(before).remove(pair).contains(p) {
                let k = choose|k: int| 0 <= k < before.len() && (#[trigger] before[k]).repository_id == p.0 && before[k].reviewed.contains(p.1);
                if k == at {
                    assert(before[at].reviewed.to_set().contains(p.1));
                    assert(set![sha].contains(p.1));
                } else {
                    let i = if k < at { k } else { k - 1 };
                    assert(after[i] == before[k]);
                }
            }
        }
        assert(marked_pairs(after) =~= marked_pairs(before).remove(pair));
    }
}

/// Adding the entry of a repository that had none adds exactly its pairs.
proof fn lemma_entry_added(
    before: Seq<RepositoryMarksView>,
    after: Seq<RepositoryMarksView>,
    entry: RepositoryMarksView,
)
    requires
        exists|at: int| 0 <= at <= before.len() && after == #[trigger] before.insert(at, entry),
        entry.reviewed.len() == 1,
    ensures
        marked_pairs(after) == marked_pairs(before).insert((entry.repository_id, entry.reviewed[0])),
{
    let at = choose|at: int| 0 <= at <= before.len() && after == #[trigger] before.insert(at, entry);
    let pair = (entry.repository_id, entry.reviewed[0]);
    assert forall|p: (u64, Seq<char>)| marked_pairs(after).contains(p) <==> marked_pairs(before).insert(pair).contains(p) by {
        if marked_pairs(after).contains(p) {
            let i = choose|i: int| 0 <= i < after.len() && (#[trigger] after[i]).repository_id == p.0 && after[i].reviewed.contains(p.1);
            if i < at {
                assert(after[i] == before[i]);
            } else if i > at {
                assert(after[i] == before[i - 1]);
            } else {
                let j = choose|j: int| 0 <= j < entry.reviewed.len() && entry.reviewed[j] == p.1;
                assert(j == 0);
            }
        }
        if marked_pairs(before).insert(pair).contains(p) {
            if p == pair {
                assert(after[at] == entry);
                assert(entry.reviewed.contains(entry.reviewed[0]));
            } else {
                let k = choose|k: int| 0 <= k < before.len() && (#[trigger] before[k]).repository_id == p.0 && before[k].reviewed.contains(p.1);
                if k < at {
                    assert(after[k] == before[k]);
                } else {
                    assert(after[k + 1] == before[k]);
                }
            }
        }
    }
    assert(marked_pairs(after) =~= marked_pairs(before).insert(pair));
}

} // verus!
