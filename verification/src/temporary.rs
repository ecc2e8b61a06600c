//! Temporary files of atomic writes: how they are named, who owns them, and when one that was left
//! behind may be removed.

use vstd::prelude::*;

use crate::model::Duplicate;
use crate::path;
use crate::path::FilePath;
use crate::path::PathView;
use crate::text;

verus! {

// ---------------------------------------------------------------------------------------------
// Names
// ---------------------------------------------------------------------------------------------

/// What stands between the name of a destination and the identity of a temporary file for it.
pub open spec fn marker() -> Seq<char> {
    seq!['.', 't', 'm', 'p', '.']
}

/// The ending that a temporary file of a process has.
pub open spec fn identity_suffix(pid: u32, nonce: u64) -> Seq<char> {
    marker() + text::decimal_text(pid as nat) + seq!['.'] + text::decimal_text(nonce as nat)
}

/// The path of a temporary file for a destination.
pub open spec fn temporary_of(path: PathView, pid: u32, nonce: u64) -> PathView {
    path::with_suffix(path, identity_suffix(pid, nonce))
}

/// Names a temporary file for a destination, owned by a process.
pub fn temporary_path_with_identity(path: &FilePath, owner_pid: u32, nonce: u64) -> (temporary:
    FilePath)
    ensures
        temporary.deep_view() == temporary_of(path.deep_view(), owner_pid, nonce),
{
    let pid = text::decimal(owner_pid as u128);
    let mut suffix = text::join3(".tmp.", pid.as_str(), ".");
    let number = text::decimal(nonce as u128);
    suffix.append(number.as_str());
    proof {
        reveal_strlit(".tmp.");
        reveal_strlit(".");
        assert(".tmp."@ =~= marker());
        assert("."@ =~= seq!['.']);
    }
    path::append_suffix(path, suffix.as_str())
}

/// The path of the file that names the owner of a temporary file.
pub open spec fn owner_of(temporary: PathView) -> PathView {
    path::with_suffix(temporary, ".owner"@)
}

/// Names the file that names the owner of a temporary file.
pub fn owner_metadata_path(temporary: &FilePath) -> (metadata: FilePath)
    ensures
        metadata.deep_view() == owner_of(temporary.deep_view()),
{
    path::append_suffix(temporary, ".owner")
}

/// What the file that names an owner holds.
pub open spec fn owner_text(pid: u32, nonce: u64) -> Seq<char> {
    text::decimal_text(pid as nat) + ":"@ + text::decimal_text(nonce as nat)
}

/// Writes down the owner of a temporary file.
pub fn owner_metadata(pid: u32, nonce: u64) -> (metadata: String)
    ensures
        metadata@ == owner_text(pid, nonce),
{
    let process = text::decimal(pid as u128);
    let number = text::decimal(nonce as u128);
    text::join3(process.as_str(), ":", number.as_str())
}

/// Mixes a random number with a counter, so that the same process never uses a nonce twice by
/// chance alone.
pub fn temporary_nonce(random: u64, counter: u64) -> (nonce: u64)
    ensures
        nonce == random ^ counter,
{
    random ^ counter
}

/// Under one random number, different counters give different nonces.
pub proof fn counters_separate_nonces(random: u64, first: u64, second: u64)
    requires
        first != second,
    ensures
        random ^ first != random ^ second,
{
    assert(first != second ==> random ^ first != random ^ second) by (bit_vector);
}

/// Whether a pattern occurs at a position.
pub open spec fn occurs_at(text: Seq<char>, pattern: Seq<char>, position: int) -> bool {
    &&& 0 <= position
    &&& position + pattern.len() <= text.len()
    &&& text.subrange(position, position + pattern.len()) == pattern
}

/// The last position at or before `from` at which a pattern occurs, or minus one.
pub open spec fn last_occurrence(text: Seq<char>, pattern: Seq<char>, from: int) -> int
    decreases from + 1,
{
    if from < 0 {
        -1
    } else if occurs_at(text, pattern, from) {
        from
    } else {
        last_occurrence(text, pattern, from - 1)
    }
}

proof fn lemma_last_occurrence(text: Seq<char>, pattern: Seq<char>, from: int, position: int)
    requires
        0 <= position <= from,
        occurs_at(text, pattern, position),
        forall|i: int| position < i <= from ==> !#[trigger] occurs_at(text, pattern, i),
    ensures
        last_occurrence(text, pattern, from) == position,
    decreases from,
{
    if from > position {
        assert(!occurs_at(text, pattern, from));
        lemma_last_occurrence(text, pattern, from - 1, position);
    }
}

/// The two numbers in a text with one dot between them.
pub open spec fn dotted_pair(text: Seq<char>) -> Option<(u32, u64)> {
    let dot = text::find_from(text, '.', 0);
    let first = text.take(dot);
    let second = text.skip(dot + 1);
    if dot >= text.len() || text::find_from(second, '.', 0) < second.len() {
        None
    } else {
        match (
            text::parsed_decimal(first, u32::MAX as nat),
            text::parsed_decimal(second, u64::MAX as nat),
        ) {
            (Some(pid), Some(nonce)) => Some((pid as u32, nonce as u64)),
            _ => None,
        }
    }
}

/// The process and the nonce that the name of a temporary file holds.
pub open spec fn identity_in(name: Seq<char>) -> Option<(u32, u64)> {
    let position = last_occurrence(name, marker(), name.len() as int);
    if position < 0 {
        None
    } else {
        dotted_pair(name.skip(position + 5))
    }
}

/// The process and the nonce that a path names, if it is that of a temporary file.
pub open spec fn identity_of(path: PathView) -> Option<(u32, u64)> {
    match path.file_name {
        Some(name) => identity_in(name),
        None => None,
    }
}

fn occurs(text: &[char], pattern: &[char], position: usize) -> (found: bool)
    requires
        position <= text@.len(),
    ensures
        found == occurs_at(text@, pattern@, position as int),
{
    let length: usize = text.len();
    if pattern.len() > length - position {
        return false;
    }
    let mut index: usize = 0;
    while index < pattern.len()
        invariant
            index <= pattern@.len(),
            length == text@.len(),
            position + pattern@.len() <= length,
            forall|i: int| 0 <= i < index ==> #[trigger] pattern@[i] == text@[position + i],
        decreases pattern.len() - index,
    {
        if pattern[index] != text[position + index] {
            proof {
                let part = text@.subrange(position as int, position + pattern@.len());
                assert(part[index as int] == text@[position + index]);
            }
            return false;
        }
        index += 1;
    }
    proof {
        assert(text@.subrange(position as int, position + pattern@.len()) =~= pattern@);
    }
    true
}

fn find_last(text: &[char], pattern: &[char]) -> (position: Option<usize>)
    ensures
        match position {
            Some(position) => position <= text@.len() && position == last_occurrence(
                text@,
                pattern@,
                text@.len() as int,
            ) && occurs_at(text@, pattern@, position as int),
            None => last_occurrence(text@, pattern@, text@.len() as int) < 0,
        },
{
    let mut position: usize = text.len();
    while position > 0 && !occurs(text, pattern, position)
        invariant
            position <= text@.len(),
            last_occurrence(text@, pattern@, text@.len() as int) == last_occurrence(
                text@,
                pattern@,
                position as int,
            ),
        decreases position,
    {
        position -= 1;
    }
    if occurs(text, pattern, position) {
        Some(position)
    } else {
        proof {
            assert(last_occurrence(text@, pattern@, -1) == -1);
        }
        None
    }
}

fn parse_pair(text: &[char]) -> (pair: Option<(u32, u64)>)
    ensures
        pair == dotted_pair(text@),
{
    let dot: usize = text::find_char(text, '.', 0);
    if dot >= text.len() {
        return None;
    }
    let first = text::slice_chars(text, 0, dot);
    let second = text::slice_chars(text, dot + 1, text.len());
    proof {
        assert(first@ =~= text@.take(dot as int));
        assert(second@ =~= text@.skip(dot + 1));
    }
    if text::find_char(second.as_slice(), '.', 0) < second.len() {
        return None;
    }
    match text::parse_decimal(first.as_slice(), u32::MAX as u64) {
        None => None,
        Some(pid) => match text::parse_decimal(second.as_slice(), u64::MAX) {
            None => None,
            Some(nonce) => Some((pid as u32, nonce)),
        },
    }
}

/// Reads the process and the nonce out of the path of a temporary file.
pub fn temporary_identity(path: &FilePath) -> (identity: Option<(u32, u64)>)
    ensures
        identity == identity_of(path.deep_view()),
{
    let name = match &path.file_name {
        Some(name) => name,
        None => {
            return None;
        },
    };
    let chars = text::to_chars(name.as_str());
    let pattern: Vec<char> = text::to_chars(".tmp.");
    proof {
        reveal_strlit(".tmp.");
        assert(pattern@ =~= marker());
    }
    match find_last(chars.as_slice(), pattern.as_slice()) {
        None => None,
        Some(position) => {
            let length: usize = chars.len();
            proof {
                assert(position + pattern@.len() <= length);
            }
            let suffix = text::slice_chars(chars.as_slice(), position + 5, length);
            proof {
                assert(suffix@ =~= chars@.skip(position + 5));
            }
            parse_pair(suffix.as_slice())
        },
    }
}

/// Whether a path is that of a temporary file.
pub fn is_temporary_path(path: &FilePath) -> (is: bool)
    ensures
        is == (identity_of(path.deep_view()) is Some),
{
    temporary_identity(path).is_some()
}

/// The path of the temporary file whose owner a file names, if it has such a name.
pub open spec fn orphan_of(metadata: PathView) -> Option<PathView> {
    match metadata.file_name {
        None => None,
        Some(name) => {
            let ending = ".owner"@;
            if !ending.is_suffix_of(name) {
                None
            } else {
                let temporary = path::sibling(metadata, name.take(name.len() - ending.len()));
                if identity_of(temporary) is Some {
                    Some(temporary)
                } else {
                    None
                }
            }
        },
    }
}

/// Finds the path of the temporary file whose owner a file names.
pub fn orphan_temporary_path(owner_metadata: &FilePath) -> (temporary: Option<FilePath>)
    ensures
        temporary.deep_view() == orphan_of(owner_metadata.deep_view()),
{
    let name = match &owner_metadata.file_name {
        Some(name) => name,
        None => {
            return None;
        },
    };
    let chars = text::to_chars(name.as_str());
    let ending = text::to_chars(".owner");
    if chars.len() < ending.len() {
        return None;
    }
    let start: usize = chars.len() - ending.len();
    let tail = text::slice_chars(chars.as_slice(), start, chars.len());
    let tail_text = text::from_chars(tail.as_slice());
    if !text::same_text(tail_text.as_str(), ".owner") {
        return None;
    }
    let head = text::slice_chars(chars.as_slice(), 0, start);
    proof {
        assert(head@ =~= name@.take(name@.len() - ".owner"@.len()));
    }
    let temporary = FilePath {
        directory: owner_metadata.directory.clone(),
        file_name: Some(text::from_chars(head.as_slice())),
    };
    if temporary_identity(&temporary).is_some() {
        Some(temporary)
    } else {
        None
    }
}

proof fn lemma_no_dot_in_digits(digits: Seq<char>)
    requires
        text::all_digits(digits),
    ensures
        text::find_from(digits, '.', 0) == digits.len(),
{
    text::lemma_find_from(digits, '.', 0);
    let found = text::find_from(digits, '.', 0);
    if found < digits.len() {
        assert(text::is_digit(digits[found]));
    }
}

proof fn lemma_pair_round_trip(pid: u32, nonce: u64)
    ensures
        dotted_pair(
            text::decimal_text(pid as nat) + seq!['.'] + text::decimal_text(nonce as nat),
        ) == Some((pid, nonce)),
{
    let first = text::decimal_text(pid as nat);
    let second = text::decimal_text(nonce as nat);
    let whole = first + seq!['.'] + second;
    text::lemma_decimal_value(pid as nat);
    text::lemma_decimal_value(nonce as nat);
    text::decimal_round_trip(pid as nat, u32::MAX as nat);
    text::decimal_round_trip(nonce as nat, u64::MAX as nat);
    text::lemma_find_from(whole, '.', 0);
    let dot = text::find_from(whole, '.', 0);
    assert(whole[first.len() as int] == '.');
    assert(dot <= first.len());
    if dot < first.len() {
        assert(whole[dot] == first[dot]);
        assert(text::is_digit(first[dot]));
    }
    assert(whole.take(dot) =~= first);
    assert(whole.skip(dot + 1) =~= second);
    lemma_no_dot_in_digits(second);
}

/// The identity of a temporary file can be read back from its path, whatever the name of the
/// destination is, also if that name itself looks like that of a temporary file.
pub proof fn identities_are_read_back(path: PathView, pid: u32, nonce: u64)
    ensures
        identity_of(temporary_of(path, pid, nonce)) == Some((pid, nonce)),
{
    let name = path::name_or_empty(path);
    let first = text::decimal_text(pid as nat);
    let second = text::decimal_text(nonce as nat);
    let suffix = identity_suffix(pid, nonce);
    let whole = name + suffix;
    let start = name.len() as int;
    text::lemma_decimal_value(pid as nat);
    text::lemma_decimal_value(nonce as nat);
    assert(whole.subrange(start, start + 5) =~= marker());
    assert forall|i: int| start < i <= whole.len() implies !#[trigger] occurs_at(
        whole,
        marker(),
        i,
    ) by {
        if i + 5 <= whole.len() {
            let part = whole.subrange(i, i + 5);
            assert(part[1] == whole[i + 1]);
            assert(marker()[1] == 't');
            let k = i + 1 - start;
            assert(whole[i + 1] == suffix[k]);
            if k < 5 {
                assert(suffix[k] == marker()[k]);
            } else if k < 5 + first.len() {
                assert(suffix[k] == first[k - 5]);
                assert(text::is_digit(first[k - 5]));
            } else if k == 5 + first.len() {
                assert(suffix[k] == '.');
            } else {
                assert(suffix[k] == second[k - 6 - first.len()]);
                assert(text::is_digit(second[k - 6 - first.len()]));
            }
        }
    }
    lemma_last_occurrence(whole, marker(), whole.len() as int, start);
    assert(whole.skip(start + 5) =~= first + seq!['.'] + second);
    lemma_pair_round_trip(pid, nonce);
}

/// The temporary file whose owner is named can be read back from the path of the file that names
/// it.
pub proof fn owners_are_read_back(path: PathView, pid: u32, nonce: u64)
    ensures
        orphan_of(owner_of(temporary_of(path, pid, nonce))) == Some(
            temporary_of(path, pid, nonce),
        ),
{
    let temporary = temporary_of(path, pid, nonce);
    let name = temporary.file_name->0;
    let ending = ".owner"@;
    let whole = name + ending;
    assert(whole.subrange(whole.len() - ending.len(), whole.len() as int) =~= ending);
    assert(whole.take(whole.len() - ending.len()) =~= name);
    identities_are_read_back(path, pid, nonce);
}

/// Temporary files of different identities have different paths.
pub proof fn temporary_names_are_distinct(
    path: PathView,
    pid: u32,
    nonce: u64,
    other_pid: u32,
    other_nonce: u64,
)
    requires
        (pid, nonce) != (other_pid, other_nonce),
    ensures
        temporary_of(path, pid, nonce) != temporary_of(path, other_pid, other_nonce),
{
    identities_are_read_back(path, pid, nonce);
    identities_are_read_back(path, other_pid, other_nonce);
}

/// A path with a longer name is another path.
pub proof fn lemma_suffix_changes_path(path: PathView, suffix: Seq<char>)
    requires
        suffix.len() > 0,
    ensures
        path::with_suffix(path, suffix) != path,
{
    let longer = path::with_suffix(path, suffix);
    match path.file_name {
        Some(name) => {
            assert(longer.file_name->0.len() == name.len() + suffix.len());
        },
        None => {},
    }
}

// ---------------------------------------------------------------------------------------------
// Files that were left behind
// ---------------------------------------------------------------------------------------------

/// What is known of one entry of a directory. What is not known has not been asked for.
#[derive(Clone, Debug, PartialEq, Eq)]
pub struct EntryFacts {
    /// Whether it is a regular file.
    pub is_file: Option<bool>,
    /// For a file that names an owner: whether the temporary file is there.
    pub temporary_exists: Option<bool>,
    /// Whether the owner has ended.
    pub owner_dead: Option<bool>,
    /// How many seconds ago the entry was modified.
    pub age: Option<u64>,
    /// What the file that names the owner holds, if it can be read.
    pub owner: Option<Option<String>>,
}

/// Nothing is known.
pub open spec fn no_facts() -> EntryFacts {
    EntryFacts {
        is_file: None,
        temporary_exists: None,
        owner_dead: None,
        age: None,
        owner: None,
    }
}

/// What is to be done about one entry of a directory.
#[derive(Clone, Debug, PartialEq, Eq)]
pub enum EntryQuery {
    /// Find out whether it is a regular file.
    IsFile,
    /// Find out whether a path exists.
    Exists { path: FilePath },
    /// Find out whether a process has ended.
    OwnerDead { pid: u32 },
    /// Find out how long ago it was modified.
    Age,
    /// Read the file that names the owner.
    ReadOwner { path: FilePath },
    /// Remove it.
    Remove,
    /// Leave it alone.
    Skip,
}

/// The deep view of an [`EntryQuery`].
#[verifier::ext_equal]
pub enum EntryQueryView {
    IsFile,
    Exists { path: PathView },
    OwnerDead { pid: u32 },
    Age,
    ReadOwner { path: PathView },
    Remove,
    Skip,
}

impl DeepView for EntryQuery {
    type V = EntryQueryView;

    open spec fn deep_view(&self) -> EntryQueryView {
        match self {
            EntryQuery::IsFile => EntryQueryView::IsFile,
            EntryQuery::Exists { path } => EntryQueryView::Exists { path: path.deep_view() },
            EntryQuery::OwnerDead { pid } => EntryQueryView::OwnerDead { pid: *pid },
            EntryQuery::Age => EntryQueryView::Age,
            EntryQuery::ReadOwner { path } => EntryQueryView::ReadOwner {
                path: path.deep_view(),
            },
            EntryQuery::Remove => EntryQueryView::Remove,
            EntryQuery::Skip => EntryQueryView::Skip,
        }
    }
}

/// What makes an entry stale: who looks, and how old the entry has to be.
#[derive(Clone, Copy, Debug, PartialEq, Eq, Structural)]
pub struct StaleRule {
    pub current_pid: u32,
    pub minimum_age_seconds: u64,
}

/// Whether a file that names an owner names this one.
pub open spec fn names_owner(owner: Option<String>, pid: u32, nonce: u64) -> bool {
    owner is Some && text::trimmed(owner->0@) == owner_text(pid, nonce)
}

/// What is to be done about an entry that belongs to a process under a nonce.
pub open spec fn ownership_query(
    metadata: PathView,
    pid: u32,
    nonce: u64,
    facts: EntryFacts,
    rule: StaleRule,
) -> EntryQueryView {
    if pid == rule.current_pid || facts.owner_dead == Some(false) {
        EntryQueryView::Skip
    } else if facts.owner_dead is None {
        EntryQueryView::OwnerDead { pid }
    } else if facts.age is None {
        EntryQueryView::Age
    } else if facts.age->0 < rule.minimum_age_seconds {
        EntryQueryView::Skip
    } else if facts.owner is None {
        EntryQueryView::ReadOwner { path: metadata }
    } else if names_owner(facts.owner->0, pid, nonce) {
        EntryQueryView::Remove
    } else {
        EntryQueryView::Skip
    }
}

/// What is to be done about an entry that may be a file that names an owner.
pub open spec fn sidecar_query(path: PathView, facts: EntryFacts, rule: StaleRule) -> EntryQueryView {
    if facts.is_file is None {
        EntryQueryView::IsFile
    } else if facts.is_file == Some(false) || orphan_of(path) is None {
        EntryQueryView::Skip
    } else if facts.temporary_exists is None {
        EntryQueryView::Exists { path: orphan_of(path)->0 }
    } else if facts.temporary_exists == Some(true) {
        EntryQueryView::Skip
    } else {
        let identity = identity_of(orphan_of(path)->0)->0;
        ownership_query(path, identity.0, identity.1, facts, rule)
    }
}

/// What is to be done about an entry that may be a temporary file.
pub open spec fn temporary_query(path: PathView, facts: EntryFacts, rule: StaleRule) -> EntryQueryView {
    if identity_of(path) is None || facts.is_file == Some(false) {
        EntryQueryView::Skip
    } else if facts.is_file is None {
        EntryQueryView::IsFile
    } else {
        let identity = identity_of(path)->0;
        ownership_query(owner_of(path), identity.0, identity.1, facts, rule)
    }
}

fn query_ownership(
    metadata: &FilePath,
    pid: u32,
    nonce: u64,
    facts: &EntryFacts,
    rule: StaleRule,
) -> (query: EntryQuery)
    ensures
        query.deep_view() == ownership_query(metadata.deep_view(), pid, nonce, *facts, rule),
{
    if pid == rule.current_pid {
        return EntryQuery::Skip;
    }
    match facts.owner_dead {
        None => {
            return EntryQuery::OwnerDead { pid };
        },
        Some(dead) => if !dead {
            return EntryQuery::Skip;
        },
    }
    match facts.age {
        None => {
            return EntryQuery::Age;
        },
        Some(age) => if age < rule.minimum_age_seconds {
            return EntryQuery::Skip;
        },
    }
    match &facts.owner {
        None => EntryQuery::ReadOwner { path: metadata.duplicate() },
        Some(None) => EntryQuery::Skip,
        Some(Some(owner)) => {
            let chars = text::to_chars(owner.as_str());
            let trimmed = text::trim(chars.as_slice());
            let found = text::from_chars(trimmed.as_slice());
            let expected = owner_metadata(pid, nonce);
            if found == expected {
                EntryQuery::Remove
            } else {
                EntryQuery::Skip
            }
        },
    }
}

/// Decides what is to be done about an entry that may be a file that names an owner.
pub fn query_sidecar(path: &FilePath, facts: &EntryFacts, rule: StaleRule) -> (query: EntryQuery)
    ensures
        query.deep_view() == sidecar_query(path.deep_view(), *facts, rule),
{
    match facts.is_file {
        None => {
            return EntryQuery::IsFile;
        },
        Some(is_file) => if !is_file {
            return EntryQuery::Skip;
        },
    }
    let temporary = match orphan_temporary_path(path) {
        Some(temporary) => temporary,
        None => {
            return EntryQuery::Skip;
        },
    };
    match facts.temporary_exists {
        None => {
            return EntryQuery::Exists { path: temporary };
        },
        Some(exists) => if exists {
            return EntryQuery::Skip;
        },
    }
    match temporary_identity(&temporary) {
        None => EntryQuery::Skip,
        Some((pid, nonce)) => query_ownership(path, pid, nonce, facts, rule),
    }
}

/// Decides what is to be done about an entry that may be a temporary file.
pub fn query_temporary(path: &FilePath, facts: &EntryFacts, rule: StaleRule) -> (query:
    EntryQuery)
    ensures
        query.deep_view() == temporary_query(path.deep_view(), *facts, rule),
{
    match temporary_identity(path) {
        None => EntryQuery::Skip,
        Some((pid, nonce)) => match facts.is_file {
            None => EntryQuery::IsFile,
            Some(is_file) => if !is_file {
                EntryQuery::Skip
            } else {
                let metadata = owner_metadata_path(path);
                query_ownership(&metadata, pid, nonce, facts, rule)
            },
        },
    }
}

/// A temporary file is removed only if it is a regular file whose name holds the identity of
/// another process, that process has ended, the file is old enough, and its owner is named as its
/// name says.
pub proof fn removal_is_conservative(path: PathView, facts: EntryFacts, rule: StaleRule)
    requires
        temporary_query(path, facts, rule) is Remove,
    ensures
        identity_of(path) is Some,
        facts.is_file == Some(true),
        facts.owner_dead == Some(true),
        facts.age is Some,
        facts.age->0 >= rule.minimum_age_seconds,
        facts.owner is Some,
        ({
            let identity = identity_of(path)->0;
            &&& identity.0 != rule.current_pid
            &&& names_owner(facts.owner->0, identity.0, identity.1)
        }),
{
}

/// A file that names an owner is removed only if the temporary file is not there, and under the
/// conditions under which that file would be removed.
pub proof fn orphan_removal_is_conservative(path: PathView, facts: EntryFacts, rule: StaleRule)
    requires
        sidecar_query(path, facts, rule) is Remove,
    ensures
        facts.is_file == Some(true),
        facts.temporary_exists == Some(false),
        orphan_of(path) is Some,
        facts.owner_dead == Some(true),
        facts.age is Some,
        facts.age->0 >= rule.minimum_age_seconds,
        facts.owner is Some,
        ({
            let identity = identity_of(orphan_of(path)->0)->0;
            &&& identity.0 != rule.current_pid
            &&& names_owner(facts.owner->0, identity.0, identity.1)
        }),
{
}

/// A temporary file of a process that has ended is removed once it is old enough, given that its
/// owner was written down when it was made.
pub proof fn stale_temporaries_are_removed(
    path: PathView,
    pid: u32,
    nonce: u64,
    owner: String,
    age: u64,
    rule: StaleRule,
)
    requires
        pid != rule.current_pid,
        age >= rule.minimum_age_seconds,
        text::trimmed(owner@) == owner_text(pid, nonce),
    ensures
        temporary_query(
            temporary_of(path, pid, nonce),
            (EntryFacts {
                is_file: Some(true),
                temporary_exists: None,
                owner_dead: Some(true),
                age: Some(age),
                owner: Some(Some(owner)),
            }),
            rule,
        ) is Remove,
{
    identities_are_read_back(path, pid, nonce);
}

// ---------------------------------------------------------------------------------------------
// The scan of a directory
// ---------------------------------------------------------------------------------------------

/// What a scan looks for.
#[derive(Clone, Copy, Debug, PartialEq, Eq, Structural)]
pub enum ScanPass {
    /// Files that name the owner of a temporary file that is gone.
    Sidecars,
    /// Temporary files.
    Temporaries,
    /// Nothing any more.
    Finished,
    /// Nothing any more, since something failed.
    Failed,
}

/// Where a scan stands.
#[derive(Clone, Debug, PartialEq, Eq)]
pub struct ScanState {
    pub pass: ScanPass,
    /// The entry that is looked at.
    pub index: usize,
    pub facts: EntryFacts,
    /// Whether the entry has been removed and only the file that names its owner is left.
    pub sidecar_left: bool,
    /// How many entries have been removed.
    pub removed: usize,
}

/// A scan of a directory for files that were left behind.
#[derive(Clone, Debug, PartialEq, Eq)]
pub struct StaleScan {
    pub entries: Vec<FilePath>,
    pub rule: StaleRule,
    pub state: ScanState,
}

/// What a scan asks for.
#[derive(Clone, Debug, PartialEq, Eq)]
pub enum ScanQuery {
    /// Something about the entry at an index.
    Entry { index: usize, query: EntryQuery },
    /// Remove the file that names the owner of the entry that was removed.
    RemoveSidecar { path: FilePath },
    /// Nothing; this many entries were removed.
    Done { removed: usize },
    /// Nothing; something failed.
    Stop,
}

/// The deep view of a [`ScanQuery`].
#[verifier::ext_equal]
pub enum ScanQueryView {
    Entry { index: usize, query: EntryQueryView },
    RemoveSidecar { path: PathView },
    Done { removed: usize },
    Stop,
}

impl DeepView for ScanQuery {
    type V = ScanQueryView;

    open spec fn deep_view(&self) -> ScanQueryView {
        match self {
            ScanQuery::Entry { index, query } => ScanQueryView::Entry {
                index: *index,
                query: query.deep_view(),
            },
            ScanQuery::RemoveSidecar { path } => ScanQueryView::RemoveSidecar {
                path: path.deep_view(),
            },
            ScanQuery::Done { removed } => ScanQueryView::Done { removed: *removed },
            ScanQuery::Stop => ScanQueryView::Stop,
        }
    }
}

/// What came of a query.
#[derive(Clone, Debug, PartialEq, Eq)]
pub enum ScanAnswer {
    /// It is so, or it is not.
    Is { yes: bool },
    /// The entry was modified this many seconds ago.
    Age { seconds: u64 },
    /// What the file that names the owner holds, if it can be read.
    Owner { text: Option<String> },
    /// It was removed.
    Removed,
    /// It was not there.
    Missing,
    /// The entry is left alone.
    Next,
    /// The query failed.
    Failed,
}

/// What a scan asks about the entry that it looks at.
pub open spec fn entry_query(path: PathView, state: ScanState, rule: StaleRule) -> EntryQueryView {
    if state.pass == ScanPass::Sidecars {
        sidecar_query(path, state.facts, rule)
    } else {
        temporary_query(path, state.facts, rule)
    }
}

/// What a scan asks for.
pub open spec fn scan_query(scan: StaleScan) -> ScanQueryView {
    let path = scan.entries.deep_view()[scan.state.index as int];
    match scan.state.pass {
        ScanPass::Finished => ScanQueryView::Done { removed: scan.state.removed },
        ScanPass::Failed => ScanQueryView::Stop,
        _ => if scan.state.sidecar_left {
            ScanQueryView::RemoveSidecar { path: owner_of(path) }
        } else {
            ScanQueryView::Entry {
                index: scan.state.index,
                query: entry_query(path, scan.state, scan.rule),
            }
        },
    }
}

/// Whether a scan looks at an entry while it goes on.
pub open spec fn scanning(scan: StaleScan) -> bool {
    match scan.state.pass {
        ScanPass::Sidecars => scan.state.index < scan.entries@.len() && !scan.state.sidecar_left,
        ScanPass::Temporaries => scan.state.index < scan.entries@.len(),
        _ => true,
    }
}

/// The beginning of a pass: it is over at once if there are no entries.
pub open spec fn pass_begun(pass: ScanPass, count: nat, removed: usize) -> ScanState {
    ScanState {
        pass: if count > 0 {
            pass
        } else {
            ScanPass::Finished
        },
        index: 0,
        facts: no_facts(),
        sidecar_left: false,
        removed,
    }
}

/// The state of a scan that goes on with the next entry, after this many have been removed.
pub open spec fn next_entry(state: ScanState, count: nat, removed: usize) -> ScanState {
    if state.index + 1 < count {
        ScanState {
            index: (state.index + 1) as usize,
            facts: no_facts(),
            sidecar_left: false,
            removed,
            ..state
        }
    } else if state.pass == ScanPass::Sidecars {
        pass_begun(ScanPass::Temporaries, count, removed)
    } else {
        pass_begun(ScanPass::Finished, count, removed)
    }
}

/// The state of a scan that failed.
pub open spec fn scan_failed(state: ScanState) -> ScanState {
    ScanState { pass: ScanPass::Failed, ..state }
}

/// The state of a scan after a query about an entry has been answered. An answer that does not
/// belong to the query is a failure.
pub open spec fn entry_answered(
    state: ScanState,
    count: nat,
    query: EntryQueryView,
    answer: ScanAnswer,
) -> ScanState {
    match (query, answer) {
        (EntryQueryView::IsFile, ScanAnswer::Is { yes }) => ScanState {
            facts: EntryFacts { is_file: Some(yes), ..state.facts },
            ..state
        },
        (EntryQueryView::IsFile, ScanAnswer::Missing) => if state.pass == ScanPass::Temporaries {
            next_entry(state, count, state.removed)
        } else {
            scan_failed(state)
        },
        (EntryQueryView::Exists { .. }, ScanAnswer::Is { yes }) => ScanState {
            facts: EntryFacts { temporary_exists: Some(yes), ..state.facts },
            ..state
        },
        (EntryQueryView::OwnerDead { .. }, ScanAnswer::Is { yes }) => ScanState {
            facts: EntryFacts { owner_dead: Some(yes), ..state.facts },
            ..state
        },
        (EntryQueryView::Age, ScanAnswer::Age { seconds }) => ScanState {
            facts: EntryFacts { age: Some(seconds), ..state.facts },
            ..state
        },
        (EntryQueryView::ReadOwner { .. }, ScanAnswer::Owner { text }) => ScanState {
            facts: EntryFacts { owner: Some(text), ..state.facts },
            ..state
        },
        (EntryQueryView::Remove, ScanAnswer::Removed) => if state.pass == ScanPass::Temporaries {
            ScanState { sidecar_left: true, ..state }
        } else {
            next_entry(state, count, (state.removed + 1) as usize)
        },
        (EntryQueryView::Skip, ScanAnswer::Next) => next_entry(state, count, state.removed),
        _ => scan_failed(state),
    }
}

/// The state of a scan after its query has been answered.
pub open spec fn scan_answered(scan: StaleScan, answer: ScanAnswer) -> ScanState {
    let count = scan.entries@.len();
    match scan_query(scan) {
        ScanQueryView::Done { .. } => scan.state,
        ScanQueryView::Stop => scan.state,
        ScanQueryView::RemoveSidecar { .. } => match answer {
            ScanAnswer::Removed => next_entry(scan.state, count, (scan.state.removed + 1) as usize),
            ScanAnswer::Missing => next_entry(scan.state, count, (scan.state.removed + 1) as usize),
            _ => scan_failed(scan.state),
        },
        ScanQueryView::Entry { query, .. } => entry_answered(scan.state, count, query, answer),
    }
}

fn unknown() -> (facts: EntryFacts)
    ensures
        facts == no_facts(),
{
    EntryFacts { is_file: None, temporary_exists: None, owner_dead: None, age: None, owner: None }
}

/// Begins to scan the entries of a directory.
pub fn recover_stale_temporary_files(
    entries: Vec<FilePath>,
    current_pid: u32,
    minimum_age_seconds: u64,
) -> (scan: StaleScan)
    ensures
        scanning(scan),
        scan.entries == entries,
        scan.rule == (StaleRule { current_pid, minimum_age_seconds }),
        scan.state == pass_begun(ScanPass::Sidecars, entries@.len(), 0),
{
    let pass = if entries.len() > 0 {
        ScanPass::Sidecars
    } else {
        ScanPass::Finished
    };
    StaleScan {
        entries,
        rule: StaleRule { current_pid, minimum_age_seconds },
        state: ScanState { pass, index: 0, facts: unknown(), sidecar_left: false, removed: 0 },
    }
}

impl StaleScan {
    /// Tells what the scan needs next.
    pub fn query(&self) -> (query: ScanQuery)
        requires
            scanning(*self),
        ensures
            query.deep_view() == scan_query(*self),
    {
        match self.state.pass {
            ScanPass::Finished => ScanQuery::Done { removed: self.state.removed },
            ScanPass::Failed => ScanQuery::Stop,
            ScanPass::Sidecars => {
                let index: usize = self.state.index;
                ScanQuery::Entry {
                    index,
                    query: query_sidecar(&self.entries[index], &self.state.facts, self.rule),
                }
            },
            ScanPass::Temporaries => {
                let index: usize = self.state.index;
                if self.state.sidecar_left {
                    ScanQuery::RemoveSidecar { path: owner_metadata_path(&self.entries[index]) }
                } else {
                    ScanQuery::Entry {
                        index,
                        query: query_temporary(&self.entries[index], &self.state.facts, self.rule),
                    }
                }
            },
        }
    }

    fn advance(&mut self, removed: usize)
        requires
            scanning(*old(self)),
            old(self).state.pass == ScanPass::Sidecars || old(self).state.pass
                == ScanPass::Temporaries,
        ensures
            scanning(*final(self)),
            final(self).entries == old(self).entries,
            final(self).rule == old(self).rule,
            final(self).state == next_entry(old(self).state, old(self).entries@.len(), removed),
    {
        self.state.facts = unknown();
        self.state.sidecar_left = false;
        self.state.removed = removed;
        let index: usize = self.state.index;
        let count: usize = self.entries.len();
        if index < count - 1 {
            self.state.index = index + 1;
        } else {
            self.state.index = 0;
            self.state.pass =
            if self.state.pass == ScanPass::Sidecars {
                ScanPass::Temporaries
            } else {
                ScanPass::Finished
            };
        }
    }

    /// Takes what came of the query.
    pub fn answer(&mut self, answer: ScanAnswer)
        requires
            scanning(*old(self)),
            old(self).state.removed < usize::MAX,
        ensures
            scanning(*final(self)),
            final(self).entries == old(self).entries,
            final(self).rule == old(self).rule,
            final(self).state == scan_answered(*old(self), answer),
    {
        let removed: usize = self.state.removed;
        let query = match self.query() {
            ScanQuery::Done { .. } => {
                return ;
            },
            ScanQuery::Stop => {
                return ;
            },
            ScanQuery::RemoveSidecar { .. } => {
                match answer {
                    ScanAnswer::Removed => self.advance(removed + 1),
                    ScanAnswer::Missing => self.advance(removed + 1),
                    _ => {
                        self.state.pass = ScanPass::Failed;
                    },
                }
                return ;
            },
            ScanQuery::Entry { index: _, query } => query,
        };
        match (query, answer) {
            (EntryQuery::IsFile, ScanAnswer::Is { yes }) => {
                self.state.facts.is_file = Some(yes);
            },
            (EntryQuery::IsFile, ScanAnswer::Missing) => {
                if self.state.pass == ScanPass::Temporaries {
                    self.advance(removed);
                } else {
                    self.state.pass = ScanPass::Failed;
                }
            },
            (EntryQuery::Exists { .. }, ScanAnswer::Is { yes }) => {
                self.state.facts.temporary_exists = Some(yes);
            },
            (EntryQuery::OwnerDead { .. }, ScanAnswer::Is { yes }) => {
                self.state.facts.owner_dead = Some(yes);
            },
            (EntryQuery::Age, ScanAnswer::Age { seconds }) => {
                self.state.facts.age = Some(seconds);
            },
            (EntryQuery::ReadOwner { .. }, ScanAnswer::Owner { text }) => {
                self.state.facts.owner = Some(text);
            },
            (EntryQuery::Remove, ScanAnswer::Removed) => {
                if self.state.pass == ScanPass::Temporaries {
                    self.state.sidecar_left = true;
                } else {
                    self.advance(removed + 1);
                }
            },
            (EntryQuery::Skip, ScanAnswer::Next) => self.advance(removed),
            _ => {
                self.state.pass = ScanPass::Failed;
            },
        }
    }
}

/// How many questions a scan may still ask about an entry of which some facts are known.
pub open spec fn open_questions(facts: EntryFacts) -> nat {
    (if facts.is_file is None { 1nat } else { 0 }) + (if facts.temporary_exists is None {
        1nat
    } else {
        0
    }) + (if facts.owner_dead is None { 1nat } else { 0 }) + (if facts.age is None {
        1nat
    } else {
        0
    }) + (if facts.owner is None { 1nat } else { 0 })
}

/// Every answer brings a scan closer to its end: it goes on to a later entry or pass, or it knows
/// more about the entry that it looks at, or it has begun to remove it.
pub proof fn scans_make_progress(scan: StaleScan, answer: ScanAnswer)
    requires
        scanning(scan),
        scan.entries@.len() <= usize::MAX,
        scan.state.pass == ScanPass::Sidecars || scan.state.pass == ScanPass::Temporaries,
    ensures
        ({
            let next = scan_answered(scan, answer);
            ||| next.pass != scan.state.pass
            ||| next.index == scan.state.index + 1
            ||| next.index == scan.state.index && open_questions(next.facts) < open_questions(
                scan.state.facts,
            )
            ||| next.index == scan.state.index && next.sidecar_left && !scan.state.sidecar_left
        }),
{
    let path = scan.entries.deep_view()[scan.state.index as int];
    let count = scan.entries@.len();
    if !scan.state.sidecar_left {
        let query = entry_query(path, scan.state, scan.rule);
        assert(scan_answered(scan, answer) == entry_answered(scan.state, count, query, answer));
        match query {
            EntryQueryView::IsFile => {
                assert(scan.state.facts.is_file is None);
            },
            EntryQueryView::Exists { .. } => {
                assert(scan.state.facts.temporary_exists is None);
            },
            EntryQueryView::OwnerDead { .. } => {
                assert(scan.state.facts.owner_dead is None);
            },
            EntryQueryView::Age => {
                assert(scan.state.facts.age is None);
            },
            EntryQueryView::ReadOwner { .. } => {
                assert(scan.state.facts.owner is None);
            },
            EntryQueryView::Remove => {},
            EntryQueryView::Skip => {},
        }
    }
}

/// Questions about a temporary file are about that file and the process that its name tells of, and
/// its owner is read from the file beside it.
pub proof fn questions_are_about_the_entry(path: PathView, facts: EntryFacts, rule: StaleRule)
    ensures
        match temporary_query(path, facts, rule) {
            EntryQueryView::OwnerDead { pid } => identity_of(path) is Some && pid
                == identity_of(path)->Some_0.0 && pid != rule.current_pid,
            EntryQueryView::ReadOwner { path: asked } => asked == owner_of(path),
            EntryQueryView::Exists { .. } => false,
            _ => true,
        },
        match sidecar_query(path, facts, rule) {
            EntryQueryView::OwnerDead { pid } => orphan_of(path) is Some && pid == identity_of(
                orphan_of(path)->Some_0,
            )->Some_0.0 && pid != rule.current_pid,
            EntryQueryView::ReadOwner { path: asked } => asked == path,
            EntryQueryView::Exists { path: asked } => Some(asked) == orphan_of(path),
            _ => true,
        },
{
}

/// Whether everything is known that speaks for removing a file of a process.
pub open spec fn abandoned(pid: u32, nonce: u64, facts: EntryFacts, rule: StaleRule) -> bool {
    &&& facts.is_file == Some(true)
    &&& pid != rule.current_pid
    &&& facts.owner_dead == Some(true)
    &&& facts.age is Some
    &&& facts.age->0 >= rule.minimum_age_seconds
    &&& facts.owner is Some
    &&& facts.owner->0 is Some
    &&& text::trimmed(facts.owner->0->0@) == owner_text(pid, nonce)
}

/// A temporary file is removed exactly if it is abandoned, and a file that names an owner exactly if
/// it is abandoned and what it belongs to is gone. A file that is in use, that is young, or that
/// cannot be told from one that is in use, is left.
pub proof fn only_abandoned_files_are_removed(path: PathView, facts: EntryFacts, rule: StaleRule)
    ensures
        identity_of(path) is Some ==> (temporary_query(path, facts, rule) is Remove <==> {
            let (pid, nonce) = identity_of(path)->0;
            abandoned(pid, nonce, facts, rule)
        }),
        identity_of(path) is None ==> temporary_query(path, facts, rule) is Skip,
        orphan_of(path) is Some ==> (sidecar_query(path, facts, rule) is Remove <==> {
            let (pid, nonce) = identity_of(orphan_of(path)->0)->0;
            facts.temporary_exists == Some(false) && abandoned(pid, nonce, facts, rule)
        }),
        orphan_of(path) is None ==> !(sidecar_query(path, facts, rule) is Remove),
        facts.owner_dead == Some(false) ==> !(temporary_query(path, facts, rule) is Remove),
        facts.is_file == Some(false) ==> temporary_query(path, facts, rule) is Skip
            && sidecar_query(path, facts, rule) is Skip,
        facts.temporary_exists == Some(true) ==> !(sidecar_query(path, facts, rule) is Remove),
{
    assert(facts.owner_dead is Some ==> facts.owner_dead == Some(true) || facts.owner_dead == Some(
        false,
    ));
    assert(facts.is_file is Some ==> facts.is_file == Some(true) || facts.is_file == Some(false));
    assert(facts.temporary_exists is Some ==> facts.temporary_exists == Some(true)
        || facts.temporary_exists == Some(false));
}

/// A scan counts what it removes: a temporary file once the file beside it is gone too, and a file
/// that names an owner at once; nothing else is counted.
pub proof fn scans_count_what_they_remove(scan: StaleScan, answer: ScanAnswer)
    requires
        scanning(scan),
        scan.entries@.len() <= usize::MAX,
        scan.state.removed < usize::MAX,
    ensures
        ({
            let next = scan_answered(scan, answer);
            let query = scan_query(scan);
            let gone = (query is RemoveSidecar && (answer is Removed || answer is Missing)) || (
            query is Entry && query->query is Remove && answer is Removed && scan.state.pass
                == ScanPass::Sidecars);
            &&& next.removed == if gone {
                scan.state.removed + 1
            } else {
                scan.state.removed as int
            }
            &&& query is Entry && query->query is Remove && answer is Removed && scan.state.pass
                == ScanPass::Temporaries ==> {
                let after = StaleScan { state: next, ..scan };
                &&& next.index == scan.state.index
                &&& scan_query(after) == (ScanQueryView::RemoveSidecar {
                    path: owner_of(scan.entries.deep_view()[scan.state.index as int]),
                })
            }
            &&& gone ==> next.index != scan.state.index || next.pass != scan.state.pass
        }),
{
}

/// A scan goes through the entries twice, first for files that name an owner and then for temporary
/// files, one after the other, and knows nothing of an entry when it comes to it. A question that
/// fails ends it; only a temporary file that is gone meanwhile is passed over.
pub proof fn scans_go_through_the_entries_twice(scan: StaleScan, answer: ScanAnswer)
    requires
        scanning(scan),
        scan.entries@.len() <= usize::MAX,
    ensures
        ({
            let count = scan.entries@.len();
            let next = scan_answered(scan, answer);
            let passing = next.index != scan.state.index || next.pass != scan.state.pass;
            &&& scan.state.pass == ScanPass::Finished || scan.state.pass == ScanPass::Failed
                ==> next == scan.state
            &&& passing && next.pass == scan.state.pass ==> next.index == scan.state.index + 1
            &&& passing && next.pass != ScanPass::Failed ==> next.facts == no_facts()
                && !next.sidecar_left
            &&& next.pass == ScanPass::Temporaries && scan.state.pass == ScanPass::Sidecars
                ==> next.index == 0 && scan.state.index == count - 1
            &&& next.pass == ScanPass::Finished && scan.state.pass != ScanPass::Finished
                ==> scan.state.pass == ScanPass::Temporaries && scan.state.index == count - 1
            &&& answer is Missing && scan_query(scan) is Entry && !(scan_query(scan)->query
                is IsFile && scan.state.pass == ScanPass::Temporaries) ==> next.pass
                == ScanPass::Failed
        }),
{
}

/// What a scan is told of an entry it knows of that entry, and nothing else: each answer settles the
/// question that it answers.
pub proof fn scans_know_what_they_are_told(
    scan: StaleScan,
    yes: bool,
    seconds: u64,
    text: Option<String>,
)
    requires
        scanning(scan),
        scan_query(scan) is Entry,
    ensures
        ({
            let before = scan.state.facts;
            let told = scan_answered(scan, ScanAnswer::Is { yes }).facts;
            let aged = scan_answered(scan, ScanAnswer::Age { seconds }).facts;
            let owned = scan_answered(scan, ScanAnswer::Owner { text }).facts;
            match scan_query(scan)->query {
                EntryQueryView::IsFile => told == (EntryFacts { is_file: Some(yes), ..before }),
                EntryQueryView::Exists { .. } => told == (EntryFacts {
                    temporary_exists: Some(yes),
                    ..before
                }),
                EntryQueryView::OwnerDead { .. } => told == (EntryFacts {
                    owner_dead: Some(yes),
                    ..before
                }),
                EntryQueryView::Age => aged == (EntryFacts { age: Some(seconds), ..before }),
                EntryQueryView::ReadOwner { .. } => owned == (EntryFacts {
                    owner: Some(text),
                    ..before
                }),
                _ => true,
            }
        }),
{
}

/// A scan that has finished says how much it removed, one that failed stops, and one that is under
/// way asks about the entry that it has come to, by its place.
pub proof fn scans_say_where_they_are(scan: StaleScan)
    requires
        scanning(scan),
    ensures
        scan.state.pass == ScanPass::Finished ==> scan_query(scan) == (ScanQueryView::Done {
            removed: scan.state.removed,
        }),
        scan.state.pass == ScanPass::Failed ==> scan_query(scan) is Stop,
        match scan_query(scan) {
            ScanQueryView::Entry { index, query } => {
                let path = scan.entries.deep_view()[scan.state.index as int];
                &&& index == scan.state.index
                &&& !scan.state.sidecar_left
                &&& scan.state.pass == ScanPass::Sidecars ==> query == sidecar_query(
                    path,
                    scan.state.facts,
                    scan.rule,
                )
                &&& scan.state.pass == ScanPass::Temporaries ==> query == temporary_query(
                    path,
                    scan.state.facts,
                    scan.rule,
                )
            },
            ScanQueryView::RemoveSidecar { .. } => scan.state.sidecar_left,
            _ => scan.state.pass == ScanPass::Finished || scan.state.pass == ScanPass::Failed,
        },
        scan.entries@.len() == 0 ==> pass_begun(ScanPass::Sidecars, scan.entries@.len(), 0).pass
            == ScanPass::Finished,
        scan.entries@.len() > 0 ==> pass_begun(ScanPass::Sidecars, scan.entries@.len(), 0) == (
        ScanState {
            pass: ScanPass::Sidecars,
            index: 0,
            facts: no_facts(),
            sidecar_left: false,
            removed: 0,
        }),
{
}

} // verus!
