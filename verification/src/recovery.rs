//! Admission of journal bytes at startup: classification, quarantine and the sticky marker.

use vstd::prelude::*;

use crate::journal;
use crate::journal::JournalRecord;
use crate::journal::RecordView;
use crate::model::Duplicate;
use crate::path;
use crate::path::FilePath;
use crate::path::PathView;
use crate::sha256;
use crate::text;

verus! {

/// Why a journal cannot be admitted as clean durable evidence.
#[derive(Clone, Copy, Debug, PartialEq, Eq, Structural)]
pub enum RecoveryReason {
    IncompleteUnterminatedSuffix,
    MalformedFinalRecord,
    MalformedMiddleRecord,
    InvalidPhaseSequence,
    BlockedMarkerPresent,
    UnreadableJournal,
}

/// The description of a reason.
pub open spec fn reason_text(reason: RecoveryReason) -> Seq<char> {
    match reason {
        RecoveryReason::IncompleteUnterminatedSuffix => "incomplete unterminated journal suffix"@,
        RecoveryReason::MalformedFinalRecord => "malformed final journal record"@,
        RecoveryReason::MalformedMiddleRecord => "malformed middle journal record"@,
        RecoveryReason::InvalidPhaseSequence => "invalid journal phase sequence"@,
        RecoveryReason::BlockedMarkerPresent => "journal recovery is already blocked"@,
        RecoveryReason::UnreadableJournal => "journal could not be read"@,
    }
}

impl RecoveryReason {
    /// Describes the reason.
    pub fn describe(&self) -> (text: String)
        ensures
            text@ == reason_text(*self),
    {
        match self {
            RecoveryReason::IncompleteUnterminatedSuffix =>
            "incomplete unterminated journal suffix".to_owned(),
            RecoveryReason::MalformedFinalRecord => "malformed final journal record".to_owned(),
            RecoveryReason::MalformedMiddleRecord => "malformed middle journal record".to_owned(),
            RecoveryReason::InvalidPhaseSequence => "invalid journal phase sequence".to_owned(),
            RecoveryReason::BlockedMarkerPresent =>
            "journal recovery is already blocked".to_owned(),
            RecoveryReason::UnreadableJournal => "journal could not be read".to_owned(),
        }
    }
}

/// Which durable preservation step failed.
#[derive(Clone, Copy, Debug, PartialEq, Eq, Structural)]
pub enum PreservationFailure {
    QuarantineWrite,
    MarkerWrite,
    Replacement,
}

/// The description of a preservation failure.
pub open spec fn preservation_text(failure: PreservationFailure) -> Seq<char> {
    match failure {
        PreservationFailure::QuarantineWrite => "quarantine write failed"@,
        PreservationFailure::MarkerWrite => "recovery marker write failed"@,
        PreservationFailure::Replacement => "journal replacement failed"@,
    }
}

impl PreservationFailure {
    /// Describes the failure.
    pub fn describe(&self) -> (text: String)
        ensures
            text@ == preservation_text(*self),
    {
        match self {
            PreservationFailure::QuarantineWrite => "quarantine write failed".to_owned(),
            PreservationFailure::MarkerWrite => "recovery marker write failed".to_owned(),
            PreservationFailure::Replacement => "journal replacement failed".to_owned(),
        }
    }
}

/// A summary of evidence that an operator has to look at. It holds no journal data.
#[derive(Clone, Debug, PartialEq, Eq)]
pub struct OperatorRecovery {
    reason: RecoveryReason,
    evidence_paths: Vec<FilePath>,
    validated_record_count: usize,
}

/// The deep view of an [`OperatorRecovery`].
#[verifier::ext_equal]
pub struct OperatorRecoveryView {
    pub reason: RecoveryReason,
    pub evidence_paths: Seq<PathView>,
    pub validated_record_count: nat,
}

impl DeepView for OperatorRecovery {
    type V = OperatorRecoveryView;

    closed spec fn deep_view(&self) -> OperatorRecoveryView {
        OperatorRecoveryView {
            reason: self.reason,
            evidence_paths: self.evidence_paths.deep_view(),
            validated_record_count: self.validated_record_count as nat,
        }
    }
}

impl OperatorRecovery {
    /// Summarizes evidence.
    pub fn new(
        reason: RecoveryReason,
        evidence_paths: Vec<FilePath>,
        validated_record_count: usize,
    ) -> (summary: Self)
        ensures
            summary.deep_view() == (OperatorRecoveryView {
                reason,
                evidence_paths: evidence_paths.deep_view(),
                validated_record_count: validated_record_count as nat,
            }),
    {
        OperatorRecovery { reason, evidence_paths, validated_record_count }
    }

    /// Why the journal was not admitted.
    pub fn reason(&self) -> (reason: &RecoveryReason)
        ensures
            *reason == self.deep_view().reason,
    {
        &self.reason
    }

    /// Where the evidence is.
    pub fn evidence_paths(&self) -> (paths: &Vec<FilePath>)
        ensures
            paths.deep_view() == self.deep_view().evidence_paths,
    {
        &self.evidence_paths
    }

    /// How many records were read before the evidence became unusable.
    pub fn validated_record_count(&self) -> (count: usize)
        ensures
            count == self.deep_view().validated_record_count,
    {
        self.validated_record_count
    }
}

/// The result of admitting or refusing a journal.
#[derive(Debug, PartialEq, Eq)]
pub enum RecoveryOutcome {
    Clean { records: Vec<JournalRecord> },
    NeedsOperatorRecovery(OperatorRecovery),
    PreservationFailed(PreservationFailure),
    Corrupt { reason: RecoveryReason },
}

/// The deep view of a [`RecoveryOutcome`].
#[verifier::ext_equal]
pub enum OutcomeView {
    Clean { records: Seq<RecordView> },
    NeedsOperatorRecovery(OperatorRecoveryView),
    PreservationFailed(PreservationFailure),
    Corrupt { reason: RecoveryReason },
}

impl DeepView for RecoveryOutcome {
    type V = OutcomeView;

    open spec fn deep_view(&self) -> OutcomeView {
        match self {
            RecoveryOutcome::Clean { records } => OutcomeView::Clean {
                records: records.deep_view(),
            },
            RecoveryOutcome::NeedsOperatorRecovery(recovery) => OutcomeView::NeedsOperatorRecovery(
                recovery.deep_view(),
            ),
            RecoveryOutcome::PreservationFailed(failure) => OutcomeView::PreservationFailed(
                *failure,
            ),
            RecoveryOutcome::Corrupt { reason } => OutcomeView::Corrupt { reason: *reason },
        }
    }
}

// ---------------------------------------------------------------------------------------------
// Framing
// ---------------------------------------------------------------------------------------------

/// The byte that ends a record.
pub const NEWLINE: u8 = 10;

/// The pieces between newlines; there is always at least one, which may be empty.
pub open spec fn pieces(bytes: Seq<u8>) -> Seq<Seq<u8>>
    decreases bytes.len(),
{
    if bytes.len() == 0 {
        seq![Seq::empty()]
    } else {
        let before = pieces(bytes.drop_last());
        if bytes.last() == NEWLINE {
            before.push(Seq::empty())
        } else {
            before.drop_last().push(before.last().push(bytes.last()))
        }
    }
}

/// Whether the last record is terminated.
pub open spec fn ends_with_newline(bytes: Seq<u8>) -> bool {
    bytes.len() > 0 && bytes.last() == NEWLINE
}

/// The lines that must each hold one record. An empty journal has none.
pub open spec fn record_lines(bytes: Seq<u8>) -> Seq<Seq<u8>> {
    if bytes.len() == 0 {
        Seq::empty()
    } else if ends_with_newline(bytes) {
        pieces(bytes).drop_last()
    } else {
        pieces(bytes)
    }
}

proof fn lemma_pieces_nonempty(bytes: Seq<u8>)
    ensures
        pieces(bytes).len() > 0,
    decreases bytes.len(),
{
    if bytes.len() > 0 {
        lemma_pieces_nonempty(bytes.drop_last());
    }
}

/// A journal cut into lines.
#[derive(Clone, Debug, PartialEq, Eq)]
pub struct JournalLines {
    pub lines: Vec<Vec<u8>>,
    pub terminated: bool,
}

/// The contents of some byte vectors.
pub open spec fn byte_views(lines: Seq<Vec<u8>>) -> Seq<Seq<u8>> {
    Seq::new(lines.len(), |i: int| lines[i]@)
}

/// Cuts journal bytes into the lines that must each hold one record.
pub fn journal_lines(bytes: &[u8]) -> (result: JournalLines)
    ensures
        byte_views(result.lines@) == record_lines(bytes@),
        result.terminated == ends_with_newline(bytes@),
{
    let mut lines: Vec<Vec<u8>> = Vec::new();
    let mut current: Vec<u8> = Vec::new();
    let mut index: usize = 0;
    proof {
        assert(bytes@.take(0) == Seq::<u8>::empty());
        assert(byte_views(lines@).push(current@) == seq![Seq::<u8>::empty()]);
    }
    while index < bytes.len()
        invariant
            index <= bytes@.len(),
            byte_views(lines@).push(current@) == pieces(bytes@.take(index as int)),
        decreases bytes.len() - index,
    {
        let byte = bytes[index];
        let ghost done = byte_views(lines@);
        let ghost partial = current@;
        proof {
            assert(bytes@.take(index + 1).drop_last() == bytes@.take(index as int));
            assert(bytes@.take(index + 1).last() == byte);
            assert(done.push(partial).drop_last() == done);
        }
        if byte == NEWLINE {
            lines.push(current);
            current = Vec::new();
            proof {
                assert(byte_views(lines@) == done.push(partial));
                assert(byte_views(lines@).push(current@) == pieces(bytes@.take(index + 1)));
            }
        } else {
            current.push(byte);
            proof {
                assert(byte_views(lines@).push(current@) == pieces(bytes@.take(index + 1)));
            }
        }
        index += 1;
    }
    proof {
        assert(bytes@.take(index as int) == bytes@);
        assert(byte_views(lines@).push(current@).drop_last() == byte_views(lines@));
    }
    let terminated = bytes.len() > 0 && bytes[bytes.len() - 1] == NEWLINE;
    if bytes.len() > 0 && !terminated {
        let ghost done = byte_views(lines@);
        let ghost partial = current@;
        lines.push(current);
        proof {
            assert(byte_views(lines@) == done.push(partial));
        }
    } else if bytes.len() == 0 {
        proof {
            assert(byte_views(lines@).push(current@).len() == 1);
            assert(byte_views(lines@) == Seq::<Seq<u8>>::empty());
        }
    }
    JournalLines { lines, terminated }
}

// ---------------------------------------------------------------------------------------------
// Classification
// ---------------------------------------------------------------------------------------------

/// What decoding one line gave: a record, the discovery that the input stops too early, or any
/// other failure.
#[derive(Clone, Debug, PartialEq, Eq)]
pub enum ParsedLine {
    Record(JournalRecord),
    Incomplete,
    Malformed,
}

/// The deep view of a [`ParsedLine`].
#[verifier::ext_equal]
pub enum ParsedView {
    Record(RecordView),
    Incomplete,
    Malformed,
}

impl DeepView for ParsedLine {
    type V = ParsedView;

    open spec fn deep_view(&self) -> ParsedView {
        match self {
            ParsedLine::Record(record) => ParsedView::Record(record.deep_view()),
            ParsedLine::Incomplete => ParsedView::Incomplete,
            ParsedLine::Malformed => ParsedView::Malformed,
        }
    }
}

/// The number of lines before the first one that is not a record.
pub open spec fn leading_records(parsed: Seq<ParsedView>) -> nat
    decreases parsed.len(),
{
    if parsed.len() > 0 && parsed[0] is Record {
        1 + leading_records(parsed.drop_first())
    } else {
        0
    }
}

/// The records of lines that all hold one.
pub open spec fn records_of(parsed: Seq<ParsedView>) -> Seq<RecordView> {
    Seq::new(parsed.len(), |i: int| parsed[i]->Record_0)
}

/// The classification of a journal whose lines decoded to `parsed`.
pub open spec fn classification(parsed: Seq<ParsedView>, terminated: bool) -> OutcomeView {
    let valid = leading_records(parsed);
    if valid < parsed.len() {
        let last = valid + 1 == parsed.len();
        if last && !terminated && parsed[valid as int] is Incomplete {
            OutcomeView::NeedsOperatorRecovery(
                OperatorRecoveryView {
                    reason: RecoveryReason::IncompleteUnterminatedSuffix,
                    evidence_paths: Seq::empty(),
                    validated_record_count: valid,
                },
            )
        } else if last {
            OutcomeView::Corrupt { reason: RecoveryReason::MalformedFinalRecord }
        } else {
            OutcomeView::Corrupt { reason: RecoveryReason::MalformedMiddleRecord }
        }
    } else if journal::replay(records_of(parsed)) is Err {
        OutcomeView::Corrupt { reason: RecoveryReason::InvalidPhaseSequence }
    } else {
        OutcomeView::Clean { records: records_of(parsed) }
    }
}

proof fn lemma_leading_records(parsed: Seq<ParsedView>, count: int)
    requires
        0 <= count <= parsed.len(),
        forall|i: int| 0 <= i < count ==> (#[trigger] parsed[i]) is Record,
        count < parsed.len() ==> !(parsed[count] is Record),
    ensures
        leading_records(parsed) == count,
    decreases count,
{
    if count > 0 {
        let rest = parsed.drop_first();
        assert(parsed[0] is Record);
        assert forall|i: int| 0 <= i < count - 1 implies (#[trigger] rest[i]) is Record by {
            assert(rest[i] == parsed[i + 1]);
        }
        lemma_leading_records(rest, count - 1);
    }
}

/// Classifies a journal from what its lines decoded to.
pub fn classify_lines(parsed: Vec<ParsedLine>, terminated: bool) -> (outcome: RecoveryOutcome)
    ensures
        outcome.deep_view() == classification(parsed.deep_view(), terminated),
{
    let total: usize = parsed.len();
    let mut records: Vec<JournalRecord> = Vec::new();
    let mut index: usize = 0;
    let ghost views = parsed.deep_view();
    while index < total
        invariant
            index <= total,
            total == parsed@.len(),
            views == parsed.deep_view(),
            records.deep_view() == records_of(views.take(index as int)),
            forall|i: int| 0 <= i < index ==> (#[trigger] views[i]) is Record,
        decreases total - index,
    {
        match &parsed[index] {
            ParsedLine::Record(record) => {
                let ghost before = records.deep_view();
                records.push(record.duplicate());
                proof {
                    assert(views[index as int] == ParsedView::Record(record.deep_view()));
                    assert(records.deep_view() == before.push(record.deep_view()));
                    assert(records.deep_view() == records_of(views.take(index + 1)));
                }
            },
            ParsedLine::Incomplete => {
                proof {
                    assert(views[index as int] is Incomplete);
                    lemma_leading_records(views, index as int);
                }
                if index + 1 == total {
                    if !terminated {
                        let evidence: Vec<FilePath> = Vec::new();
                        proof {
                            assert(evidence.deep_view() == Seq::<PathView>::empty());
                        }
                        return RecoveryOutcome::NeedsOperatorRecovery(
                            OperatorRecovery::new(
                                RecoveryReason::IncompleteUnterminatedSuffix,
                                evidence,
                                index,
                            ),
                        );
                    }
                    return RecoveryOutcome::Corrupt { reason: RecoveryReason::MalformedFinalRecord };
                }
                return RecoveryOutcome::Corrupt { reason: RecoveryReason::MalformedMiddleRecord };
            },
            ParsedLine::Malformed => {
                proof {
                    assert(views[index as int] is Malformed);
                    lemma_leading_records(views, index as int);
                }
                if index + 1 == total {
                    return RecoveryOutcome::Corrupt { reason: RecoveryReason::MalformedFinalRecord };
                }
                return RecoveryOutcome::Corrupt { reason: RecoveryReason::MalformedMiddleRecord };
            },
        }
        index += 1;
    }
    proof {
        lemma_leading_records(views, index as int);
        assert(views.take(index as int) == views);
    }
    match journal::pending_with_evidence(&records) {
        Ok(_) => RecoveryOutcome::Clean { records },
        Err(_) => RecoveryOutcome::Corrupt { reason: RecoveryReason::InvalidPhaseSequence },
    }
}

/// Whether `parsed` is what `parse` may have made of each line.
pub open spec fn decodes_to<F: Fn(&[u8]) -> ParsedLine>(
    parse: F,
    lines: Seq<Seq<u8>>,
    parsed: Seq<ParsedView>,
) -> bool {
    &&& parsed.len() == lines.len()
    &&& forall|i: int|
        0 <= i < lines.len() ==> decodes_line(parse, lines[i], #[trigger] parsed[i])
}

/// Whether `parse` may have made `parsed` of a line.
pub open spec fn decodes_line<F: Fn(&[u8]) -> ParsedLine>(
    parse: F,
    line: Seq<u8>,
    parsed: ParsedView,
) -> bool {
    exists|slice: &[u8], result: ParsedLine|
        slice@ == line && #[trigger] call_ensures(parse, (slice,), result) && result.deep_view()
            == parsed
}

/// Decodes the lines of journal bytes; `parse` decodes one line.
pub fn decode_lines<F: Fn(&[u8]) -> ParsedLine>(bytes: &[u8], parse: F) -> (parsed: Vec<ParsedLine>)
    requires
        forall|line: &[u8]| call_requires(parse, (line,)),
    ensures
        decodes_to(parse, record_lines(bytes@), parsed.deep_view()),
{
    let framed = journal_lines(bytes);
    let mut parsed: Vec<ParsedLine> = Vec::new();
    let mut index: usize = 0;
    while index < framed.lines.len()
        invariant
            index <= framed.lines@.len(),
            byte_views(framed.lines@) == record_lines(bytes@),
            parsed@.len() == index,
            forall|line: &[u8]| call_requires(parse, (line,)),
            forall|i: int|
                0 <= i < index ==> decodes_line(
                    parse,
                    record_lines(bytes@)[i],
                    #[trigger] parsed.deep_view()[i],
                ),
        decreases framed.lines.len() - index,
    {
        let line = framed.lines[index].as_slice();
        let result = parse(line);
        let ghost before = parsed.deep_view();
        proof {
            assert(record_lines(bytes@)[index as int] == line@);
            assert(call_ensures(parse, (line,), result));
            assert(decodes_line(parse, line@, result.deep_view()));
        }
        let ghost view = result.deep_view();
        parsed.push(result);
        proof {
            assert(parsed.deep_view() == before.push(view));
        }
        index += 1;
    }
    parsed
}

/// Classifies journal bytes; `parse` decodes one line.
pub fn classify_bytes<F: Fn(&[u8]) -> ParsedLine>(bytes: &[u8], parse: F) -> (outcome:
    RecoveryOutcome)
    requires
        forall|line: &[u8]| call_requires(parse, (line,)),
    ensures
        exists|parsed: Seq<ParsedView>| #[trigger]
            decodes_to(parse, record_lines(bytes@), parsed) && outcome.deep_view()
                == classification(parsed, ends_with_newline(bytes@)),
{
    let terminated = bytes.len() > 0 && bytes[bytes.len() - 1] == NEWLINE;
    let parsed = decode_lines(bytes, parse);
    classify_lines(parsed, terminated)
}

// ---------------------------------------------------------------------------------------------
// Laws of framing and classification
// ---------------------------------------------------------------------------------------------

/// Terminating the last record changes no line: a journal that lacks its final newline holds the
/// same lines before and after the newline is added.
pub proof fn final_newline_keeps_lines(bytes: Seq<u8>)
    requires
        bytes.len() > 0,
        !ends_with_newline(bytes),
    ensures
        record_lines(bytes.push(NEWLINE)) == record_lines(bytes),
        ends_with_newline(bytes.push(NEWLINE)),
{
    assert(bytes.push(NEWLINE).drop_last() == bytes);
    assert(pieces(bytes).push(Seq::empty()).drop_last() == pieces(bytes));
}

/// A clean journal has one record for each line.
pub proof fn clean_journals_have_a_record_per_line(parsed: Seq<ParsedView>, terminated: bool)
    requires
        classification(parsed, terminated) is Clean,
    ensures
        classification(parsed, terminated)->records.len() == parsed.len(),
        journal::replay(classification(parsed, terminated)->records) is Ok,
{
}

/// What is clean without its final newline is clean, with the same records, once it has it.
pub proof fn termination_keeps_clean_journals_clean(parsed: Seq<ParsedView>)
    requires
        classification(parsed, false) is Clean,
    ensures
        classification(parsed, true) == classification(parsed, false),
{
}

proof fn lemma_pieces_extended(bytes: Seq<u8>, line: Seq<u8>)
    requires
        !line.contains(NEWLINE),
    ensures
        pieces(bytes).len() > 0,
        pieces(bytes + line) == pieces(bytes).drop_last().push(pieces(bytes).last() + line),
    decreases line.len(),
{
    lemma_pieces_nonempty(bytes);
    let before = pieces(bytes);
    if line.len() == 0 {
        assert(bytes + line == bytes);
        assert(before.last() + line == before.last());
        assert(before.drop_last().push(before.last()) == before);
    } else {
        let shorter = line.drop_last();
        assert forall|i: int| 0 <= i < shorter.len() implies #[trigger] shorter[i] != NEWLINE by {
            assert(line[i] == shorter[i]);
        }
        lemma_pieces_extended(bytes, shorter);
        assert(line[line.len() - 1] != NEWLINE);
        assert((bytes + line).drop_last() == bytes + shorter);
        let partial = before.last() + shorter;
        assert(partial.push(line.last()) == before.last() + line);
        assert(before.drop_last().push(partial).drop_last() == before.drop_last());
    }
}

/// A line that is appended with its newline to a journal that ends with one, or is empty, is the
/// one line that is added: the lines before it stay as they are.
pub proof fn appended_lines_are_added(bytes: Seq<u8>, line: Seq<u8>)
    requires
        bytes.len() == 0 || ends_with_newline(bytes),
        !line.contains(NEWLINE),
    ensures
        record_lines(bytes + line.push(NEWLINE)) == record_lines(bytes).push(line),
        ends_with_newline(bytes + line.push(NEWLINE)),
        bytes.is_prefix_of(bytes + line.push(NEWLINE)),
{
    let whole = bytes + line.push(NEWLINE);
    lemma_pieces_extended(bytes, line);
    assert(whole.drop_last() == bytes + line);
    assert(pieces(whole).drop_last() == pieces(bytes + line));
    assert(pieces(bytes).last() + line == line);
    assert(record_lines(bytes) == pieces(bytes).drop_last());
    assert(bytes == whole.subrange(0, bytes.len() as int));
}

/// The records of decoded lines, if each of them holds one.
pub open spec fn loaded(parsed: Seq<ParsedView>) -> Option<Seq<RecordView>> {
    if forall|i: int| 0 <= i < parsed.len() ==> (#[trigger] parsed[i]) is Record {
        Some(records_of(parsed))
    } else {
        None
    }
}

/// A record that is appended is loaded after the records before it, and nothing else is; a line
/// that holds no record makes the journal unloadable.
pub proof fn appended_records_are_loaded(
    decode: spec_fn(Seq<u8>) -> ParsedView,
    bytes: Seq<u8>,
    line: Seq<u8>,
)
    requires
        bytes.len() == 0 || ends_with_newline(bytes),
        !line.contains(NEWLINE),
        loaded(decoded(decode, record_lines(bytes))) is Some,
    ensures
        loaded(decoded(decode, record_lines(bytes + line.push(NEWLINE)))) == match decode(line) {
            ParsedView::Record(record) => Some(
                loaded(decoded(decode, record_lines(bytes)))->0.push(record),
            ),
            _ => None,
        },
{
    appended_lines_are_added(bytes, line);
    let lines = record_lines(bytes);
    let before = decoded(decode, lines);
    let after = decoded(decode, lines.push(line));
    assert(after == before.push(decode(line)));
    match decode(line) {
        ParsedView::Record(record) => {
            assert forall|i: int| 0 <= i < after.len() implies (#[trigger] after[i]) is Record by {
                if i < before.len() {
                    assert(before[i] is Record);
                }
            }
            assert(records_of(after) == records_of(before).push(record));
        },
        _ => {
            assert(!(after[before.len() as int] is Record));
        },
    }
}

/// Whether `part` holds the first lines of `whole`, the last of them perhaps cut short.
pub open spec fn first_lines(part: Seq<Seq<u8>>, whole: Seq<Seq<u8>>) -> bool {
    &&& part.len() <= whole.len()
    &&& forall|i: int| 0 <= i < part.len() - 1 ==> #[trigger] part[i] == whole[i]
    &&& part.len() > 0 ==> part.last().is_prefix_of(whole[part.len() - 1])
}

proof fn lemma_pieces_cut(bytes: Seq<u8>, cut: int)
    requires
        0 <= cut <= bytes.len(),
    ensures
        pieces(bytes.take(cut)).len() > 0,
        first_lines(pieces(bytes.take(cut)), pieces(bytes)),
    decreases bytes.len(),
{
    lemma_pieces_nonempty(bytes.take(cut));
    let part = pieces(bytes.take(cut));
    if cut == bytes.len() {
        assert(bytes.take(cut) == bytes);
        assert(part.last() == part.last().subrange(0, part.last().len() as int));
    } else {
        let shorter = bytes.drop_last();
        let before = pieces(shorter);
        let whole = pieces(bytes);
        assert(shorter.take(cut) == bytes.take(cut));
        lemma_pieces_cut(shorter, cut);
        let last = part.len() - 1;
        if bytes.last() != NEWLINE && part.len() == before.len() {
            assert(whole[last] == before[last].push(bytes.last()));
            let length = part.last().len() as int;
            assert(whole[last].subrange(0, length) == before[last].subrange(0, length));
        } else {
            assert(whole[last] == before[last]);
        }
        assert forall|i: int| 0 <= i < part.len() - 1 implies #[trigger] part[i] == whole[i] by {
            assert(part[i] == before[i]);
        }
    }
}

/// Cutting a journal short leaves its first lines, the last of which may be cut. After a newline,
/// no line is cut.
pub proof fn truncation_leaves_the_first_lines(bytes: Seq<u8>, cut: int)
    requires
        0 <= cut <= bytes.len(),
    ensures
        first_lines(record_lines(bytes.take(cut)), record_lines(bytes)),
        ends_with_newline(bytes.take(cut)) ==> record_lines(bytes.take(cut))
            == record_lines(bytes).take(record_lines(bytes.take(cut)).len() as int),
{
    let rest = bytes.take(cut);
    let part = record_lines(rest);
    let whole = record_lines(bytes);
    if cut > 0 {
        lemma_pieces_cut(bytes, cut);
        if ends_with_newline(rest) {
            assert forall|i: int| 0 <= i < part.len() implies #[trigger] part[i] == whole[i] by {
                assert(pieces(rest)[i] == pieces(bytes)[i]);
            }
            assert(part == whole.take(part.len() as int));
            if part.len() > 0 {
                let last = part.last();
                assert(last == last.subrange(0, last.len() as int));
            }
        } else if ends_with_newline(bytes) {
            assert(pieces(rest).last().len() > 0);
            assert(pieces(bytes).last().len() == 0);
            assert(pieces(bytes)[part.len() - 1].len() > 0);
            assert forall|i: int| 0 <= i < part.len() - 1 implies #[trigger] part[i] == whole[i] by {
                assert(pieces(rest)[i] == pieces(bytes)[i]);
            }
        }
    }
}

/// How many lines are terminated.
pub open spec fn line_ends(bytes: Seq<u8>) -> nat {
    bytes.filter(|byte: u8| byte == NEWLINE).len()
}

proof fn lemma_line_ends(bytes: Seq<u8>)
    ensures
        pieces(bytes).len() == line_ends(bytes) + 1,
    decreases bytes.len(),
{
    reveal(Seq::filter);
    if bytes.len() > 0 {
        lemma_line_ends(bytes.drop_last());
    }
}

/// What a decoder makes of some lines.
pub open spec fn decoded(
    decode: spec_fn(Seq<u8>) -> ParsedView,
    lines: Seq<Seq<u8>>,
) -> Seq<ParsedView> {
    Seq::new(lines.len(), |i: int| decode(lines[i]))
}

/// The classification of journal bytes by a decoder.
pub open spec fn classified(
    decode: spec_fn(Seq<u8>) -> ParsedView,
    bytes: Seq<u8>,
) -> OutcomeView {
    classification(decoded(decode, record_lines(bytes)), ends_with_newline(bytes))
}

/// Whether `parse` computes `decode`.
pub open spec fn computes<F: Fn(&[u8]) -> ParsedLine>(
    parse: F,
    decode: spec_fn(Seq<u8>) -> ParsedView,
) -> bool {
    forall|line: &[u8], result: ParsedLine| #[trigger]
        call_ensures(parse, (line,), result) ==> result.deep_view() == decode(line@)
}

/// With a decoder that always makes the same of the same line, the bytes alone decide how
/// [`classify_bytes`] classifies a journal.
pub proof fn bytes_decide_the_classification<F: Fn(&[u8]) -> ParsedLine>(
    parse: F,
    decode: spec_fn(Seq<u8>) -> ParsedView,
    bytes: Seq<u8>,
    parsed: Seq<ParsedView>,
)
    requires
        computes(parse, decode),
        decodes_to(parse, record_lines(bytes), parsed),
    ensures
        classification(parsed, ends_with_newline(bytes)) == classified(decode, bytes),
{
    let lines = record_lines(bytes);
    assert forall|i: int| 0 <= i < lines.len() implies #[trigger] parsed[i] == decoded(
        decode,
        lines,
    )[i] by {
        assert(decodes_line(parse, lines[i], parsed[i]));
    }
    assert(parsed == decoded(decode, lines));
}

/// Whether a decoder notices that a line is cut: what is left of the line is incomplete, or still
/// holds what the line held.
pub open spec fn notices_cuts(decode: spec_fn(Seq<u8>) -> ParsedView, line: Seq<u8>) -> bool {
    forall|cut: int|
        0 <= cut < line.len() ==> (#[trigger] decode(line.take(cut))) is Incomplete || decode(
            line.take(cut),
        ) == decode(line)
}

proof fn lemma_all_records(parsed: Seq<ParsedView>)
    requires
        leading_records(parsed) >= parsed.len(),
    ensures
        forall|i: int| 0 <= i < parsed.len() ==> (#[trigger] parsed[i]) is Record,
    decreases parsed.len(),
{
    if parsed.len() > 0 {
        let rest = parsed.drop_first();
        lemma_all_records(rest);
        assert forall|i: int| 0 <= i < parsed.len() implies (#[trigger] parsed[i]) is Record by {
            if i > 0 {
                assert(parsed[i] == rest[i - 1]);
            }
        }
    }
}

/// A clean journal that is cut short, anywhere, is never corrupt.
///
/// It is clean, with the first of the records, one for each line that is left; or its last line is
/// incomplete, and every line that is terminated was validated. This holds of every decoder that
/// notices where the lines of the journal are cut. With one that finds no record in an empty line,
/// a clean rest has no empty line.
pub proof fn truncated_journals_are_never_corrupt(
    decode: spec_fn(Seq<u8>) -> ParsedView,
    bytes: Seq<u8>,
    cut: int,
)
    requires
        0 <= cut <= bytes.len(),
        classified(decode, bytes) is Clean,
        forall|i: int|
            0 <= i < record_lines(bytes).len() ==> notices_cuts(
                decode,
                #[trigger] record_lines(bytes)[i],
            ),
    ensures
        match classified(decode, bytes.take(cut)) {
            OutcomeView::Clean { records } => {
                &&& records.len() == record_lines(bytes.take(cut)).len()
                &&& records == classified(decode, bytes)->records.take(records.len() as int)
                &&& !(decode(Seq::empty()) is Record) ==> forall|i: int|
                    0 <= i < records.len() ==> (#[trigger] record_lines(bytes.take(cut))[i]).len()
                        > 0
            },
            OutcomeView::NeedsOperatorRecovery(recovery) => {
                &&& recovery.reason == RecoveryReason::IncompleteUnterminatedSuffix
                &&& recovery.evidence_paths == Seq::<PathView>::empty()
                &&& recovery.validated_record_count == line_ends(bytes.take(cut))
            },
            _ => false,
        },
{
    let rest = bytes.take(cut);
    let part = record_lines(rest);
    let whole = record_lines(bytes);
    let some = decoded(decode, part);
    let all = decoded(decode, whole);
    truncation_leaves_the_first_lines(bytes, cut);
    lemma_line_ends(rest);
    lemma_all_records(all);
    let count = part.len() as int;
    assert forall|i: int| 0 <= i < count - 1 implies #[trigger] some[i] == all[i] by {
        assert(part[i] == whole[i]);
    }
    if count > 0 {
        let line = whole[count - 1];
        let left = part.last();
        assert(left == line.take(left.len() as int));
        if left.len() == line.len() {
            assert(left == line);
        } else {
            assert(notices_cuts(decode, line));
            assert(decode(line.take(left.len() as int)) == some[count - 1]);
        }
        assert(some[count - 1] is Incomplete || some[count - 1] == all[count - 1]);
    }
    if count > 0 && some[count - 1] is Incomplete {
        assert(all[count - 1] is Record);
        if ends_with_newline(rest) {
            assert(part[count - 1] == whole[count - 1]);
        }
        assert forall|i: int| 0 <= i < count - 1 implies (#[trigger] some[i]) is Record by {
            assert(some[i] == all[i]);
        }
        lemma_leading_records(some, count - 1);
    } else {
        assert forall|i: int| 0 <= i < count implies (#[trigger] some[i]) is Record by {
            assert(some[i] == all[i]);
        }
        lemma_leading_records(some, count);
        let records = records_of(all);
        assert(records_of(some) == records.take(count));
        if journal::replay(records.take(count)) is Err {
            journal::lemma_replay_error_sticks(records, count);
        }
        assert forall|i: int|
            0 <= i < count && !(decode(Seq::empty()) is Record) implies (#[trigger] part[i]).len()
            > 0 by {
            assert(some[i] is Record);
            if part[i].len() == 0 {
                assert(part[i] == Seq::<u8>::empty());
            }
        }
    }
}

// ---------------------------------------------------------------------------------------------
// The recovery procedure
// ---------------------------------------------------------------------------------------------

/// What is done once the original bytes are safe in quarantine.
#[derive(Debug, PartialEq, Eq)]
pub enum AfterQuarantine {
    /// Add the missing final newline; the records are these.
    Normalize { records: Vec<JournalRecord> },
    /// Block recovery until an operator has looked at the evidence.
    Block { validated_record_count: usize },
    /// Report the corruption.
    Report { reason: RecoveryReason },
}

/// The deep view of an [`AfterQuarantine`].
#[verifier::ext_equal]
pub enum AfterQuarantineView {
    Normalize { records: Seq<RecordView> },
    Block { validated_record_count: nat },
    Report { reason: RecoveryReason },
}

impl DeepView for AfterQuarantine {
    type V = AfterQuarantineView;

    open spec fn deep_view(&self) -> AfterQuarantineView {
        match self {
            AfterQuarantine::Normalize { records } => AfterQuarantineView::Normalize {
                records: records.deep_view(),
            },
            AfterQuarantine::Block { validated_record_count } => AfterQuarantineView::Block {
                validated_record_count: *validated_record_count as nat,
            },
            AfterQuarantine::Report { reason } => AfterQuarantineView::Report { reason: *reason },
        }
    }
}

/// What recovery has to do next.
#[derive(Debug, PartialEq, Eq)]
pub enum RecoveryStep {
    /// Find out whether the blocked marker is there.
    InspectMarker,
    /// Read the journal.
    ReadJournal,
    /// Write the bytes to a new quarantine file.
    Quarantine { bytes: Vec<u8>, next: AfterQuarantine },
    /// Write the blocked marker, naming the quarantine file.
    WriteMarker { quarantine: FilePath, validated_record_count: usize },
    /// Replace the journal with the bytes.
    Replace { bytes: Vec<u8>, records: Vec<JournalRecord> },
    /// Nothing: this is the outcome.
    Done { outcome: RecoveryOutcome },
    /// Nothing: the journal could not be read.
    Unreadable,
}

/// The deep view of a [`RecoveryStep`].
#[verifier::ext_equal]
pub enum StepView {
    InspectMarker,
    ReadJournal,
    Quarantine { bytes: Seq<u8>, next: AfterQuarantineView },
    WriteMarker { quarantine: PathView, validated_record_count: nat },
    Replace { bytes: Seq<u8>, records: Seq<RecordView> },
    Done { outcome: OutcomeView },
    Unreadable,
}

impl DeepView for RecoveryStep {
    type V = StepView;

    open spec fn deep_view(&self) -> StepView {
        match self {
            RecoveryStep::InspectMarker => StepView::InspectMarker,
            RecoveryStep::ReadJournal => StepView::ReadJournal,
            RecoveryStep::Quarantine { bytes, next } => StepView::Quarantine {
                bytes: bytes@,
                next: next.deep_view(),
            },
            RecoveryStep::WriteMarker { quarantine, validated_record_count } =>
            StepView::WriteMarker {
                quarantine: quarantine.deep_view(),
                validated_record_count: *validated_record_count as nat,
            },
            RecoveryStep::Replace { bytes, records } => StepView::Replace {
                bytes: bytes@,
                records: records.deep_view(),
            },
            RecoveryStep::Done { outcome } => StepView::Done { outcome: outcome.deep_view() },
            RecoveryStep::Unreadable => StepView::Unreadable,
        }
    }
}

/// What came of a step.
#[derive(Debug, PartialEq, Eq)]
pub enum RecoveryEvent {
    MarkerFound,
    MarkerAbsent,
    MarkerUnknown,
    JournalMissing,
    JournalUnreadable,
    JournalRead { bytes: Vec<u8>, parsed: Vec<ParsedLine> },
    QuarantineWritten { path: FilePath },
    QuarantineFailed,
    MarkerWritten,
    MarkerFailed,
    ReplacementWritten,
    ReplacementFailed,
}

/// The deep view of a [`RecoveryEvent`].
#[verifier::ext_equal]
pub enum EventView {
    MarkerFound,
    MarkerAbsent,
    MarkerUnknown,
    JournalMissing,
    JournalUnreadable,
    JournalRead { bytes: Seq<u8>, parsed: Seq<ParsedView> },
    QuarantineWritten { path: PathView },
    QuarantineFailed,
    MarkerWritten,
    MarkerFailed,
    ReplacementWritten,
    ReplacementFailed,
}

impl DeepView for RecoveryEvent {
    type V = EventView;

    open spec fn deep_view(&self) -> EventView {
        match self {
            RecoveryEvent::MarkerFound => EventView::MarkerFound,
            RecoveryEvent::MarkerAbsent => EventView::MarkerAbsent,
            RecoveryEvent::MarkerUnknown => EventView::MarkerUnknown,
            RecoveryEvent::JournalMissing => EventView::JournalMissing,
            RecoveryEvent::JournalUnreadable => EventView::JournalUnreadable,
            RecoveryEvent::JournalRead { bytes, parsed } => EventView::JournalRead {
                bytes: bytes@,
                parsed: parsed.deep_view(),
            },
            RecoveryEvent::QuarantineWritten { path } => EventView::QuarantineWritten {
                path: path.deep_view(),
            },
            RecoveryEvent::QuarantineFailed => EventView::QuarantineFailed,
            RecoveryEvent::MarkerWritten => EventView::MarkerWritten,
            RecoveryEvent::MarkerFailed => EventView::MarkerFailed,
            RecoveryEvent::ReplacementWritten => EventView::ReplacementWritten,
            RecoveryEvent::ReplacementFailed => EventView::ReplacementFailed,
        }
    }
}

/// Whether an event can have happened: bytes that were read have one decoded line for each line
/// that must hold a record.
pub open spec fn admissible(event: EventView) -> bool {
    event matches EventView::JournalRead { bytes, parsed } ==> parsed.len() == record_lines(
        bytes,
    ).len()
}

/// The event that the journal was read; `parse` decodes one line.
pub fn journal_read<F: Fn(&[u8]) -> ParsedLine>(bytes: Vec<u8>, parse: F) -> (event: RecoveryEvent)
    requires
        forall|line: &[u8]| call_requires(parse, (line,)),
    ensures
        admissible(event.deep_view()),
        exists|parsed: Seq<ParsedView>| #[trigger]
            decodes_to(parse, record_lines(bytes@), parsed) && event.deep_view()
                == (EventView::JournalRead { bytes: bytes@, parsed }),
{
    let parsed = decode_lines(bytes.as_slice(), parse);
    RecoveryEvent::JournalRead { bytes, parsed }
}

/// The suffix of the name of the blocked marker.
pub const MARKER_SUFFIX: &'static str = ".recovery-blocked";

/// The path of the blocked marker of a journal.
pub open spec fn marker_path(journal: PathView) -> PathView {
    path::with_suffix(journal, MARKER_SUFFIX@)
}

/// The path of the sticky marker that blocks recovery of a journal.
pub fn blocked_marker_path(journal_path: &FilePath) -> (marker: FilePath)
    ensures
        marker.deep_view() == marker_path(journal_path.deep_view()),
{
    path::append_suffix(journal_path, MARKER_SUFFIX)
}

/// What follows from the contents of the journal.
pub open spec fn step_after_read(bytes: Seq<u8>, parsed: Seq<ParsedView>) -> StepView {
    match classification(parsed, ends_with_newline(bytes)) {
        OutcomeView::Clean { records } => if bytes.len() == 0 || ends_with_newline(bytes) {
            StepView::Done { outcome: OutcomeView::Clean { records } }
        } else {
            StepView::Quarantine { bytes, next: AfterQuarantineView::Normalize { records } }
        },
        OutcomeView::NeedsOperatorRecovery(recovery) => StepView::Quarantine {
            bytes,
            next: AfterQuarantineView::Block {
                validated_record_count: recovery.validated_record_count,
            },
        },
        OutcomeView::Corrupt { reason } => StepView::Quarantine {
            bytes,
            next: AfterQuarantineView::Report { reason },
        },
        OutcomeView::PreservationFailed(failure) => StepView::Done {
            outcome: OutcomeView::PreservationFailed(failure),
        },
    }
}

/// What follows once the bytes are in quarantine.
pub open spec fn step_after_quarantine(
    bytes: Seq<u8>,
    next: AfterQuarantineView,
    quarantine: PathView,
) -> StepView {
    match next {
        AfterQuarantineView::Normalize { records } => StepView::Replace {
            bytes: bytes.push(NEWLINE),
            records,
        },
        AfterQuarantineView::Block { validated_record_count } => StepView::WriteMarker {
            quarantine,
            validated_record_count,
        },
        AfterQuarantineView::Report { reason } => StepView::Done {
            outcome: OutcomeView::Corrupt { reason },
        },
    }
}

/// The outcome where the blocked marker is there, or may be there: it is then taken to be.
pub open spec fn blocked(journal: PathView) -> OutcomeView {
    OutcomeView::NeedsOperatorRecovery(
        OperatorRecoveryView {
            reason: RecoveryReason::BlockedMarkerPresent,
            evidence_paths: seq![marker_path(journal)],
            validated_record_count: 0,
        },
    )
}

/// The step that follows an event. An event that does not belong to the step changes nothing.
pub open spec fn next_step(journal: PathView, step: StepView, event: EventView) -> StepView {
    match (step, event) {
        (StepView::InspectMarker, EventView::MarkerFound) => StepView::Done {
            outcome: blocked(journal),
        },
        (StepView::InspectMarker, EventView::MarkerUnknown) => StepView::Done {
            outcome: blocked(journal),
        },
        (StepView::InspectMarker, EventView::MarkerAbsent) => StepView::ReadJournal,
        (StepView::ReadJournal, EventView::JournalMissing) => StepView::Done {
            outcome: OutcomeView::Clean { records: Seq::empty() },
        },
        (StepView::ReadJournal, EventView::JournalUnreadable) => StepView::Unreadable,
        (StepView::ReadJournal, EventView::JournalRead { bytes, parsed }) => step_after_read(
            bytes,
            parsed,
        ),
        (StepView::Quarantine { bytes, next }, EventView::QuarantineWritten { path }) =>
        step_after_quarantine(bytes, next, path),
        (StepView::Quarantine { .. }, EventView::QuarantineFailed) => StepView::Done {
            outcome: OutcomeView::PreservationFailed(PreservationFailure::QuarantineWrite),
        },
        (
            StepView::WriteMarker { quarantine, validated_record_count },
            EventView::MarkerWritten,
        ) => StepView::Done {
            outcome: OutcomeView::NeedsOperatorRecovery(
                OperatorRecoveryView {
                    reason: RecoveryReason::IncompleteUnterminatedSuffix,
                    evidence_paths: seq![quarantine, marker_path(journal)],
                    validated_record_count,
                },
            ),
        },
        (StepView::WriteMarker { .. }, EventView::MarkerFailed) => StepView::Done {
            outcome: OutcomeView::PreservationFailed(PreservationFailure::MarkerWrite),
        },
        (StepView::Replace { bytes, records }, EventView::ReplacementWritten) => StepView::Done {
            outcome: OutcomeView::Clean { records },
        },
        (StepView::Replace { .. }, EventView::ReplacementFailed) => StepView::Done {
            outcome: OutcomeView::PreservationFailed(PreservationFailure::Replacement),
        },
        (step, _) => step,
    }
}

fn after_read(bytes: Vec<u8>, parsed: Vec<ParsedLine>) -> (step: RecoveryStep)
    ensures
        step.deep_view() == step_after_read(bytes@, parsed.deep_view()),
{
    let terminated = bytes.len() > 0 && bytes[bytes.len() - 1] == NEWLINE;
    match classify_lines(parsed, terminated) {
        RecoveryOutcome::Clean { records } => if bytes.len() == 0 || terminated {
            RecoveryStep::Done { outcome: RecoveryOutcome::Clean { records } }
        } else {
            RecoveryStep::Quarantine { bytes, next: AfterQuarantine::Normalize { records } }
        },
        RecoveryOutcome::NeedsOperatorRecovery(recovery) => RecoveryStep::Quarantine {
            bytes,
            next: AfterQuarantine::Block {
                validated_record_count: recovery.validated_record_count(),
            },
        },
        RecoveryOutcome::Corrupt { reason } => RecoveryStep::Quarantine {
            bytes,
            next: AfterQuarantine::Report { reason },
        },
        RecoveryOutcome::PreservationFailed(failure) => RecoveryStep::Done {
            outcome: RecoveryOutcome::PreservationFailed(failure),
        },
    }
}

fn after_block(journal_path: &FilePath) -> (step: RecoveryStep)
    ensures
        step.deep_view() == (StepView::Done { outcome: blocked(journal_path.deep_view()) }),
{
    let mut evidence: Vec<FilePath> = Vec::new();
    evidence.push(blocked_marker_path(journal_path));
    proof {
        assert(evidence.deep_view() == seq![marker_path(journal_path.deep_view())]);
    }
    RecoveryStep::Done {
        outcome: RecoveryOutcome::NeedsOperatorRecovery(
            OperatorRecovery::new(RecoveryReason::BlockedMarkerPresent, evidence, 0),
        ),
    }
}

/// Decides what recovery of the journal at `journal_path` does after an event.
///
/// Recovery starts with [`RecoveryStep::InspectMarker`] and ends with a step that asks for nothing.
pub fn recover_journal(
    journal_path: &FilePath,
    step: RecoveryStep,
    event: RecoveryEvent,
) -> (next: RecoveryStep)
    requires
        admissible(event.deep_view()),
    ensures
        next.deep_view() == next_step(
            journal_path.deep_view(),
            step.deep_view(),
            event.deep_view(),
        ),
{
    match (step, event) {
        (RecoveryStep::InspectMarker, RecoveryEvent::MarkerFound) => after_block(journal_path),
        (RecoveryStep::InspectMarker, RecoveryEvent::MarkerUnknown) => after_block(journal_path),
        (RecoveryStep::InspectMarker, RecoveryEvent::MarkerAbsent) => RecoveryStep::ReadJournal,
        (RecoveryStep::ReadJournal, RecoveryEvent::JournalMissing) => {
            let records: Vec<JournalRecord> = Vec::new();
            proof {
                assert(records.deep_view() == Seq::<RecordView>::empty());
            }
            RecoveryStep::Done { outcome: RecoveryOutcome::Clean { records } }
        },
        (RecoveryStep::ReadJournal, RecoveryEvent::JournalUnreadable) => RecoveryStep::Unreadable,
        (RecoveryStep::ReadJournal, RecoveryEvent::JournalRead { bytes, parsed }) => after_read(
            bytes,
            parsed,
        ),
        (
            RecoveryStep::Quarantine { bytes, next },
            RecoveryEvent::QuarantineWritten { path },
        ) => match next {
            AfterQuarantine::Normalize { records } => {
                let mut bytes = bytes;
                bytes.push(NEWLINE);
                RecoveryStep::Replace { bytes, records }
            },
            AfterQuarantine::Block { validated_record_count } => RecoveryStep::WriteMarker {
                quarantine: path,
                validated_record_count,
            },
            AfterQuarantine::Report { reason } => RecoveryStep::Done {
                outcome: RecoveryOutcome::Corrupt { reason },
            },
        },
        (RecoveryStep::Quarantine { .. }, RecoveryEvent::QuarantineFailed) => RecoveryStep::Done {
            outcome: RecoveryOutcome::PreservationFailed(PreservationFailure::QuarantineWrite),
        },
        (
            RecoveryStep::WriteMarker { quarantine, validated_record_count },
            RecoveryEvent::MarkerWritten,
        ) => {
            let ghost first = quarantine.deep_view();
            let mut evidence: Vec<FilePath> = Vec::new();
            evidence.push(quarantine);
            evidence.push(blocked_marker_path(journal_path));
            proof {
                assert(evidence.deep_view() == seq![first, marker_path(journal_path.deep_view())]);
            }
            RecoveryStep::Done {
                outcome: RecoveryOutcome::NeedsOperatorRecovery(
                    OperatorRecovery::new(
                        RecoveryReason::IncompleteUnterminatedSuffix,
                        evidence,
                        validated_record_count,
                    ),
                ),
            }
        },
        (RecoveryStep::WriteMarker { .. }, RecoveryEvent::MarkerFailed) => RecoveryStep::Done {
            outcome: RecoveryOutcome::PreservationFailed(PreservationFailure::MarkerWrite),
        },
        (
            RecoveryStep::Replace { bytes: _, records },
            RecoveryEvent::ReplacementWritten,
        ) => RecoveryStep::Done { outcome: RecoveryOutcome::Clean { records } },
        (RecoveryStep::Replace { .. }, RecoveryEvent::ReplacementFailed) => RecoveryStep::Done {
            outcome: RecoveryOutcome::PreservationFailed(PreservationFailure::Replacement),
        },
        (step, _) => step,
    }
}

/// The step that a sequence of events leads to.
pub open spec fn run(journal: PathView, events: Seq<EventView>) -> StepView
    decreases events.len(),
{
    if events.len() == 0 {
        StepView::InspectMarker
    } else {
        next_step(journal, run(journal, events.drop_last()), events.last())
    }
}

/// A blocked marker is authoritative: whatever else happens, recovery ends blocked and asks for
/// nothing that would touch the journal. So it does where nobody can tell whether the marker is
/// there.
pub proof fn blocked_marker_is_authoritative(journal: PathView, events: Seq<EventView>)
    requires
        events.len() > 0,
        events[0] is MarkerFound || events[0] is MarkerUnknown,
    ensures
        run(journal, events) == (StepView::Done { outcome: blocked(journal) }),
    decreases events.len(),
{
    if events.len() > 1 {
        assert(events.drop_last()[0] == events[0]);
        blocked_marker_is_authoritative(journal, events.drop_last());
    } else {
        assert(events.drop_last() == Seq::<EventView>::empty());
        assert(run(journal, events.drop_last()) is InspectMarker);
        assert(events.last() == events[0]);
    }
}

/// Recovery fails for one reason only: the journal could not be read. Everything else comes to an
/// outcome.
pub proof fn only_unreadable_journals_fail(journal: PathView, events: Seq<EventView>)
    requires
        run(journal, events) is Unreadable,
    ensures
        events.contains(EventView::JournalUnreadable),
    decreases events.len(),
{
    let before = events.drop_last();
    if run(journal, before) is Unreadable {
        only_unreadable_journals_fail(journal, before);
        let k = choose|k: int|
            0 <= k < before.len() && before[k] == EventView::JournalUnreadable;
        assert(events[k] == EventView::JournalUnreadable);
    } else {
        assert(events[events.len() - 1] == EventView::JournalUnreadable);
    }
}

/// Whether a step comes only after bytes are safe in quarantine: a replacement, a marker, and the
/// outcomes that report what the bytes hold.
pub open spec fn needs_quarantine(step: StepView) -> bool {
    match step {
        StepView::WriteMarker { .. } => true,
        StepView::Replace { .. } => true,
        StepView::Done { outcome: OutcomeView::Corrupt { .. } } => true,
        StepView::Done { outcome: OutcomeView::NeedsOperatorRecovery(recovery) } => recovery.reason
            == RecoveryReason::IncompleteUnterminatedSuffix,
        _ => false,
    }
}

/// The journal is neither touched nor given up before its bytes, as they were read, are safe in
/// quarantine.
pub proof fn evidence_is_quarantined_first(journal: PathView, events: Seq<EventView>)
    requires
        needs_quarantine(run(journal, events)),
    ensures
        exists|k: int|
            0 <= k < events.len() && (#[trigger] run(journal, events.take(k))) is Quarantine
                && events[k] is QuarantineWritten && justified(
                events.take(k),
                run(journal, events.take(k)),
            ),
    decreases events.len(),
{
    let before = events.drop_last();
    let last = events.len() - 1;
    assert(before == events.take(last));
    if needs_quarantine(run(journal, before)) {
        evidence_is_quarantined_first(journal, before);
        let k = choose|k: int|
            0 <= k < before.len() && (#[trigger] run(journal, before.take(k))) is Quarantine
                && before[k] is QuarantineWritten && justified(
                before.take(k),
                run(journal, before.take(k)),
            );
        assert(before.take(k) == events.take(k));
        assert(run(journal, events.take(k)) is Quarantine);
    } else {
        recovery_steps_are_justified(journal, before);
        assert(run(journal, events.take(last)) is Quarantine);
    }
}

/// The outcome of recovery is final.
pub proof fn finished_recovery_stays_finished(
    journal: PathView,
    events: Seq<EventView>,
    count: int,
)
    requires
        0 <= count <= events.len(),
        run(journal, events.take(count)) is Done || run(journal, events.take(count)) is Unreadable,
    ensures
        run(journal, events) == run(journal, events.take(count)),
    decreases events.len(),
{
    if count < events.len() {
        assert(events.drop_last().take(count) == events.take(count));
        finished_recovery_stays_finished(journal, events.drop_last(), count);
    } else {
        assert(events.take(count) == events);
    }
}

/// Whether one of the events read these bytes and decoded them to these lines.
pub open spec fn was_read(events: Seq<EventView>, bytes: Seq<u8>, parsed: Seq<ParsedView>) -> bool {
    events.contains(EventView::JournalRead { bytes, parsed })
}

/// What every step of recovery is entitled to, given the events so far.
pub open spec fn justified(events: Seq<EventView>, step: StepView) -> bool {
    match step {
        StepView::Quarantine { bytes, next } => exists|parsed: Seq<ParsedView>| #[trigger]
            was_read(events, bytes, parsed) && step_after_read(bytes, parsed) == step,
        StepView::Replace { bytes, records } => exists|original: Seq<u8>, parsed: Seq<ParsedView>|
            #[trigger]
            was_read(events, original, parsed) && bytes == original.push(NEWLINE)
                && original.len() > 0 && !ends_with_newline(original) && classification(
                parsed,
                false,
            ) == (OutcomeView::Clean { records }),
        StepView::Done { outcome: OutcomeView::Clean { records } } => records.len() == 0
            || exists|original: Seq<u8>, parsed: Seq<ParsedView>| #[trigger]
            was_read(events, original, parsed) && classification(
                parsed,
                ends_with_newline(original),
            ) == (OutcomeView::Clean { records }),
        _ => true,
    }
}

proof fn lemma_was_read_more(events: Seq<EventView>, bytes: Seq<u8>, parsed: Seq<ParsedView>)
    requires
        events.len() > 0,
        was_read(events.drop_last(), bytes, parsed),
    ensures
        was_read(events, bytes, parsed),
{
    let event = EventView::JournalRead { bytes, parsed };
    let k = choose|k: int| 0 <= k < events.drop_last().len() && events.drop_last()[k] == event;
    assert(events[k] == event);
}

proof fn lemma_justified_more(events: Seq<EventView>, step: StepView)
    requires
        events.len() > 0,
        justified(events.drop_last(), step),
    ensures
        justified(events, step),
{
    let before = events.drop_last();
    match step {
        StepView::Quarantine { bytes, next } => {
            let parsed = choose|parsed: Seq<ParsedView>| #[trigger]
                was_read(before, bytes, parsed) && step_after_read(bytes, parsed) == step;
            lemma_was_read_more(events, bytes, parsed);
        },
        StepView::Replace { bytes, records } => {
            let (original, parsed) = choose|original: Seq<u8>, parsed: Seq<ParsedView>|
                #[trigger]
                was_read(before, original, parsed) && bytes == original.push(NEWLINE)
                    && original.len() > 0 && !ends_with_newline(original) && classification(
                    parsed,
                    false,
                ) == (OutcomeView::Clean { records });
            lemma_was_read_more(events, original, parsed);
        },
        StepView::Done { outcome: OutcomeView::Clean { records } } => {
            if records.len() > 0 {
                let (original, parsed) = choose|original: Seq<u8>, parsed: Seq<ParsedView>|
                    #[trigger]
                    was_read(before, original, parsed) && classification(
                        parsed,
                        ends_with_newline(original),
                    ) == (OutcomeView::Clean { records });
                lemma_was_read_more(events, original, parsed);
            }
        },
        _ => {},
    }
}

/// Recovery preserves before it repairs, and replays nothing ambiguous.
///
/// For every sequence of events: bytes are only quarantined as they were read; the only bytes that
/// ever replace the journal are those that were read, clean but for a missing final newline, with
/// that newline added; and the records of a clean outcome are those of a journal that was read and
/// classified as clean.
pub proof fn recovery_steps_are_justified(journal: PathView, events: Seq<EventView>)
    ensures
        justified(events, run(journal, events)),
    decreases events.len(),
{
    if events.len() > 0 {
        let before = run(journal, events.drop_last());
        let event = events.last();
        recovery_steps_are_justified(journal, events.drop_last());
        lemma_justified_more(events, before);
        match (before, event) {
            (StepView::ReadJournal, EventView::JournalRead { bytes, parsed }) => {
                assert(events[events.len() - 1] == event);
                assert(was_read(events, bytes, parsed));
            },
            (StepView::Quarantine { bytes, next }, EventView::QuarantineWritten { path }) => {
                let parsed = choose|parsed: Seq<ParsedView>| #[trigger]
                    was_read(events, bytes, parsed) && step_after_read(bytes, parsed) == before;
                assert(was_read(events, bytes, parsed));
            },
            (StepView::Replace { bytes, records }, EventView::ReplacementWritten) => {
                let (original, parsed) = choose|original: Seq<u8>, parsed: Seq<ParsedView>|
                    #[trigger]
                    was_read(events, original, parsed) && bytes == original.push(NEWLINE)
                        && original.len() > 0 && !ends_with_newline(original) && classification(
                        parsed,
                        false,
                    ) == (OutcomeView::Clean { records });
                assert(was_read(events, original, parsed));
            },
            _ => {},
        }
    }
}

// ---------------------------------------------------------------------------------------------
// Diagnostics and evidence names
// ---------------------------------------------------------------------------------------------

/// The final name of a path, or `fallback`.
pub open spec fn name_or(path: PathView, fallback: Seq<char>) -> Seq<char> {
    match path.file_name {
        Some(name) => name,
        None => fallback,
    }
}

fn file_name_or(path: &FilePath, fallback: &str) -> (name: String)
    ensures
        name@ == name_or(path.deep_view(), fallback@),
{
    match &path.file_name {
        Some(name) => name.clone(),
        None => fallback.to_owned(),
    }
}

/// The final names of some paths.
pub open spec fn evidence_names(paths: Seq<PathView>) -> Seq<Seq<char>> {
    Seq::new(paths.len(), |i: int| name_or(paths[i], "unknown"@))
}

/// The startup diagnostic for an outcome. It names files, never directories or journal data.
pub open spec fn notice(journal: PathView, outcome: OutcomeView) -> Seq<char> {
    let name = name_or(journal, "operations.jsonl"@);
    match outcome {
        OutcomeView::NeedsOperatorRecovery(recovery) => "journal="@ + name + "; reason="@
            + reason_text(recovery.reason) + "; evidence_paths="@ + text::joined(
            evidence_names(recovery.evidence_paths),
            ","@,
        ) + "; validated_record_count="@ + text::decimal_text(recovery.validated_record_count),
        OutcomeView::PreservationFailed(failure) => "journal="@ + name
            + "; preservation_failure="@ + preservation_text(failure)
            + "; evidence_paths=unavailable; validated_record_count=0"@,
        OutcomeView::Corrupt { reason } => "journal="@ + name + "; reason="@ + reason_text(reason)
            + "; evidence_paths=unavailable; validated_record_count=0"@,
        OutcomeView::Clean { .. } => "clean"@,
    }
}

fn join_names(paths: &Vec<FilePath>) -> (names: String)
    ensures
        names@ == text::joined(evidence_names(paths.deep_view()), ","@),
{
    let mut names = String::new();
    let mut index: usize = 0;
    let ghost all = evidence_names(paths.deep_view());
    proof {
        assert(all.take(0) == Seq::<Seq<char>>::empty());
    }
    while index < paths.len()
        invariant
            index <= paths@.len(),
            all == evidence_names(paths.deep_view()),
            names@ == text::joined(all.take(index as int), ","@),
        decreases paths.len() - index,
    {
        let ghost before = names@;
        let name = file_name_or(&paths[index], "unknown");
        if index > 0 {
            names.append(",");
        }
        names.append(name.as_str());
        proof {
            assert(all.take(index + 1).drop_last() == all.take(index as int));
            assert(all.take(index + 1).last() == name@);
            if index == 0 {
                assert(before + name@ == name@);
            }
        }
        index += 1;
    }
    proof {
        assert(all.take(index as int) == all);
    }
    names
}

/// Formats the startup diagnostic for a recovery outcome.
pub fn recovery_notice(journal_path: &FilePath, outcome: &RecoveryOutcome) -> (text: String)
    ensures
        text@ == notice(journal_path.deep_view(), outcome.deep_view()),
{
    let name = file_name_or(journal_path, "operations.jsonl");
    match outcome {
        RecoveryOutcome::NeedsOperatorRecovery(recovery) => {
            let mut text = text::join3("journal=", name.as_str(), "; reason=");
            text.append(recovery.reason().describe().as_str());
            text.append("; evidence_paths=");
            text.append(join_names(recovery.evidence_paths()).as_str());
            text.append("; validated_record_count=");
            text.append(text::decimal(recovery.validated_record_count() as u128).as_str());
            text
        },
        RecoveryOutcome::PreservationFailed(failure) => {
            let mut text = text::join3("journal=", name.as_str(), "; preservation_failure=");
            text.append(failure.describe().as_str());
            text.append("; evidence_paths=unavailable; validated_record_count=0");
            text
        },
        RecoveryOutcome::Corrupt { reason } => {
            let mut text = text::join3("journal=", name.as_str(), "; reason=");
            text.append(reason.describe().as_str());
            text.append("; evidence_paths=unavailable; validated_record_count=0");
            text
        },
        RecoveryOutcome::Clean { .. } => "clean".to_owned(),
    }
}

/// One line for each path.
pub open spec fn path_lines(paths: Seq<Seq<char>>) -> Seq<char>
    decreases paths.len(),
{
    if paths.len() == 0 {
        Seq::empty()
    } else {
        path_lines(paths.drop_last()) + paths.last() + "\n"@
    }
}

/// The contents of the blocked marker.
pub open spec fn marker_body(
    reason: RecoveryReason,
    timestamp: Seq<char>,
    evidence: Seq<Seq<char>>,
) -> Seq<char> {
    "reason="@ + reason_text(reason) + "\ntimestamp="@ + timestamp + "\nevidence_paths=\n"@
        + path_lines(evidence)
}

/// Formats the contents of the blocked marker.
pub fn blocked_marker_body(
    reason: RecoveryReason,
    timestamp: &str,
    evidence: &Vec<String>,
) -> (body: String)
    ensures
        body@ == marker_body(reason, timestamp@, evidence.deep_view()),
{
    let mut body = "reason=".to_owned();
    body.append(reason.describe().as_str());
    body.append("\ntimestamp=");
    body.append(timestamp);
    body.append("\nevidence_paths=\n");
    let ghost head = body@;
    let ghost paths = evidence.deep_view();
    let mut index: usize = 0;
    proof {
        assert(paths.take(0) == Seq::<Seq<char>>::empty());
        assert(head + path_lines(paths.take(0)) == head);
    }
    while index < evidence.len()
        invariant
            index <= evidence@.len(),
            paths == evidence.deep_view(),
            body@ == head + path_lines(paths.take(index as int)),
        decreases evidence.len() - index,
    {
        body.append(evidence[index].as_str());
        body.append("\n");
        proof {
            assert(paths.take(index + 1).drop_last() == paths.take(index as int));
            assert(paths.take(index + 1).last() == evidence@[index as int]@);
            assert(body@ == head + path_lines(paths.take(index + 1)));
        }
        index += 1;
    }
    proof {
        assert(paths.take(index as int) == paths);
    }
    body
}

/// How often a fresh quarantine name is tried.
pub const QUARANTINE_ATTEMPTS: u64 = 64;

/// The suffix of a quarantine name.
pub open spec fn quarantine_suffix(timestamp: nat, digest: Seq<char>, nonce: u64) -> Seq<char> {
    let base = ".quarantine-"@ + text::decimal_text(timestamp) + "-"@ + digest;
    if nonce == 0 {
        base
    } else {
        base + "-"@ + text::hex_text(text::big_endian(nonce))
    }
}

/// The path of a quarantine file: the name of the journal, the time in milliseconds, the digest of
/// the bytes, and for every attempt but the first a sixteen-digit nonce.
pub fn quarantine_path(
    journal_path: &FilePath,
    timestamp: u128,
    digest: &str,
    nonce: u64,
) -> (quarantine: FilePath)
    ensures
        quarantine.deep_view() == path::with_suffix(
            journal_path.deep_view(),
            quarantine_suffix(timestamp as nat, digest@, nonce),
        ),
{
    let mut suffix = ".quarantine-".to_owned();
    suffix.append(text::decimal(timestamp).as_str());
    suffix.append("-");
    suffix.append(digest);
    if nonce != 0 {
        suffix.append("-");
        suffix.append(text::hex(&text::to_big_endian(nonce)).as_str());
    }
    path::append_suffix(journal_path, suffix.as_str())
}

/// The file that a quarantine is written to at an attempt, as long as there are attempts left.
pub open spec fn quarantine_target(
    journal: PathView,
    timestamp: nat,
    digest: Seq<char>,
    attempt: u64,
) -> Option<PathView> {
    if attempt < QUARANTINE_ATTEMPTS {
        Some(path::with_suffix(journal, quarantine_suffix(timestamp, digest, attempt)))
    } else {
        None
    }
}

/// Chooses the file that a quarantine is written to, after this many files were found to exist
/// already; nothing is left once every attempt was made.
pub fn write_quarantine(
    journal_path: &FilePath,
    timestamp: u128,
    digest: &str,
    attempt: u64,
) -> (target: Option<FilePath>)
    ensures
        target.deep_view() == quarantine_target(
            journal_path.deep_view(),
            timestamp as nat,
            digest@,
            attempt,
        ),
{
    if attempt < QUARANTINE_ATTEMPTS {
        Some(quarantine_path(journal_path, timestamp, digest, attempt))
    } else {
        None
    }
}

/// The first sixteen hexadecimal digits of the SHA-256 digest of some bytes.
pub fn quarantine_digest(bytes: &[u8]) -> (digest: String)
    requires
        bytes@.len() + 72 <= usize::MAX,
    ensures
        digest@ == text::hex_text(sha256::digest(bytes@)).take(16),
        digest@.len() == 16,
{
    let full = sha256::sha256_hex(bytes);
    let chars = text::to_chars(full.as_str());
    let part = text::slice_chars(&chars, 0, 16);
    text::from_chars(&part)
}

proof fn lemma_big_endian_injective(left: u64, right: u64)
    requires
        text::big_endian(left) == text::big_endian(right),
    ensures
        left == right,
{
    let a = text::big_endian(left);
    let b = text::big_endian(right);
    assert(a[0] == b[0] && a[1] == b[1] && a[2] == b[2] && a[3] == b[3]);
    assert(a[4] == b[4] && a[5] == b[5] && a[6] == b[6] && a[7] == b[7]);
    assert(((left >> 56) as u8 == (right >> 56) as u8 && (left >> 48) as u8 == (right >> 48) as u8
        && (left >> 40) as u8 == (right >> 40) as u8 && (left >> 32) as u8 == (right >> 32) as u8
        && (left >> 24) as u8 == (right >> 24) as u8 && (left >> 16) as u8 == (right >> 16) as u8
        && (left >> 8) as u8 == (right >> 8) as u8 && left as u8 == right as u8) ==> left == right)
        by (bit_vector);
}

proof fn lemma_hex_injective(left: Seq<u8>, right: Seq<u8>)
    requires
        text::hex_text(left) == text::hex_text(right),
        left.len() == right.len(),
    ensures
        left == right,
    decreases left.len(),
{
    if left.len() > 0 {
        let a = text::hex_text(left);
        let b = text::hex_text(right);
        text::lemma_hex_length(left.drop_last());
        text::lemma_hex_length(right.drop_last());
        let split = 2 * (left.len() - 1);
        assert(a.take(split) == text::hex_text(left.drop_last()));
        assert(b.take(split) == text::hex_text(right.drop_last()));
        lemma_hex_injective(left.drop_last(), right.drop_last());
        assert(a[split] == text::byte_hex(left.last())[0]);
        assert(b[split] == text::byte_hex(right.last())[0]);
        assert(a[split + 1] == text::byte_hex(left.last())[1]);
        assert(b[split + 1] == text::byte_hex(right.last())[1]);
        assert(left.last() as int / 16 == right.last() as int / 16);
        assert(left.last() as int % 16 == right.last() as int % 16);
        assert(left.last() == right.last());
        assert(left == left.drop_last().push(left.last()));
        assert(right == right.drop_last().push(right.last()));
    }
}

/// Two attempts to quarantine the same bytes never share a name, so no attempt can overwrite the
/// evidence of another.
pub proof fn quarantine_names_are_distinct(
    journal: PathView,
    timestamp: nat,
    digest: Seq<char>,
    first: u64,
    second: u64,
)
    requires
        first != second,
    ensures
        path::with_suffix(journal, quarantine_suffix(timestamp, digest, first))
            != path::with_suffix(journal, quarantine_suffix(timestamp, digest, second)),
{
    let a = quarantine_suffix(timestamp, digest, first);
    let b = quarantine_suffix(timestamp, digest, second);
    let name = path::name_or_empty(journal);
    if name + a == name + b {
        assert((name + a).skip(name.len() as int) == a);
        assert((name + b).skip(name.len() as int) == b);
        let base = ".quarantine-"@ + text::decimal_text(timestamp) + "-"@ + digest;
        reveal_strlit("-");
        if first == 0 {
            assert(b.len() > base.len());
        } else if second == 0 {
            assert(a.len() > base.len());
        } else {
            let head = base + "-"@;
            let left = text::hex_text(text::big_endian(first));
            let right = text::hex_text(text::big_endian(second));
            assert((head + left).skip(head.len() as int) == left);
            assert((head + right).skip(head.len() as int) == right);
            lemma_hex_injective(text::big_endian(first), text::big_endian(second));
            lemma_big_endian_injective(first, second);
        }
    }
}

/// A journal that holds a line that is no record.
#[derive(Clone, Copy, Debug, PartialEq, Eq, Structural)]
pub struct InvalidRecord;

impl InvalidRecord {
    /// Describes the error.
    pub fn message(&self) -> (message: String)
        ensures
            message@ == "invalid operation journal record"@,
    {
        "invalid operation journal record".to_owned()
    }
}

/// Takes the records out of what the lines of a journal decoded to. Every line must hold one.
pub fn load(parsed: Vec<ParsedLine>) -> (result: Result<Vec<JournalRecord>, InvalidRecord>)
    ensures
        match result {
            Ok(records) => loaded(parsed.deep_view()) == Some(records.deep_view()),
            Err(_) => loaded(parsed.deep_view()) is None,
        },
{
    let mut records: Vec<JournalRecord> = Vec::new();
    let mut index: usize = 0;
    while index < parsed.len()
        invariant
            index <= parsed@.len(),
            records@.len() == index,
            forall|i: int| 0 <= i < index ==> (#[trigger] parsed@[i]) is Record,
            forall|i: int|
                0 <= i < index ==> (#[trigger] records@[i]).deep_view()
                    == parsed@[i]->Record_0.deep_view(),
        decreases parsed.len() - index,
    {
        match &parsed[index] {
            ParsedLine::Record(record) => {
                records.push(record.duplicate());
            },
            _ => {
                proof {
                    assert(!(parsed.deep_view()[index as int] is Record));
                }
                return Err(InvalidRecord);
            },
        }
        index += 1;
    }
    proof {
        assert forall|i: int| 0 <= i < parsed@.len() implies (
        #[trigger] parsed.deep_view()[i]) is Record by {
            assert(parsed@[i] is Record);
        }
        assert(records.deep_view() =~= records_of(parsed.deep_view()));
    }
    Ok(records)
}

/// The blocked marker is there.
#[derive(Clone, Copy, Debug, PartialEq, Eq, Structural)]
pub struct RecoveryBlocked;

impl RecoveryBlocked {
    /// Describes the error.
    pub fn message(&self) -> (message: String)
        ensures
            message@ == "operation journal recovery is blocked"@,
    {
        "operation journal recovery is blocked".to_owned()
    }
}

/// The journal refuses every append and compaction while the blocked marker is there.
pub fn admit_mutation(marker_present: bool) -> (admitted: Result<(), RecoveryBlocked>)
    ensures
        admitted is Err <==> marker_present,
{
    if marker_present {
        Err(RecoveryBlocked)
    } else {
        Ok(())
    }
}

proof fn lemma_leading_records_end(parsed: Seq<ParsedView>)
    ensures
        leading_records(parsed) <= parsed.len(),
        forall|i: int|
            0 <= i < leading_records(parsed) ==> (#[trigger] parsed[i]) is Record,
        leading_records(parsed) < parsed.len() ==> !(parsed[leading_records(parsed) as int]
            is Record),
    decreases parsed.len(),
{
    if parsed.len() > 0 && parsed[0] is Record {
        let rest = parsed.drop_first();
        lemma_leading_records_end(rest);
        assert forall|i: int| 0 <= i < leading_records(parsed) implies (#[trigger] parsed[i])
            is Record by {
            if i > 0 {
                assert(rest[i - 1] == parsed[i]);
            }
        }
        if leading_records(parsed) < parsed.len() {
            assert(rest[leading_records(rest) as int] == parsed[leading_records(parsed) as int]);
        }
    }
}

/// What a journal is: clean exactly if every line is a record and their phases follow each other, in
/// which case its records are those of its lines; in need of an operator exactly if its last line
/// alone is no record, was cut off, and has no end; and corrupt otherwise, for the reason that
/// applies.
pub proof fn journals_are_classified_by_their_lines(parsed: Seq<ParsedView>, terminated: bool)
    ensures
        ({
            let outcome = classification(parsed, terminated);
            let whole = forall|i: int|
                0 <= i < parsed.len() ==> (#[trigger] parsed[i]) is Record;
            let all_but_last = parsed.len() > 0 && !(parsed.last() is Record) && forall|i: int|
                0 <= i < parsed.len() - 1 ==> (#[trigger] parsed[i]) is Record;
            let cut_off = all_but_last && !terminated && parsed.last() is Incomplete;
            &&& outcome is Clean <==> whole && journal::replay(records_of(parsed)) is Ok
            &&& outcome is Clean ==> {
                &&& outcome->Clean_records.len() == parsed.len()
                &&& forall|i: int|
                    0 <= i < parsed.len() ==> #[trigger] parsed[i] == ParsedView::Record(
                        outcome->Clean_records[i],
                    )
            }
            &&& outcome is NeedsOperatorRecovery <==> cut_off
            &&& cut_off ==> {
                &&& outcome->NeedsOperatorRecovery_0.reason
                    == RecoveryReason::IncompleteUnterminatedSuffix
                &&& outcome->NeedsOperatorRecovery_0.validated_record_count == parsed.len() - 1
            }
            &&& all_but_last && !cut_off ==> outcome == (OutcomeView::Corrupt {
                reason: RecoveryReason::MalformedFinalRecord,
            })
            &&& !whole && !all_but_last ==> outcome == (OutcomeView::Corrupt {
                reason: RecoveryReason::MalformedMiddleRecord,
            })
            &&& whole && journal::replay(records_of(parsed)) is Err ==> outcome == (
            OutcomeView::Corrupt { reason: RecoveryReason::InvalidPhaseSequence })
        }),
{
    lemma_leading_records_end(parsed);
    let valid = leading_records(parsed) as int;
    if valid < parsed.len() {
        assert(!(parsed[valid] is Record));
    }
}

/// Recovery takes a journal that it has read where it belongs. A clean one is left alone, or, if
/// only its final newline is missing, preserved and replaced by itself with that newline; one that
/// was cut off is preserved and blocked, with both files as evidence; a corrupt one is preserved and
/// reported. A journal that is not there is clean and empty.
pub proof fn journals_are_recovered_by_their_class(
    journal: PathView,
    bytes: Seq<u8>,
    parsed: Seq<ParsedView>,
    quarantine: PathView,
)
    ensures
        next_step(journal, StepView::InspectMarker, EventView::MarkerAbsent)
            == StepView::ReadJournal,
        next_step(journal, StepView::ReadJournal, EventView::JournalMissing) == (StepView::Done {
            outcome: OutcomeView::Clean { records: Seq::empty() },
        }),
        ({
            let terminated = bytes.len() > 0 && bytes.last() == NEWLINE;
            let outcome = classification(parsed, terminated);
            let read = next_step(
                journal,
                StepView::ReadJournal,
                EventView::JournalRead { bytes, parsed },
            );
            let kept = next_step(
                journal,
                read,
                EventView::QuarantineWritten { path: quarantine },
            );
            &&& outcome is Clean && (bytes.len() == 0 || terminated) ==> read == (StepView::Done {
                outcome,
            })
            &&& !(outcome is Clean && (bytes.len() == 0 || terminated)) ==> read is Quarantine
                && read->Quarantine_bytes == bytes
            &&& outcome is Clean && bytes.len() > 0 && !terminated ==> {
                &&& kept is Replace
                &&& kept->Replace_bytes == bytes.push(NEWLINE)
                &&& next_step(journal, kept, EventView::ReplacementWritten) == (StepView::Done {
                    outcome,
                })
            }
            &&& outcome is NeedsOperatorRecovery ==> {
                let blocked = next_step(journal, kept, EventView::MarkerWritten);
                &&& kept is WriteMarker
                &&& blocked is Done
                &&& blocked->outcome is NeedsOperatorRecovery
                &&& blocked->outcome->NeedsOperatorRecovery_0.evidence_paths == seq![
                    quarantine,
                    marker_path(journal),
                ]
                &&& blocked->outcome->NeedsOperatorRecovery_0.validated_record_count
                    == parsed.len() - 1
            }
            &&& outcome is Corrupt ==> kept == (StepView::Done { outcome })
        }),
{
    journals_are_classified_by_their_lines(parsed, bytes.len() > 0 && bytes.last() == NEWLINE);
}

/// A step of preservation that fails ends recovery, and says which step it was.
pub proof fn failed_preservation_is_reported(journal: PathView, step: StepView)
    ensures
        step is Quarantine ==> next_step(journal, step, EventView::QuarantineFailed) == (
        StepView::Done {
            outcome: OutcomeView::PreservationFailed(PreservationFailure::QuarantineWrite),
        }),
        step is WriteMarker ==> next_step(journal, step, EventView::MarkerFailed) == (
        StepView::Done {
            outcome: OutcomeView::PreservationFailed(PreservationFailure::MarkerWrite),
        }),
        step is Replace ==> next_step(journal, step, EventView::ReplacementFailed) == (
        StepView::Done {
            outcome: OutcomeView::PreservationFailed(PreservationFailure::Replacement),
        }),
{
}

/// A blocked journal is told of with the marker beside it as its evidence. Markers and quarantined
/// bytes lie beside their journal.
pub proof fn evidence_lies_beside_the_journal(
    journal: PathView,
    timestamp: nat,
    digest: Seq<char>,
    attempt: u64,
)
    ensures
        marker_path(journal).directory == journal.directory,
        marker_path(journal) != journal,
        blocked(journal) is NeedsOperatorRecovery,
        blocked(journal)->NeedsOperatorRecovery_0.reason == RecoveryReason::BlockedMarkerPresent,
        blocked(journal)->NeedsOperatorRecovery_0.evidence_paths == seq![marker_path(journal)],
        quarantine_target(journal, timestamp, digest, attempt) is Some <==> attempt
            < QUARANTINE_ATTEMPTS,
        quarantine_target(journal, timestamp, digest, attempt) is Some ==> quarantine_target(
            journal,
            timestamp,
            digest,
            attempt,
        )->0.directory == journal.directory,
{
    reveal_strlit(".recovery-blocked");
    if journal.file_name is Some {
        assert(marker_path(journal).file_name->0.len() == journal.file_name->0.len()
            + MARKER_SUFFIX@.len());
    }
}

} // verus!
