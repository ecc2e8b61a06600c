//! Retention of log files: the oldest are removed until as many are left as are kept.

use vstd::prelude::*;

use crate::model::Duplicate;
use crate::model::Timestamp;
use crate::text;

verus! {

/// How the names of the service's log files begin.
pub const SERVICE_LOG_PREFIX: &'static str = "spotter-svc.log";

/// Whether a file is a log file of the service, by its name.
pub open spec fn names_service_log(name: Seq<char>) -> bool {
    "spotter-svc.log"@.is_prefix_of(name)
}

/// Decides whether a file is a log file of the service.
pub fn is_service_log(name: &str) -> (is: bool)
    ensures
        is == names_service_log(name@),
{
    let chars = text::to_chars(name);
    let prefix = text::to_chars("spotter-svc.log");
    text::starts_with(chars.as_slice(), prefix.as_slice())
}

/// A log file and when it was modified.
#[derive(Clone, Debug, PartialEq, Eq)]
pub struct LogFile {
    pub modified: Timestamp,
    pub name: String,
}

/// The deep view of a [`LogFile`].
#[verifier::ext_equal]
pub struct LogView {
    pub modified: Timestamp,
    pub name: Seq<char>,
}

impl DeepView for LogFile {
    type V = LogView;

    open spec fn deep_view(&self) -> LogView {
        LogView { modified: self.modified, name: self.name@ }
    }
}

impl Duplicate for LogFile {
    fn duplicate(&self) -> (copy: Self) {
        LogFile { modified: self.modified, name: self.name.clone() }
    }
}

/// Whether an instant comes before another.
pub open spec fn earlier(left: Timestamp, right: Timestamp) -> bool {
    left.seconds < right.seconds || left.seconds == right.seconds && left.nanos < right.nanos
}

/// Whether a log file goes before another: it is older, or as old and first by its name.
pub open spec fn older(left: LogView, right: LogView) -> bool {
    earlier(left.modified, right.modified) || left.modified == right.modified && text::precedes(
        left.name,
        right.name,
    )
}

fn is_older(left: &LogFile, right: &LogFile) -> (is: bool)
    ensures
        is == older(left.deep_view(), right.deep_view()),
{
    if left.modified.seconds < right.modified.seconds {
        return true;
    }
    if left.modified.seconds > right.modified.seconds {
        return false;
    }
    if left.modified.nanos < right.modified.nanos {
        return true;
    }
    if left.modified.nanos > right.modified.nanos {
        return false;
    }
    text::is_before(left.name.as_str(), right.name.as_str())
}

/// Whether log files stand in order, none before one that is older.
pub open spec fn in_order(logs: Seq<LogView>) -> bool {
    forall|i: int, j: int|
        0 <= i < j < logs.len() ==> !older(#[trigger] logs[j], #[trigger] logs[i])
}

/// Why retention cannot be enforced.
#[derive(Clone, Copy, Debug, PartialEq, Eq, Structural)]
pub struct ZeroRetention;

impl ZeroRetention {
    /// Describes the error.
    pub fn message(&self) -> (message: String)
        ensures
            message@ == "logging.max_files must be nonzero"@,
    {
        "logging.max_files must be nonzero".to_owned()
    }
}

/// The position at which a log file is inserted among others in order: after all that are not
/// younger.
pub open spec fn insertion_point(sorted: Seq<LogView>, log: LogView, from: int) -> int
    decreases sorted.len() - from,
{
    if from >= sorted.len() {
        sorted.len() as int
    } else if older(log, sorted[from]) {
        from
    } else {
        insertion_point(sorted, log, from + 1)
    }
}

/// Log files in order, oldest first; of equal ones the first stays first.
pub open spec fn sorted_logs(logs: Seq<LogView>) -> Seq<LogView>
    decreases logs.len(),
{
    if logs.len() == 0 {
        Seq::empty()
    } else {
        let before = sorted_logs(logs.drop_last());
        before.insert(insertion_point(before, logs.last(), 0), logs.last())
    }
}

/// The log files to remove, oldest first, so that no more than `keep` are left.
pub open spec fn surplus_logs(logs: Seq<LogView>, keep: nat) -> Seq<LogView> {
    if logs.len() <= keep {
        Seq::empty()
    } else {
        sorted_logs(logs).take(logs.len() - keep)
    }
}

proof fn lemma_insertion_point(sorted: Seq<LogView>, log: LogView, from: int)
    requires
        0 <= from <= sorted.len(),
    ensures
        from <= insertion_point(sorted, log, from) <= sorted.len(),
        insertion_point(sorted, log, from) < sorted.len() ==> older(
            log,
            sorted[insertion_point(sorted, log, from)],
        ),
        forall|i: int|
            from <= i < insertion_point(sorted, log, from) ==> !older(log, #[trigger] sorted[i]),
    decreases sorted.len() - from,
{
    if from < sorted.len() && !older(log, sorted[from]) {
        lemma_insertion_point(sorted, log, from + 1);
    }
}

proof fn lemma_older_is_an_order(a: LogView, b: LogView, c: LogView)
    ensures
        older(a, b) && older(b, c) ==> older(a, c),
        older(a, b) ==> !older(b, a),
        older(a, b) && !older(c, b) ==> !older(c, a),
{
    text::text_order_is_total(a.name, b.name, c.name);
    text::text_order_is_total(b.name, c.name, a.name);
    text::text_order_is_total(c.name, a.name, b.name);
    text::text_order_is_total(c.name, b.name, a.name);
}

/// Sorting log files keeps them all and puts them in order.
pub proof fn sorting_keeps_and_orders_logs(logs: Seq<LogView>)
    ensures
        sorted_logs(logs).len() == logs.len(),
        sorted_logs(logs).to_multiset() == logs.to_multiset(),
        in_order(sorted_logs(logs)),
    decreases logs.len(),
{
    if logs.len() == 0 {
        assert(sorted_logs(logs) =~= logs);
    } else {
        let before = sorted_logs(logs.drop_last());
        let log = logs.last();
        sorting_keeps_and_orders_logs(logs.drop_last());
        lemma_insertion_point(before, log, 0);
        let point = insertion_point(before, log, 0);
        let after = before.insert(point, log);
        vstd::seq_lib::to_multiset_insert(before, point, log);
        assert(logs =~= logs.drop_last().push(log));
        vstd::seq_lib::to_multiset_build(logs.drop_last(), log);
        assert forall|i: int, j: int| 0 <= i < j < after.len() implies !older(
            #[trigger] after[j],
            #[trigger] after[i],
        ) by {
            if j == point {
                assert(after[i] == before[i]);
            } else if i == point {
                assert(after[j] == before[j - 1]);
                if j - 1 > point {
                    lemma_older_is_an_order(log, before[point], before[j - 1]);
                } else {
                    lemma_older_is_an_order(log, before[point], before[point]);
                }
            } else {
                let p = if i < point {
                    i
                } else {
                    i - 1
                };
                let q = if j < point {
                    j
                } else {
                    j - 1
                };
                assert(after[i] == before[p]);
                assert(after[j] == before[q]);
            }
        }
    }
}

/// The log files of the service among some files, in the same order.
pub open spec fn service_logs(files: Seq<LogView>) -> Seq<LogView>
    decreases files.len(),
{
    if files.len() == 0 {
        Seq::empty()
    } else {
        let before = service_logs(files.drop_last());
        if names_service_log(files.last().name) {
            before.push(files.last())
        } else {
            before
        }
    }
}

fn select_logs(files: &Vec<LogFile>) -> (logs: Vec<LogFile>)
    ensures
        logs.deep_view() == service_logs(files.deep_view()),
{
    let ghost views = files.deep_view();
    let mut logs: Vec<LogFile> = Vec::new();
    let mut index: usize = 0;
    proof {
        assert(logs.deep_view() =~= Seq::empty());
        assert(views.take(0) =~= Seq::empty());
    }
    while index < files.len()
        invariant
            index <= files@.len(),
            views == files.deep_view(),
            logs.deep_view() == service_logs(views.take(index as int)),
        decreases files.len() - index,
    {
        let ghost before = logs.deep_view();
        proof {
            assert(views.take(index as int + 1).drop_last() =~= views.take(index as int));
            assert(views.take(index as int + 1).last() == files[index as int].deep_view());
        }
        if is_service_log(files[index].name.as_str()) {
            logs.push(files[index].duplicate());
            proof {
                assert(logs.deep_view() =~= before.push(files[index as int].deep_view()));
            }
        }
        index += 1;
    }
    proof {
        assert(views.take(views.len() as int) =~= views);
    }
    logs
}

/// The log files of the service are the files that are named as such, and no others.
pub proof fn lemma_service_logs(files: Seq<LogView>)
    ensures
        forall|i: int|
            0 <= i < service_logs(files).len() ==> names_service_log(
                #[trigger] service_logs(files)[i].name,
            ),
        forall|log: LogView|
            service_logs(files).contains(log) <==> files.contains(log) && names_service_log(
                log.name,
            ),
    decreases files.len(),
{
    if files.len() > 0 {
        let before = service_logs(files.drop_last());
        lemma_service_logs(files.drop_last());
        assert(files =~= files.drop_last().push(files.last()));
        assert forall|log: LogView|
            service_logs(files).contains(log) <==> files.contains(log) && names_service_log(
                log.name,
            ) by {
            vstd::seq_lib::lemma_seq_contains_after_push(files.drop_last(), files.last(), log);
            vstd::seq_lib::lemma_seq_contains_after_push(before, files.last(), log);
        }
    }
}

/// Chooses the log files to remove so that no more than `max_files` are left.
pub fn prune_logs(files: &Vec<LogFile>, max_files: u32) -> (result: Result<
    Vec<LogFile>,
    ZeroRetention,
>)
    ensures
        match result {
            Err(_) => max_files == 0,
            Ok(removed) => max_files != 0 && removed.deep_view() == surplus_logs(
                service_logs(files.deep_view()),
                max_files as nat,
            ),
        },
{
    if max_files == 0 {
        return Err(ZeroRetention);
    }
    let logs = select_logs(files);
    let ghost views = logs.deep_view();
    let mut sorted: Vec<LogFile> = Vec::new();
    let mut index: usize = 0;
    proof {
        assert(sorted.deep_view() =~= Seq::empty());
        assert(views.take(0) =~= Seq::empty());
    }
    while index < logs.len()
        invariant
            index <= logs@.len(),
            views == logs.deep_view(),
            sorted@.len() == index,
            sorted.deep_view() == sorted_logs(views.take(index as int)),
        decreases logs.len() - index,
    {
        let ghost before = sorted.deep_view();
        let log = logs[index].duplicate();
        let ghost view = log.deep_view();
        proof {
            assert(views.take(index as int + 1).drop_last() =~= views.take(index as int));
            assert(views.take(index as int + 1).last() == view);
        }
        let mut point: usize = 0;
        while point < sorted.len() && !is_older(&log, &sorted[point])
            invariant
                point <= sorted@.len(),
                sorted.deep_view() == before,
                log.deep_view() == view,
                insertion_point(before, view, 0) == insertion_point(before, view, point as int),
            decreases sorted.len() - point,
        {
            point += 1;
        }
        sorted.insert(point, log);
        proof {
            assert(sorted.deep_view() =~= before.insert(point as int, view));
        }
        index += 1;
    }
    proof {
        assert(views.take(views.len() as int) =~= views);
    }
    let count: usize = sorted.len();
    let keep: usize = max_files as usize;
    if count <= keep {
        let removed: Vec<LogFile> = Vec::new();
        proof {
            assert(removed.deep_view() =~= Seq::empty());
        }
        return Ok(removed);
    }
    let ghost all = sorted.deep_view();
    sorted.truncate(count - keep);
    proof {
        assert(sorted.deep_view() =~= all.take(count - keep));
    }
    Ok(sorted)
}

/// Retention keeps the youngest log files: as many are left as are kept, or all if there are
/// fewer, and none that is removed is younger than one that is left. Of the files only log files
/// of the service are removed.
pub proof fn retention_removes_the_oldest(files: Seq<LogView>, keep: nat)
    ensures
        ({
            let logs = service_logs(files);
            let removed = surplus_logs(logs, keep);
            let sorted = sorted_logs(logs);
            let left = sorted.skip(removed.len() as int);
            &&& sorted.to_multiset() == logs.to_multiset()
            &&& sorted == removed + left
            &&& left.len() <= keep
            &&& logs.len() >= keep ==> left.len() == keep
            &&& forall|i: int, j: int|
                0 <= i < removed.len() && 0 <= j < left.len() ==> !older(
                    #[trigger] left[j],
                    #[trigger] removed[i],
                )
            &&& forall|i: int|
                0 <= i < removed.len() ==> files.contains(#[trigger] removed[i])
                    && names_service_log(removed[i].name)
        }),
{
    let logs = service_logs(files);
    lemma_service_logs(files);
    sorting_keeps_and_orders_logs(logs);
    let removed = surplus_logs(logs, keep);
    let sorted = sorted_logs(logs);
    let left = sorted.skip(removed.len() as int);
    assert(sorted =~= removed + left);
    assert forall|i: int, j: int| 0 <= i < removed.len() && 0 <= j < left.len() implies !older(
        #[trigger] left[j],
        #[trigger] removed[i],
    ) by {
        assert(left[j] == sorted[removed.len() + j]);
        assert(removed[i] == sorted[i]);
    }
    assert forall|i: int| 0 <= i < removed.len() implies files.contains(#[trigger] removed[i])
        && names_service_log(removed[i].name) by {
        assert(sorted[i] == removed[i]);
        sorted.to_multiset_ensures();
        logs.to_multiset_ensures();
        assert(sorted.to_multiset().contains(sorted[i]));
        assert(logs.contains(removed[i]));
    }
}

/// Of two logs, the one that was written to earlier is the older, to the nanosecond and whatever
/// their names; of two that were written to at once, the one whose name comes first. No two
/// different logs are equally old, and none is older than itself.
pub proof fn logs_are_ordered_by_time_and_name(a: LogView, b: LogView)
    ensures
        a.modified.seconds < b.modified.seconds ==> older(a, b) && !older(b, a),
        a.modified.seconds == b.modified.seconds && a.modified.nanos < b.modified.nanos ==> older(
            a,
            b,
        ) && !older(b, a),
        a.modified == b.modified ==> (older(a, b) <==> text::precedes(a.name, b.name)),
        a != b ==> older(a, b) || older(b, a),
        !older(a, a),
{
    text::text_order_is_total(a.name, b.name, b.name);
    text::text_order_is_total(a.name, a.name, a.name);
}

/// Logs are those of the service by their names alone: the name of the service's log, and whatever
/// follows it.
pub proof fn rotated_logs_are_service_logs(name: Seq<char>, suffix: Seq<char>)
    ensures
        names_service_log("spotter-svc.log"@ + suffix),
        names_service_log(name) <==> exists|rest: Seq<char>| name == "spotter-svc.log"@ + rest,
{
    let stem = "spotter-svc.log"@;
    assert((stem + suffix).take(stem.len() as int) =~= stem);
    assert(stem.is_prefix_of(stem + suffix));
    if names_service_log(name) {
        assert(name =~= stem + name.skip(stem.len() as int));
    }
    if exists|rest: Seq<char>| name == stem + rest {
        let rest = choose|rest: Seq<char>| name == stem + rest;
        assert((stem + rest).take(stem.len() as int) =~= stem);
        assert(stem.is_prefix_of(stem + rest));
    }
}

/// Nothing is removed while there are no more logs than are kept.
pub proof fn few_logs_are_kept(files: Seq<LogView>, keep: nat)
    ensures
        files.len() <= keep ==> surplus_logs(service_logs(files), keep).len() == 0,
        service_logs(files).len() > keep ==> surplus_logs(service_logs(files), keep).len()
            == service_logs(files).len() - keep,
{
    lemma_no_more_logs(files);
    sorting_keeps_and_orders_logs(service_logs(files));
}

proof fn lemma_no_more_logs(files: Seq<LogView>)
    ensures
        service_logs(files).len() <= files.len(),
    decreases files.len(),
{
    if files.len() > 0 {
        lemma_no_more_logs(files.drop_last());
    }
}

} // verus!
