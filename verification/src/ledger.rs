//! The transfer ledger: files being pushed to a device, and the pushes that
//! are over.
//!
//! A push is entered as active when it begins, and moves to the front of
//! the history when it ends. The active pushes are told apart by their
//! identifier: a push that begins under the identifier of an active push
//! takes its place. Running the push, measuring the file and reading the
//! clock are the application's business.

use crate::errors::{heading, AppError, ErrorKind, ErrorView};
use crate::gateway::ProcessOutput;
use crate::models::{copy_opt, opt_text, str_is, TransferItem, TransferItemView, TransferStatus};
use crate::number::{decimal_digits, write_decimal};
use crate::text::{append, append_str, chars_of, string_of, texts};
use vstd::prelude::*;

verus! {

/// The time `seconds` and `nanos` after the beginning of 1970, written as
/// RFC 3339 asks for it; none where the time cannot be written.
pub uninterp spec fn rfc3339_text(seconds: i64, nanos: u32) -> Option<Seq<char>>;

/// `DateTime::from_timestamp` of the `chrono` crate makes the time in UTC
/// from seconds and nanoseconds since the beginning of 1970, or nothing
/// where they are out of range; `DateTime::to_rfc3339` writes that time as
/// text. Neither reads a clock, a time zone or a locale. The contract only
/// gives the text the name [`rfc3339_text`].
#[verifier::external_body]
fn format_rfc3339(seconds: i64, nanos: u32) -> (text: Option<String>)
    ensures
        opt_text(text) == rfc3339_text(seconds, nanos),
{
    match chrono::DateTime::from_timestamp(seconds, nanos) {
        Some(time) => Some(time.to_rfc3339()),
        None => None,
    }
}

/// The pushes that are running, and those that are over.
#[derive(Clone, Debug, PartialEq, Eq)]
pub struct TransferLedger {
    /// The pushes that are running, oldest first.
    pub active: Vec<TransferItem>,
    /// The pushes that are over, newest first.
    pub history: Vec<TransferItem>,
}

/// The views of a vector of transfers.
pub open spec fn item_views(items: Seq<TransferItem>) -> Seq<TransferItemView> {
    items.map_values(|t: TransferItem| t@)
}

/// A ledger as the views of its two lists.
pub struct LedgerView {
    pub active: Seq<TransferItemView>,
    pub history: Seq<TransferItemView>,
}

impl View for TransferLedger {
    type V = LedgerView;

    open spec fn view(&self) -> LedgerView {
        LedgerView { active: item_views(self.active@), history: item_views(self.history@) }
    }
}

/// The history as it is kept when a push ends: its newest fifty entries.
pub open spec fn capped(history: Seq<TransferItemView>) -> Seq<TransferItemView> {
    if history.len() > 50 {
        history.take(50)
    } else {
        history
    }
}

/// The identifier of a push that begins `millis` milliseconds after the
/// beginning of 1970.
pub open spec fn id_of(millis: nat) -> Seq<char> {
    "transfer_"@ + decimal_digits(millis)
}

/// Where a pushed file comes to lie on the device.
pub open spec fn destination(dest_dir: Seq<char>, file_name: Seq<char>) -> Seq<char> {
    "/sdcard/"@ + dest_dir + "/"@ + file_name
}

/// The name under which a file is pushed: its own, or `unknown`.
pub open spec fn pushed_name(file_name: Option<&str>) -> Seq<char> {
    match file_name {
        Some(name) => name@,
        None => "unknown"@,
    }
}

/// The push as it is entered when it begins.
pub open spec fn begun(
    id: Seq<char>,
    source_path: Seq<char>,
    file_name: Seq<char>,
    dest_dir: Seq<char>,
    size_bytes: u64,
    started_at: Seq<char>,
) -> TransferItemView {
    TransferItemView {
        id,
        file_name,
        source_path,
        dest_path: destination(dest_dir, file_name),
        size_bytes,
        transferred_bytes: 0,
        status: TransferStatus::Transferring,
        error: None,
        started_at,
    }
}

/// The arguments of the command that pushes `source` to `dest`.
pub open spec fn push_arguments(serial: Seq<char>, source: Seq<char>, dest: Seq<char>) -> Seq<
    Seq<char>,
> {
    seq!["-s"@, serial, "push"@, source, dest]
}

/// The push as it stands when the command is over: complete with all bytes
/// transferred, or failed with what the command wrote to standard error,
/// or with the reason why it could not be started.
pub open spec fn finished(item: TransferItemView, outcome: Result<ProcessOutput, String>)
    -> TransferItemView {
    match outcome {
        Ok(output) => if output.success {
            TransferItemView {
                status: TransferStatus::Complete,
                transferred_bytes: item.size_bytes,
                ..item
            }
        } else {
            TransferItemView {
                status: TransferStatus::Failed,
                error: Some(output.stderr@),
                ..item
            }
        },
        Err(reason) => TransferItemView {
            status: TransferStatus::Failed,
            error: Some("Failed to execute adb: "@ + reason@),
            ..item
        },
    }
}

/// One of `items` has the identifier `id`.
pub open spec fn has_id(items: Seq<TransferItemView>, id: Seq<char>) -> bool {
    exists|i: int| 0 <= i < items.len() && (#[trigger] items[i]).id == id
}

/// No two of `items` have one identifier.
pub open spec fn distinct_ids(items: Seq<TransferItemView>) -> bool {
    forall|i: int, j: int|
        0 <= i < j < items.len() ==> (#[trigger] items[i]).id != (#[trigger] items[j]).id
}

/// `items` without those that have the identifier `id`, in order.
pub open spec fn without_id(items: Seq<TransferItemView>, id: Seq<char>) -> Seq<TransferItemView>
    decreases items.len(),
{
    if items.len() == 0 {
        Seq::empty()
    } else if items.last().id == id {
        without_id(items.drop_last(), id)
    } else {
        without_id(items.drop_last(), id).push(items.last())
    }
}

/// The active pushes once `item` has begun: `item` is the newest, and an
/// active push that had its identifier is forgotten.
pub open spec fn entered(active: Seq<TransferItemView>, item: TransferItemView) -> Seq<
    TransferItemView,
> {
    without_id(active, item.id).push(item)
}

/// The ledger once the push `done` has ended: no push with its identifier
/// is active, and `done` stands at the front of the history, of which the
/// newest fifty entries are kept.
pub open spec fn ended(ledger: LedgerView, done: TransferItemView) -> LedgerView {
    LedgerView {
        active: without_id(ledger.active, done.id),
        history: capped(seq![done] + ledger.history),
    }
}

/// The index of the first of `items` with the identifier `id`.
pub open spec fn position_of(items: Seq<TransferItemView>, id: Seq<char>) -> Option<int>
    decreases items.len(),
{
    if items.len() == 0 {
        None
    } else if items[0].id == id {
        Some(0)
    } else {
        match position_of(items.skip(1), id) {
            Some(at) => Some(at + 1),
            None => None,
        }
    }
}

/// The failure of a transfer that is not active.
pub open spec fn not_found(id: Seq<char>) -> ErrorView {
    ErrorView { kind: ErrorKind::TransferError, detail: "Transfer "@ + id + " not found"@ }
}

/// `position_of` gives the least index with the identifier, and none
/// exactly where no item has it.
pub proof fn lemma_position_of(items: Seq<TransferItemView>, id: Seq<char>)
    ensures
        match position_of(items, id) {
            Some(at) => 0 <= at < items.len() && items[at].id == id && forall|k: int|
                0 <= k < at ==> (#[trigger] items[k]).id != id,
            None => forall|k: int| 0 <= k < items.len() ==> (#[trigger] items[k]).id != id,
        },
    decreases items.len(),
{
    if items.len() > 0 && items[0].id != id {
        let rest = items.skip(1);
        lemma_position_of(rest, id);
        match position_of(rest, id) {
            Some(at) => {
                assert(rest[at] == items[at + 1]);
                assert forall|k: int| 0 <= k < at + 1 implies (#[trigger] items[k]).id != id by {
                    if k > 0 {
                        assert(rest[k - 1] == items[k]);
                    }
                }
            },
            None => {
                assert forall|k: int| 0 <= k < items.len() implies (#[trigger] items[k]).id
                    != id by {
                    if k > 0 {
                        assert(rest[k - 1] == items[k]);
                    }
                }
            },
        }
    }
}

/// Forgetting an identifier leaves no push with it, keeps every other push
/// in its place among the others, keeps the identifiers distinct, and
/// changes nothing where no push has the identifier.
pub proof fn lemma_without_id(items: Seq<TransferItemView>, id: Seq<char>)
    ensures
        without_id(items, id).len() <= items.len(),
        !has_id(without_id(items, id), id),
        forall|other: Seq<char>|
            #![trigger has_id(without_id(items, id), other)]
            #![trigger has_id(items, other)]
            has_id(without_id(items, id), other) <==> has_id(items, other) && other != id,
        distinct_ids(items) ==> distinct_ids(without_id(items, id)),
        !has_id(items, id) ==> without_id(items, id) == items,
    decreases items.len(),
{
    if items.len() > 0 {
        let rest = items.drop_last();
        let last = items.last();
        lemma_without_id(rest, id);
        let w = without_id(items, id);
        let wr = without_id(rest, id);
        assert(items[items.len() - 1] == last);
        assert forall|other: Seq<char>|
            #![trigger has_id(w, other)]
            #![trigger has_id(items, other)]
            has_id(w, other) <==> has_id(items, other) && other != id by {
            if has_id(w, other) {
                let k = choose|k: int| 0 <= k < w.len() && (#[trigger] w[k]).id == other;
                if k < wr.len() {
                    assert(w[k] == wr[k]);
                    assert(has_id(wr, other));
                    let i = choose|i: int| 0 <= i < rest.len() && (#[trigger] rest[i]).id == other;
                    assert(items[i] == rest[i]);
                } else {
                    assert(w[k] == last);
                }
            }
            if has_id(items, other) && other != id {
                let i = choose|i: int| 0 <= i < items.len() && (#[trigger] items[i]).id == other;
                if i < rest.len() {
                    assert(rest[i] == items[i]);
                    assert(has_id(rest, other));
                    let k = choose|k: int| 0 <= k < wr.len() && (#[trigger] wr[k]).id == other;
                    assert(w[k] == wr[k]);
                } else {
                    assert(w[w.len() - 1] == last);
                }
            }
        }
        if has_id(w, id) {
            let k = choose|k: int| 0 <= k < w.len() && (#[trigger] w[k]).id == id;
            if k < wr.len() {
                assert(w[k] == wr[k]);
                assert(has_id(wr, id));
            } else {
                assert(w[k] == last);
            }
        }
        if distinct_ids(items) {
            assert(distinct_ids(rest)) by {
                assert forall|i: int, j: int| 0 <= i < j < rest.len() implies (
                #[trigger] rest[i]).id != (#[trigger] rest[j]).id by {
                    assert(rest[i] == items[i]);
                    assert(rest[j] == items[j]);
                }
            }
            assert forall|i: int, j: int| 0 <= i < j < w.len() implies (#[trigger] w[i]).id != (
            #[trigger] w[j]).id by {
                if j < wr.len() {
                    assert(w[i] == wr[i]);
                    assert(w[j] == wr[j]);
                } else {
                    assert(w[i] == wr[i]);
                    assert(w[j] == last);
                    assert(has_id(wr, wr[i].id));
                    let k = choose|k: int|
                        0 <= k < rest.len() && (#[trigger] rest[k]).id == wr[i].id;
                    assert(rest[k] == items[k]);
                }
            }
        }
        if !has_id(items, id) {
            assert(!has_id(rest, id)) by {
                if has_id(rest, id) {
                    let i = choose|i: int| 0 <= i < rest.len() && (#[trigger] rest[i]).id == id;
                    assert(items[i] == rest[i]);
                }
            }
            assert(wr.push(last) =~= items);
        }
    } else {
        assert(without_id(items, id) =~= items);
    }
}

/// A push that begins keeps the identifiers of the active pushes distinct.
pub proof fn lemma_entered(active: Seq<TransferItemView>, item: TransferItemView)
    ensures
        distinct_ids(active) ==> distinct_ids(entered(active, item)),
        has_id(entered(active, item), item.id),
        without_id(entered(active, item), item.id) == without_id(active, item.id),
{
    lemma_without_id(active, item.id);
    let w = without_id(active, item.id);
    let e = entered(active, item);
    assert(e[e.len() - 1] == item);
    assert(e.drop_last() =~= w);
    lemma_without_id(w, item.id);
    if distinct_ids(active) {
        assert forall|i: int, j: int| 0 <= i < j < e.len() implies (#[trigger] e[i]).id != (
        #[trigger] e[j]).id by {
            assert(e[i] == w[i]);
            if j < w.len() {
                assert(e[j] == w[j]);
            } else {
                assert(has_id(w, w[i].id));
            }
        }
    }
}

/// A push runs its course: once it has begun and ended, it is no longer
/// active, whatever was active under its identifier before, and no other
/// active push is touched. Its record stands at the front of the history,
/// which has grown by one entry but not beyond fifty. The record is complete
/// with all bytes transferred where the command ran and reported success,
/// and failed with a message and no bytes transferred otherwise.
pub proof fn lemma_push_runs_its_course(
    ledger: LedgerView,
    item: TransferItemView,
    outcome: Result<ProcessOutput, String>,
)
    requires
        item.status == TransferStatus::Transferring,
        item.transferred_bytes == 0,
        item.error is None,
    ensures
        ({
            let during = LedgerView { active: entered(ledger.active, item), ..ledger };
            let done = finished(item, outcome);
            let after = ended(during, done);
            let succeeded = outcome matches Ok(output) && output.success;
            &&& !has_id(after.active, item.id)
            &&& after.active == without_id(ledger.active, item.id)
            &&& after.history[0] == done
            &&& after.history.len() == if ledger.history.len() + 1 > 50 {
                50
            } else {
                ledger.history.len() + 1
            }
            &&& done.id == item.id
            &&& done.status == TransferStatus::Complete <==> succeeded
            &&& done.status == TransferStatus::Failed <==> !succeeded
            &&& succeeded ==> done.transferred_bytes == item.size_bytes && done.error is None
            &&& !succeeded ==> done.transferred_bytes == 0 && done.error is Some
        }),
{
    lemma_entered(ledger.active, item);
    lemma_without_id(ledger.active, item.id);
}

/// The start time that the clock reading `seconds` and `nanos` after the
/// beginning of 1970 writes.
pub open spec fn start_time(seconds: u64, nanos: u32) -> Option<Seq<char>> {
    if seconds <= i64::MAX {
        rfc3339_text(seconds as i64, nanos)
    } else {
        None
    }
}

/// The clock reading `seconds` and `nanos` after the beginning of 1970 as
/// text, for the start time of a push or a session; none where the time
/// cannot be written.
pub fn timestamp(seconds: u64, nanos: u32) -> (text: Option<String>)
    ensures
        opt_text(text) == start_time(seconds, nanos),
{
    if seconds <= 9223372036854775807u64 {
        format_rfc3339(seconds as i64, nanos)
    } else {
        None
    }
}

/// The identifier of a push that begins `millis` milliseconds after the
/// beginning of 1970.
pub fn generate_id(millis: u128) -> (id: String)
    ensures
        id@ == id_of(millis as nat),
{
    let mut out = chars_of("transfer_");
    append(&mut out, &write_decimal(millis));
    string_of(&out)
}

impl TransferLedger {
    /// A ledger without pushes.
    pub fn new() -> (ledger: TransferLedger)
        ensures
            ledger@.active == Seq::<TransferItemView>::empty(),
            ledger@.history == Seq::<TransferItemView>::empty(),
    {
        let ledger = TransferLedger { active: Vec::new(), history: Vec::new() };
        proof {
            assert(ledger@.active =~= Seq::<TransferItemView>::empty());
            assert(ledger@.history =~= Seq::<TransferItemView>::empty());
        }
        ledger
    }

    /// The index of the first active push with the identifier `id`.
    fn find_active(&self, id: &str) -> (at: Option<usize>)
        ensures
            match at {
                Some(i) => position_of(self@.active, id@) == Some(i as int) && i
                    < self.active.len(),
                None => position_of(self@.active, id@) is None,
            },
    {
        let mut i: usize = 0;
        while i < self.active.len()
            invariant
                i <= self.active.len(),
                forall|k: int| 0 <= k < i ==> (#[trigger] self@.active[k]).id != id@,
            decreases self.active.len() - i,
        {
            proof {
                assert(self@.active[i as int] == self.active@[i as int]@);
            }
            if str_is(self.active[i].id.as_str(), id) {
                proof {
                    lemma_position_of(self@.active, id@);
                }
                return Some(i);
            }
            i += 1;
        }
        proof {
            lemma_position_of(self@.active, id@);
        }
        None
    }

    /// Forgets the active pushes with the identifier `id`.
    fn forget(&mut self, id: &str)
        ensures
            final(self)@.active == without_id(old(self)@.active, id@),
            final(self)@.history == old(self)@.history,
    {
        let mut kept: Vec<TransferItem> = Vec::new();
        let mut i: usize = 0;
        proof {
            assert(self@.active.take(0) =~= Seq::<TransferItemView>::empty());
            assert(item_views(kept@) =~= Seq::<TransferItemView>::empty());
        }
        while i < self.active.len()
            invariant
                i <= self.active.len(),
                *self == *old(self),
                item_views(kept@) == without_id(self@.active.take(i as int), id@),
            decreases self.active.len() - i,
        {
            proof {
                let part = self@.active.take(i + 1);
                assert(part.last() == self.active@[i as int]@);
                assert(part.drop_last() =~= self@.active.take(i as int));
            }
            if !str_is(self.active[i].id.as_str(), id) {
                let copy = self.active[i].duplicate();
                proof {
                    assert(item_views(kept@.push(copy)) =~= item_views(kept@).push(copy@));
                }
                kept.push(copy);
            }
            i += 1;
        }
        proof {
            assert(self@.active.take(self.active.len() as int) =~= self@.active);
        }
        self.active = kept;
    }

    /// Puts `item` at the front of the history.
    fn remember(&mut self, item: TransferItem)
        ensures
            final(self)@.active == old(self)@.active,
            final(self)@.history == seq![item@] + old(self)@.history,
    {
        proof {
            assert(item_views(self.history@.insert(0, item)) =~= seq![item@] + item_views(
                self.history@,
            ));
        }
        self.history.insert(0, item);
    }
}

/// Enters a push of the file `source_path` to the directory `dest_dir` of
/// the device `serial` as active, and gives the arguments with which the
/// remote-control executable makes the push. An active push that had the
/// identifier is forgotten.
///
/// `file_name` is the file name of the source path, if it has one;
/// `size_bytes` the size of the file, 0 where it cannot be had; `id` the
/// identifier of the push and `started_at` the time at which it begins.
pub fn push_file(
    ledger: &mut TransferLedger,
    serial: &str,
    source_path: &str,
    file_name: Option<&str>,
    dest_dir: &str,
    size_bytes: u64,
    id: &str,
    started_at: &str,
) -> (r: (TransferItem, Vec<String>))
    ensures
        r.0@ == begun(
            id@,
            source_path@,
            pushed_name(file_name),
            dest_dir@,
            size_bytes,
            started_at@,
        ),
        texts(r.1@) == push_arguments(serial@, source_path@, r.0@.dest_path),
        final(ledger)@.active == entered(old(ledger)@.active, r.0@),
        final(ledger)@.history == old(ledger)@.history,
        distinct_ids(old(ledger)@.active) ==> distinct_ids(final(ledger)@.active),
{
    proof {
        lemma_entered(
            ledger@.active,
            begun(
                id@,
                source_path@,
                pushed_name(file_name),
                dest_dir@,
                size_bytes,
                started_at@,
            ),
        );
    }
    ledger.forget(id);
    let name: &str = match file_name {
        Some(name) => name,
        None => "unknown",
    };
    let mut dest = chars_of("/sdcard/");
    append_str(&mut dest, dest_dir);
    append_str(&mut dest, "/");
    append_str(&mut dest, name);
    let dest_path = string_of(&dest);
    let item = TransferItem {
        id: id.to_owned(),
        file_name: name.to_owned(),
        source_path: source_path.to_owned(),
        dest_path: dest_path.clone(),
        size_bytes,
        transferred_bytes: 0,
        status: TransferStatus::Transferring,
        error: None,
        started_at: started_at.to_owned(),
    };
    let mut arguments: Vec<String> = Vec::new();
    arguments.push("-s".to_owned());
    arguments.push(serial.to_owned());
    arguments.push("push".to_owned());
    arguments.push(source_path.to_owned());
    arguments.push(dest_path);
    proof {
        assert(texts(arguments@) =~= push_arguments(serial@, source_path@, item@.dest_path));
        assert(item_views(ledger.active@.push(item)) =~= item_views(ledger.active@).push(item@));
    }
    let copy = item.duplicate();
    ledger.active.push(copy);
    (item, arguments)
}

/// The record of a push that could not begin.
pub open spec fn refused(
    millis: nat,
    source_path: Seq<char>,
    file_name: Seq<char>,
    dest_dir: Seq<char>,
    error: ErrorView,
    started_at: Seq<char>,
) -> TransferItemView {
    TransferItemView {
        id: "error_"@ + decimal_digits(millis),
        file_name,
        source_path,
        dest_path: "/sdcard/"@ + dest_dir + "/"@,
        size_bytes: 0,
        transferred_bytes: 0,
        status: TransferStatus::Failed,
        error: Some(heading(error.kind) + error.detail),
        started_at,
    }
}

/// The record of a push of `source_path` that could not begin because of
/// `error`, `millis` milliseconds after the beginning of 1970: failed, with
/// the error as it is shown, and with the directory as its destination. The
/// record is not entered in the ledger.
pub fn failed_push(
    millis: u128,
    source_path: &str,
    file_name: Option<&str>,
    dest_dir: &str,
    error: &AppError,
    started_at: &str,
) -> (item: TransferItem)
    ensures
        item@ == refused(
            millis as nat,
            source_path@,
            pushed_name(file_name),
            dest_dir@,
            error@,
            started_at@,
        ),
{
    let name: &str = match file_name {
        Some(name) => name,
        None => "unknown",
    };
    let mut id = chars_of("error_");
    append(&mut id, &write_decimal(millis));
    let mut dest = chars_of("/sdcard/");
    append_str(&mut dest, dest_dir);
    append_str(&mut dest, "/");
    TransferItem {
        id: string_of(&id),
        file_name: name.to_owned(),
        source_path: source_path.to_owned(),
        dest_path: string_of(&dest),
        size_bytes: 0,
        transferred_bytes: 0,
        status: TransferStatus::Failed,
        error: Some(error.message()),
        started_at: started_at.to_owned(),
    }
}

/// Ends the push that was entered as `begun`: its record, made from
/// `begun` and from what came of the command, comes to the front of the
/// history, of which the newest fifty entries are kept, and no push with
/// its identifier stays active. The record is made and kept also where the
/// push is no longer active, as after a cancellation while the command ran.
pub fn complete_push(
    ledger: &mut TransferLedger,
    begun: &TransferItem,
    outcome: Result<ProcessOutput, String>,
) -> (done: TransferItem)
    ensures
        done@ == finished(begun@, outcome),
        final(ledger)@ == ended(old(ledger)@, done@),
        distinct_ids(old(ledger)@.active) ==> distinct_ids(final(ledger)@.active),
{
    let mut item = begun.duplicate();
    match outcome {
        Ok(output) => {
            if output.success {
                item.status = TransferStatus::Complete;
                item.transferred_bytes = item.size_bytes;
            } else {
                item.status = TransferStatus::Failed;
                item.error = Some(output.stderr);
            }
        },
        Err(reason) => {
            let mut detail = chars_of("Failed to execute adb: ");
            append_str(&mut detail, reason.as_str());
            item.status = TransferStatus::Failed;
            item.error = Some(string_of(&detail));
        },
    }
    proof {
        lemma_without_id(ledger@.active, item@.id);
    }
    ledger.forget(item.id.as_str());
    let copy = item.duplicate();
    ledger.remember(copy);
    if ledger.history.len() > 50 {
        proof {
            assert(item_views(ledger.history@.subrange(0, 50)) =~= item_views(
                ledger.history@,
            ).take(50));
        }
        ledger.history.truncate(50);
    }
    item
}

/// Ends the active push with the identifier `id`, as [`complete_push`] ends
/// a push, from the record under which it is active. Where no active push
/// has the identifier, nothing changes.
pub fn finish_push(ledger: &mut TransferLedger, id: &str, outcome: Result<ProcessOutput, String>)
    -> (r: Option<TransferItem>)
    ensures
        match position_of(old(ledger)@.active, id@) {
            Some(at) => {
                let done = finished(old(ledger)@.active[at], outcome);
                &&& r matches Some(item) && item@ == done
                &&& final(ledger)@ == ended(old(ledger)@, done)
            },
            None => r is None && final(ledger)@ == old(ledger)@,
        },
        distinct_ids(old(ledger)@.active) ==> distinct_ids(final(ledger)@.active),
{
    let at = match ledger.find_active(id) {
        Some(at) => at,
        None => {
            return None;
        },
    };
    proof {
        assert(item_views(ledger.active@)[at as int] == ledger.active@[at as int]@);
        lemma_position_of(ledger@.active, id@);
    }
    let begun = ledger.active[at].duplicate();
    Some(complete_push(ledger, &begun, outcome))
}

/// The pushes that are running, oldest first.
pub fn get_active_transfers(ledger: &TransferLedger) -> (items: Vec<TransferItem>)
    ensures
        item_views(items@) == ledger@.active,
{
    copy_items(&ledger.active)
}

/// The pushes that are over, newest first.
pub fn get_transfer_history(ledger: &TransferLedger) -> (items: Vec<TransferItem>)
    ensures
        item_views(items@) == ledger@.history,
{
    copy_items(&ledger.history)
}

/// A copy of `items`.
fn copy_items(items: &Vec<TransferItem>) -> (out: Vec<TransferItem>)
    ensures
        item_views(out@) == item_views(items@),
{
    let mut out: Vec<TransferItem> = Vec::new();
    let mut i: usize = 0;
    while i < items.len()
        invariant
            i <= items.len(),
            out.len() == i,
            forall|k: int| 0 <= k < i ==> out@[k] == items@[k],
        decreases items.len() - i,
    {
        out.push(items[i].duplicate());
        i += 1;
    }
    proof {
        assert(item_views(out@) =~= item_views(items@));
    }
    out
}

/// Cancels the active push with the identifier `id`: no push with the
/// identifier stays active, and the push comes to the front of the history
/// as cancelled. Where no active push has the identifier, the cancellation
/// fails and nothing changes.
pub fn cancel_transfer(ledger: &mut TransferLedger, id: &str) -> (r: Result<(), AppError>)
    ensures
        match position_of(old(ledger)@.active, id@) {
            Some(at) => {
                &&& r is Ok
                &&& final(ledger)@.active == without_id(old(ledger)@.active, id@)
                &&& final(ledger)@.history == seq![
                    TransferItemView {
                        status: TransferStatus::Cancelled,
                        ..old(ledger)@.active[at]
                    },
                ] + old(ledger)@.history
            },
            None => r matches Err(e) && e@ == not_found(id@) && final(ledger)@ == old(ledger)@,
        },
        distinct_ids(old(ledger)@.active) ==> distinct_ids(final(ledger)@.active),
{
    let at = match ledger.find_active(id) {
        Some(at) => at,
        None => {
            let mut detail = chars_of("Transfer ");
            append_str(&mut detail, id);
            append_str(&mut detail, " not found");
            return Err(AppError::TransferError(string_of(&detail)));
        },
    };
    proof {
        assert(item_views(ledger.active@)[at as int] == ledger.active@[at as int]@);
        lemma_without_id(ledger@.active, id@);
    }
    let mut item = ledger.active[at].duplicate();
    item.status = TransferStatus::Cancelled;
    ledger.forget(id);
    ledger.remember(item);
    Ok(())
}

} // verus!
