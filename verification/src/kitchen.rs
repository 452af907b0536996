//! Kitchen order tickets: which stage changes are allowed and how prints are counted.
use vstd::prelude::*;

use crate::audit::AuditNote;
use crate::status::{parse_kot_status, KotStatus};
use crate::text::{int_text, int_to_text, join2, join4};

verus! {

/// A ticket moves one stage forward at a time: Pending to Preparing,
/// Preparing to Ready, Ready to Completed.
pub open spec fn kot_step_allowed(from: KotStatus, to: KotStatus) -> bool {
    ||| from == KotStatus::Pending && to == KotStatus::Preparing
    ||| from == KotStatus::Preparing && to == KotStatus::Ready
    ||| from == KotStatus::Ready && to == KotStatus::Completed
}

/// A change between two stored labels is allowed when both are kitchen
/// stages and the step is one of the forward steps.
pub open spec fn kot_change_allowed(current: Seq<char>, requested: Seq<char>) -> bool {
    match (parse_kot_status(current), parse_kot_status(requested)) {
        (Some(a), Some(b)) => kot_step_allowed(a, b),
        _ => false,
    }
}

/// Whether a ticket in stage `current` may be moved to `requested`.
pub fn kot_transition_allowed(current: &str, requested: &str) -> (r: bool)
    ensures
        r == kot_change_allowed(current@, requested@),
{
    match (KotStatus::parse(current), KotStatus::parse(requested)) {
        (Some(KotStatus::Pending), Some(KotStatus::Preparing)) => true,
        (Some(KotStatus::Preparing), Some(KotStatus::Ready)) => true,
        (Some(KotStatus::Ready), Some(KotStatus::Completed)) => true,
        _ => false,
    }
}

/// The check made before a ticket's stage is updated, with the message that
/// refuses a change.
pub fn check_kot_status_change(current: &str, requested: &str) -> (r: Result<(), String>)
    ensures
        r is Ok <==> kot_change_allowed(current@, requested@),
        r matches Err(m) ==> m@ == "Invalid KOT status transition from "@ + current@ + " to "@
            + requested@,
{
    if kot_transition_allowed(current, requested) {
        Ok(())
    } else {
        Err(join4("Invalid KOT status transition from ", current, " to ", requested))
    }
}

/// The audit entry of an accepted stage change.
pub fn kot_status_note(kot_id: i64, current: &str, requested: &str) -> (n: AuditNote)
    ensures
        n.describes(
            "update_kot_status"@,
            "kot"@,
            Some(kot_id),
            Some("KOT status updated from "@ + current@ + " to "@ + requested@),
        ),
{
    AuditNote::new(
        "update_kot_status",
        "kot",
        Some(kot_id),
        Some(join4("KOT status updated from ", current, " to ", requested)),
    )
}

/// What printing a ticket records: its new print count and the audit entry.
pub struct PrintRecord {
    pub new_count: i32,
    pub note: AuditNote,
}

/// Counting one more print of a ticket that has been printed `current_count`
/// times: the first print and reprints are logged differently.
pub fn record_kot_print(kot_id: i64, current_count: i32) -> (r: PrintRecord)
    requires
        current_count < i32::MAX,
    ensures
        r.new_count == current_count + 1,
        current_count > 0 ==> r.note.describes(
            "kot_reprint"@,
            "kot"@,
            Some(kot_id),
            Some("Reprinted KOT. Previous print count: "@ + int_text(current_count as int)),
        ),
        current_count <= 0 ==> r.note.describes(
            "kot_print"@,
            "kot"@,
            Some(kot_id),
            Some("First print of KOT"@),
        ),
{
    let new_count = current_count + 1;
    let note = if current_count > 0 {
        let count_text = int_to_text(current_count as i64);
        AuditNote::new(
            "kot_reprint",
            "kot",
            Some(kot_id),
            Some(join2("Reprinted KOT. Previous print count: ", count_text.as_str())),
        )
    } else {
        AuditNote::new("kot_print", "kot", Some(kot_id), Some(String::from_str("First print of KOT")))
    };
    PrintRecord { new_count, note }
}

/// The ticket lifecycle: every allowed change is between two kitchen stages
/// and advances exactly one stage; each stage has at most one next stage, and
/// nothing follows Completed.
pub proof fn lemma_kot_lifecycle(current: Seq<char>, requested: Seq<char>, other: Seq<char>)
    ensures
        kot_change_allowed(current, requested) ==> {
            &&& parse_kot_status(current) is Some
            &&& parse_kot_status(requested) is Some
            &&& parse_kot_status(requested)->0.rank() == parse_kot_status(current)->0.rank() + 1
        },
        parse_kot_status(current) is Some && parse_kot_status(requested) is Some && parse_kot_status(requested)->0.rank()
            == parse_kot_status(current)->0.rank() + 1 ==> kot_change_allowed(current, requested),
        kot_change_allowed(current, requested) && kot_change_allowed(current, other) ==> parse_kot_status(requested) == parse_kot_status(other),
        parse_kot_status(current) == Some(KotStatus::Completed) ==> !kot_change_allowed(current, requested),
{
}

/// A ticket's history of accepted stage changes visits each stage at most
/// once, in lifecycle order: after `i` changes it is `i` stages further, so a
/// history holds at most four stages.
pub proof fn lemma_kot_history(history: Seq<Seq<char>>)
    requires
        history.len() >= 2,
        forall|i: int| 0 <= i < history.len() - 1 ==> kot_change_allowed(#[trigger] history[i], history[i + 1]),
    ensures
        forall|i: int|
            0 <= i < history.len() ==> (#[trigger] parse_kot_status(history[i])) is Some
                && parse_kot_status(history[i])->0.rank() == parse_kot_status(history[0])->0.rank() + i,
        history.len() <= 4,
    decreases history.len(),
{
    if history.len() > 2 {
        let init = history.drop_last();
        assert forall|i: int| 0 <= i < init.len() - 1 implies kot_change_allowed(#[trigger] init[i], init[i + 1]) by {
            assert(init[i] == history[i]);
            assert(init[i + 1] == history[i + 1]);
            assert(kot_change_allowed(history[i], history[i + 1]));
        }
        lemma_kot_history(init);
        let n = history.len() - 1;
        assert(kot_change_allowed(history[n - 1], history[n]));
        assert forall|i: int| 0 <= i < history.len() implies (#[trigger] parse_kot_status(history[i])) is Some
            && parse_kot_status(history[i])->0.rank() == parse_kot_status(history[0])->0.rank() + i by {
            if i < n {
                assert(init[i] == history[i]);
            } else {
                assert(init[n - 1] == history[n - 1]);
            }
        }
        assert(parse_kot_status(history[0])->0.rank() >= 0);
        assert(parse_kot_status(history[n])->0.rank() <= 3);
    } else {
        assert(kot_change_allowed(history[0], history[1]));
    }
}

} // verus!
