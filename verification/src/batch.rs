//! The per-batch step of the event loop.
//!
//! The loop pulls one delivery after another from the watcher channel and
//! never decides to stop on its own: it ends only when the channel closes or
//! a fatal error is reported up. Each delivery is either a batch of change
//! notifications, classified and resolved into build invocations, or a batch
//! of watcher errors, formatted into a non-fatal report.

use vstd::prelude::*;

use crate::events::RawChangeEvent;
use crate::events::accepted_paths;
use crate::events::distinct_changes;
use crate::path_model::views_of;
use crate::report::handle_err_events;
use crate::report::joined_lines;
use crate::target::BuildTarget;
use crate::target::TargetError;
use crate::target::plan_rebuilds;
use crate::target::resolvable;
use crate::target::target_error_of;
use crate::target::target_matches;

verus! {

/// One delivery from the external watcher: the notifications of one
/// quiescence window, or the errors the watcher hit during it.
pub enum DebounceBatch {
    /// A batch of raw notifications, in delivery order; possibly empty.
    Events(Vec<RawChangeEvent>),
    /// The watcher's errors; reported, never fatal.
    Errors(Vec<String>),
}

/// What one delivery amounts to: build invocations to dispatch in order, or
/// an error report for the error stream.
pub enum BatchOutcome {
    /// The resolved targets of the accepted paths, in acceptance order.
    Rebuilds(Vec<BuildTarget>),
    /// The formatted multi-line error report.
    ErrorReport(String),
}

/// Whether `ps` is the accepted-path sequence of the batch `evs` for some
/// answer of the filesystem about each event's path.
pub open spec fn batch_accepts(evs: Seq<RawChangeEvent>, ps: Seq<Seq<char>>) -> bool {
    exists|pr: Seq<bool>| pr.len() == evs.len() && ps == accepted_paths(evs, pr)
}

/// Whether `ts` is the complete rebuild plan of the accepted paths `ps`.
pub open spec fn plan_ok(ps: Seq<Seq<char>>, ts: Seq<BuildTarget>) -> bool {
    &&& ts.len() == ps.len()
    &&& forall|i: int| 0 <= i < ps.len() ==> resolvable(#[trigger] ps[i])
    &&& forall|i: int| 0 <= i < ts.len() ==> target_matches(#[trigger] ts[i], ps[i])
}

/// Whether `e` is the error of the first unresolvable path of `ps`.
pub open spec fn plan_err(ps: Seq<Seq<char>>, e: TargetError) -> bool {
    exists|j: int|
        0 <= j < ps.len() && !resolvable(#[trigger] ps[j]) && target_error_of(ps[j], e) && (
        forall|k: int| 0 <= k < j ==> resolvable(#[trigger] ps[k]))
}

/// Classifies one batch of notifications and resolves every accepted path,
/// in acceptance order, to a build target; the first malformed file name is
/// fatal and reported instead.
pub fn handle_file_events(events: &Vec<RawChangeEvent>) -> (r: Result<
    Vec<BuildTarget>,
    TargetError,
>)
    ensures
        exists|ps: Seq<Seq<char>>|
            #[trigger] batch_accepts(events@, ps) && match r {
                Ok(ts) => plan_ok(ps, ts@),
                Err(e) => plan_err(ps, e),
            },
{
    let paths = distinct_changes(events);
    let r = plan_rebuilds(&paths);
    proof {
        let ps = views_of(paths@);
        assert(batch_accepts(events@, ps));
        if r is Ok {
            let ts = r->Ok_0;
            assert forall|i: int| 0 <= i < ps.len() implies resolvable(#[trigger] ps[i]) by {
                assert(ps[i] == paths@[i]@);
            }
            assert forall|i: int| 0 <= i < ts@.len() implies target_matches(
                #[trigger] ts@[i],
                ps[i],
            ) by {
                assert(target_matches(ts@[i], paths@[i]@));
                assert(ps[i] == paths@[i]@);
            }
            assert(plan_ok(ps, ts@));
        } else {
            let e = r->Err_0;
            let j = choose|j: int|
                0 <= j < paths@.len() && !resolvable(#[trigger] paths@[j]@) && target_error_of(
                    paths@[j]@,
                    e,
                ) && (forall|k: int| 0 <= k < j ==> resolvable(#[trigger] paths@[k]@));
            assert(ps[j] == paths@[j]@);
            assert forall|k: int| 0 <= k < j implies resolvable(#[trigger] ps[k]) by {
                assert(ps[k] == paths@[k]@);
            }
            assert(plan_err(ps, e));
        }
    }
    r
}

/// Routes one delivery: a batch of notifications becomes build invocations
/// or a fatal error, a batch of watcher errors becomes a report and is never
/// fatal.
pub fn handle_message(message: DebounceBatch) -> (r: Result<BatchOutcome, TargetError>)
    ensures
        match message {
            DebounceBatch::Events(evs) => exists|ps: Seq<Seq<char>>|
                #[trigger] batch_accepts(evs@, ps) && match r {
                    Ok(o) => o matches BatchOutcome::Rebuilds(ts) && plan_ok(ps, ts@),
                    Err(e) => plan_err(ps, e),
                },
            DebounceBatch::Errors(es) => match r {
                Ok(o) => o matches BatchOutcome::ErrorReport(m) && m@ == joined_lines(
                    views_of(es@),
                ),
                Err(_) => false,
            },
        },
{
    match message {
        DebounceBatch::Events(events) => match handle_file_events(&events) {
            Ok(targets) => Ok(BatchOutcome::Rebuilds(targets)),
            Err(e) => Err(e),
        },
        DebounceBatch::Errors(errs) => Ok(BatchOutcome::ErrorReport(handle_err_events(&errs))),
    }
}

} // verus!
