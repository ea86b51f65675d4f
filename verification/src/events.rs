//! Classifying and deduplicating one batch of change notifications.
//!
//! The external watcher delivers notifications already grouped into batches,
//! one batch per quiescence window. Within one batch, a notification is
//! accepted for rebuild when its kind is a content change, its path names a
//! `zig` file, the same path was not already accepted in this batch, and the
//! path still exists on disk at classification time. The accepted paths keep
//! their delivery order; the deduplication state lives for one batch only.

use vstd::prelude::*;

use crate::fs_probe;
use crate::path_model::is_zig_path;
use crate::path_model::has_zig_extension;
use crate::path_model::views_of;

verus! {

/// What a raw notification reports about its path.
#[derive(Clone, Copy, Debug, PartialEq, Eq, Structural)]
pub enum EventKind {
    /// The file's content changed.
    ContentChanged,
    /// Anything else the watcher reports; never triggers a rebuild.
    Other,
}

/// One raw notification from the external watcher.
#[derive(Debug)]
pub struct RawChangeEvent {
    /// The path the notification is about, in its textual form.
    pub path: String,
    /// What happened to it.
    pub kind: EventKind,
}

/// Whether some string of `ps` holds exactly the characters `p`.
pub open spec fn contains_path(ps: Seq<String>, p: Seq<char>) -> bool {
    exists|i: int| 0 <= i < ps.len() && ps[i]@ == p
}

/// `Seq::contains` over the views agrees with `contains_path`.
pub proof fn lemma_views_contains(ss: Seq<String>, p: Seq<char>)
    ensures
        views_of(ss).contains(p) <==> contains_path(ss, p),
{
    if views_of(ss).contains(p) {
        let i = choose|i: int| 0 <= i < views_of(ss).len() && views_of(ss)[i] == p;
        assert(ss[i]@ == p);
    }
    if contains_path(ss, p) {
        let i = choose|i: int| 0 <= i < ss.len() && ss[i]@ == p;
        assert(views_of(ss)[i] == p);
    }
}

/// Whether `accepted` already holds a string equal to `path`, character for
/// character. Equality is textual, not normalized: two different spellings
/// of the same file count as distinct.
pub fn contains_str(accepted: &Vec<String>, path: &String) -> (r: bool)
    ensures
        r == contains_path(accepted@, path@),
{
    let mut i: usize = 0;
    while i < accepted.len()
        invariant
            i <= accepted@.len(),
            forall|j: int| 0 <= j < i ==> accepted@[j]@ != path@,
        decreases accepted@.len() - i,
    {
        if accepted[i].eq(path) {
            return true;
        }
        i = i + 1;
    }
    false
}

/// The classification decision once the filesystem has answered: accept a
/// candidate if and only if it names a `zig` file, was not already accepted
/// in this batch, and is still present on disk.
pub fn classify(path: &String, accepted: &Vec<String>, present: bool) -> (r: bool)
    ensures
        r == (is_zig_path(path@) && !contains_path(accepted@, path@) && present),
{
    has_zig_extension(path.as_str()) && !contains_str(accepted, path) && present
}

/// Decides whether a candidate path is accepted for rebuild: it must name a
/// `zig` file, not already stand in `accepted`, and still exist on disk at
/// the time of this call. The filesystem's answer cannot be promised ahead
/// of the call, so the contract pins the decision down in every other
/// respect: a non-`zig` or already-accepted path is never accepted.
pub fn should_rebuild(path: &String, accepted: &Vec<String>) -> (r: bool)
    ensures
        r ==> is_zig_path(path@) && !contains_path(accepted@, path@),
        !is_zig_path(path@) ==> !r,
        contains_path(accepted@, path@) ==> !r,
{
    let present = fs_probe::path_exists(path.as_str());
    classify(path, accepted, present)
}

/// The paths accepted from one batch, given the events in delivery order and
/// the filesystem's answer for each event's path: content-changed events
/// whose path names a `zig` file, is present, and did not already occur
/// among the earlier accepted paths.
pub open spec fn accepted_paths(evs: Seq<RawChangeEvent>, pr: Seq<bool>) -> Seq<Seq<char>>
    decreases evs.len(),
{
    if evs.len() == 0 {
        Seq::empty()
    } else {
        let prefix = accepted_paths(evs.drop_last(), pr.drop_last());
        let e = evs.last();
        if e.kind == EventKind::ContentChanged && is_zig_path(e.path@) && !prefix.contains(e.path@)
            && pr.len() == evs.len() && pr.last() {
            prefix.push(e.path@)
        } else {
            prefix
        }
    }
}

/// Whether some content-changed event of `evs` is about the path `p`.
pub open spec fn from_content_event(evs: Seq<RawChangeEvent>, p: Seq<char>) -> bool {
    exists|k: int|
        0 <= k < evs.len() && (#[trigger] evs[k]).path@ == p && evs[k].kind
            == EventKind::ContentChanged
}

/// The accepted paths of a batch are pairwise distinct, each names a `zig`
/// file, and each stems from a content-changed event of the batch.
pub proof fn lemma_accepted_paths_props(evs: Seq<RawChangeEvent>, pr: Seq<bool>)
    ensures
        forall|i: int, j: int|
            0 <= i < j < accepted_paths(evs, pr).len() ==> accepted_paths(evs, pr)[i]
                != accepted_paths(evs, pr)[j],
        forall|i: int|
            0 <= i < accepted_paths(evs, pr).len() ==> is_zig_path(
                #[trigger] accepted_paths(evs, pr)[i],
            ),
        forall|i: int|
            0 <= i < accepted_paths(evs, pr).len() ==> from_content_event(
                evs,
                #[trigger] accepted_paths(evs, pr)[i],
            ),
        accepted_paths(evs, pr).len() <= evs.len(),
    decreases evs.len(),
{
    if evs.len() > 0 {
        lemma_accepted_paths_props(evs.drop_last(), pr.drop_last());
        let prefix = accepted_paths(evs.drop_last(), pr.drop_last());
        let whole = accepted_paths(evs, pr);
        assert forall|i: int| 0 <= i < whole.len() implies from_content_event(evs, whole[i]) by {
            if i < prefix.len() {
                let k = choose|k: int|
                    0 <= k < evs.drop_last().len() && (#[trigger] evs.drop_last()[k]).path@
                        == prefix[i] && evs.drop_last()[k].kind == EventKind::ContentChanged;
                assert(evs[k] == evs.drop_last()[k]);
                assert(evs[k].path@ == whole[i]);
            } else {
                assert(evs[evs.len() - 1].path@ == whole[i]);
            }
        }
        if whole.len() > prefix.len() {
            assert forall|i: int, j: int| 0 <= i < j < whole.len() implies whole[i]
                != whole[j] by {
                if j == whole.len() - 1 {
                    assert(!prefix.contains(whole[j]));
                    assert(prefix[i] == whole[i]);
                }
            }
        }
    }
}

/// Classifies a whole batch against a given filesystem answer for each
/// event, returning the distinct accepted paths in delivery order.
pub fn distinct_accepted(events: &Vec<RawChangeEvent>, present: &Vec<bool>) -> (r: Vec<String>)
    requires
        present@.len() == events@.len(),
    ensures
        views_of(r@) == accepted_paths(events@, present@),
        forall|i: int, j: int| 0 <= i < j < r@.len() ==> r@[i]@ != r@[j]@,
        forall|i: int| 0 <= i < r@.len() ==> is_zig_path(#[trigger] r@[i]@),
        forall|i: int| 0 <= i < r@.len() ==> from_content_event(events@, #[trigger] r@[i]@),
{
    let mut accepted: Vec<String> = Vec::new();
    let mut i: usize = 0;
    while i < events.len()
        invariant
            i <= events@.len(),
            present@.len() == events@.len(),
            views_of(accepted@) == accepted_paths(events@.take(i as int), present@.take(i as int)),
        decreases events@.len() - i,
    {
        let ghost previous = accepted@;
        proof {
            assert(events@.take(i + 1).drop_last() =~= events@.take(i as int));
            assert(present@.take(i + 1).drop_last() =~= present@.take(i as int));
            assert(events@.take(i + 1).last() == events@[i as int]);
            lemma_views_contains(accepted@, events@[i as int].path@);
        }
        let event = &events[i];
        let accept = event.kind == EventKind::ContentChanged && classify(
            &event.path,
            &accepted,
            present[i],
        );
        if accept {
            accepted.push(event.path.clone());
            proof {
                assert(views_of(accepted@) =~= views_of(previous).push(events@[i as int].path@));
            }
        }
        i = i + 1;
    }
    proof {
        assert(events@.take(events@.len() as int) =~= events@);
        assert(present@.take(events@.len() as int) =~= present@);
        lemma_accepted_paths_props(events@, present@);
        assert forall|i: int, j: int|
            0 <= i < j < accepted@.len() implies accepted@[i]@ != accepted@[j]@ by {
            assert(views_of(accepted@)[i] == accepted@[i]@);
            assert(views_of(accepted@)[j] == accepted@[j]@);
        }
        assert forall|i: int| 0 <= i < accepted@.len() implies is_zig_path(
            #[trigger] accepted@[i]@,
        ) by {
            assert(views_of(accepted@)[i] == accepted@[i]@);
        }
        assert forall|i: int| 0 <= i < accepted@.len() implies from_content_event(
            events@,
            #[trigger] accepted@[i]@,
        ) by {
            assert(views_of(accepted@)[i] == accepted@[i]@);
        }
    }
    accepted
}

/// Classifies a whole batch, asking the filesystem about each event's path,
/// and returns the distinct accepted paths in delivery order. The accepted
/// paths are those of `accepted_paths` for whatever answers the filesystem
/// gave; they are pairwise distinct, each names a `zig` file, and each stems
/// from a content-changed event of the batch.
pub fn distinct_changes(events: &Vec<RawChangeEvent>) -> (r: Vec<String>)
    ensures
        exists|pr: Seq<bool>|
            pr.len() == events@.len() && views_of(r@) == accepted_paths(events@, pr),
        forall|i: int, j: int| 0 <= i < j < r@.len() ==> r@[i]@ != r@[j]@,
        forall|i: int| 0 <= i < r@.len() ==> is_zig_path(#[trigger] r@[i]@),
        forall|i: int| 0 <= i < r@.len() ==> from_content_event(events@, #[trigger] r@[i]@),
{
    let mut present: Vec<bool> = Vec::new();
    let mut i: usize = 0;
    while i < events.len()
        invariant
            i <= events@.len(),
            present@.len() == i,
        decreases events@.len() - i,
    {
        present.push(fs_probe::path_exists(events[i].path.as_str()));
        i = i + 1;
    }
    let r = distinct_accepted(events, &present);
    proof {
        assert(present@.len() == events@.len() && views_of(r@) == accepted_paths(
            events@,
            present@,
        ));
    }
    r
}

} // verus!
