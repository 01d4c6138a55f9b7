//! From a settled batch of filesystem events to one decision: reload or not.
//!
//! An event counts when it touches the served root, is not wholly made of
//! ignored paths, and is of a kind that changes what a viewer would see. A
//! batch asks for a reload when at least one of its events counts, and never
//! for more than one.

use crate::ignore_filter::{
    agrees, hidden_below, ignore_verdict, is_ignored, IgnoreError, RuleFile, RuleFileView,
};
use crate::paths::{lemma_rest_is_well_formed, starts_with, texts, well_formed};
use vstd::prelude::*;

verus! {

/// What the watcher saw happen.
#[derive(Clone, Copy, Debug, PartialEq, Eq, Structural)]
pub enum EventKind {
    /// Something was created.
    Create,
    /// Content or metadata was modified.
    ModifyData,
    /// A name was changed. The rename is complete where both the old and the
    /// new path are known.
    ModifyName {
        /// Whether both paths are known.
        complete: bool,
    },
    /// Something was removed.
    Remove,
    /// Anything else, such as an access.
    Other,
}

/// A path named by an event.
#[derive(Debug)]
pub struct WatchedPath {
    /// The names from the filesystem root down.
    pub names: Vec<String>,
    /// Whether the path names a directory.
    pub is_dir: bool,
}

/// One raw filesystem event: a kind, and one path, or two for a completed
/// rename.
#[derive(Debug)]
pub struct RawEvent {
    /// What happened.
    pub kind: EventKind,
    /// The paths it happened to.
    pub paths: Vec<WatchedPath>,
}

/// A change that viewers should hear of.
#[derive(Clone, Copy, Debug, PartialEq, Eq, Structural)]
pub enum Change {
    /// A new file or directory.
    Create,
    /// New content or metadata.
    Update,
    /// A file or directory is gone.
    Remove,
    /// A file or directory has a new name.
    Rename,
}

/// The change that an event of this kind stands for, if any. A rename counts
/// only when it is complete.
pub open spec fn change_of(kind: EventKind) -> Option<Change> {
    match kind {
        EventKind::Create => Some(Change::Create),
        EventKind::ModifyData => Some(Change::Update),
        EventKind::ModifyName { complete } => if complete {
            Some(Change::Rename)
        } else {
            None
        },
        EventKind::Remove => Some(Change::Remove),
        EventKind::Other => None,
    }
}

/// Some path of the event lies at or below the root.
pub open spec fn touches_root(event: RawEvent, root: Seq<Seq<char>>) -> bool {
    exists|i: int|
        0 <= i < event.paths@.len() && root.is_prefix_of(texts((#[trigger] event.paths@[i]).names@))
}

/// The verdicts let the event through: each path was checked without error,
/// and at least one of them is not ignored.
pub open spec fn passes_filter(verdicts: Seq<Result<bool, IgnoreError>>) -> bool {
    (forall|i: int| 0 <= i < verdicts.len() ==> (#[trigger] verdicts[i]) is Ok) && (exists|i: int|
        0 <= i < verdicts.len() && #[trigger] verdicts[i] == Ok::<bool, IgnoreError>(false))
}

/// Whether one event asks for a reload, given the ignore verdict of each of
/// its paths. The verdicts are read in ignore mode only.
pub open spec fn event_counts(
    event: RawEvent,
    root: Seq<Seq<char>>,
    ignore_mode: bool,
    verdicts: Seq<Result<bool, IgnoreError>>,
) -> bool {
    touches_root(event, root) && (ignore_mode ==> passes_filter(verdicts)) && change_of(event.kind) is Some
}

/// Every path of the event lies below the root with a hidden name on the way.
pub open spec fn all_paths_hidden(event: RawEvent, root: Seq<Seq<char>>) -> bool {
    forall|j: int|
        0 <= j < event.paths@.len() ==> hidden_below(
            root,
            texts((#[trigger] event.paths@[j]).names@),
        )
}

/// The ignore verdict of the event's path number `j`: `None` where the check
/// fails.
pub open spec fn path_verdict(
    event: RawEvent,
    j: int,
    root: Seq<Seq<char>>,
    rules: RuleFileView,
) -> Option<bool> {
    ignore_verdict(root, texts(event.paths@[j].names@), event.paths@[j].is_dir, rules)
}

/// The rules let the event through: the check of each path goes through, and
/// at least one path is not ignored.
pub open spec fn passes_rules(
    event: RawEvent,
    root: Seq<Seq<char>>,
    rules: RuleFileView,
) -> bool {
    (forall|j: int|
        0 <= j < event.paths@.len() ==> (#[trigger] path_verdict(event, j, root, rules)) is Some)
        && (exists|j: int|
        0 <= j < event.paths@.len() && #[trigger] path_verdict(event, j, root, rules) == Some(
            false,
        ))
}

/// Whether one event asks for a reload: it touches the root, it is a real
/// change, and in ignore mode the rules let it through.
pub open spec fn event_changes(
    event: RawEvent,
    root: Seq<Seq<char>>,
    ignore_mode: bool,
    rules: RuleFileView,
) -> bool {
    touches_root(event, root) && (ignore_mode ==> passes_rules(event, root, rules)) && change_of(event.kind) is Some
}

/// Whether a batch asks for a reload: some event of it does.
pub open spec fn batch_changes(
    events: Seq<RawEvent>,
    root: Seq<Seq<char>>,
    ignore_mode: bool,
    rules: RuleFileView,
) -> bool {
    exists|i: int|
        0 <= i < events.len() && event_changes(#[trigger] events[i], root, ignore_mode, rules)
}

/// How many reload signals a batch gives rise to: one where it has changed,
/// none where it has not.
pub open spec fn signal_count(changed: bool) -> nat {
    if changed {
        1
    } else {
        0
    }
}

/// The event is a write to a path at or below the root.
pub open spec fn is_write_in_root(event: RawEvent, root: Seq<Seq<char>>) -> bool {
    event.kind == EventKind::ModifyData && touches_root(event, root)
}

/// The paths of the event are well-formed lists of names.
pub open spec fn event_well_formed(event: RawEvent) -> bool {
    forall|j: int|
        0 <= j < event.paths@.len() ==> well_formed(texts((#[trigger] event.paths@[j]).names@))
}

/// Every path of every event is a well-formed list of names.
pub open spec fn batch_well_formed(events: Seq<RawEvent>) -> bool {
    forall|i: int| 0 <= i < events.len() ==> event_well_formed(#[trigger] events[i])
}

/// Names the change that an event stands for, or `None` for an event that is
/// no change: an access, or a rename of which only one side is known.
pub fn classify(event: &RawEvent) -> (change: Option<Change>)
    ensures
        change == change_of(event.kind),
{
    match event.kind {
        EventKind::Create => Some(Change::Create),
        EventKind::ModifyData => Some(Change::Update),
        EventKind::ModifyName { complete } => if complete {
            Some(Change::Rename)
        } else {
            None
        },
        EventKind::Remove => Some(Change::Remove),
        EventKind::Other => None,
    }
}

/// Whether some path of the event lies at or below the root.
pub fn event_touches_root(event: &RawEvent, root: &Vec<String>) -> (r: bool)
    ensures
        r == touches_root(*event, texts(root@)),
{
    let mut i: usize = 0;
    while i < event.paths.len()
        invariant
            i <= event.paths.len(),
            forall|k: int|
                0 <= k < i ==> !texts(root@).is_prefix_of(
                    texts((#[trigger] event.paths@[k]).names@),
                ),
        decreases event.paths.len() - i,
    {
        if starts_with(&event.paths[i].names, root) {
            return true;
        }
        i += 1;
    }
    false
}

/// Whether the verdicts let an event through: none is an error, and not all
/// say "ignored".
pub fn verdicts_pass(verdicts: &Vec<Result<bool, IgnoreError>>) -> (r: bool)
    ensures
        r == passes_filter(verdicts@),
{
    let mut kept: bool = false;
    let mut i: usize = 0;
    while i < verdicts.len()
        invariant
            i <= verdicts.len(),
            forall|k: int| 0 <= k < i ==> (#[trigger] verdicts@[k]) is Ok,
            kept == exists|k: int|
                0 <= k < i && #[trigger] verdicts@[k] == Ok::<bool, IgnoreError>(false),
        decreases verdicts.len() - i,
    {
        match &verdicts[i] {
            Err(_) => {
                return false;
            },
            Ok(ignored) => {
                if !*ignored {
                    kept = true;
                }
            },
        }
        i += 1;
    }
    kept
}

/// Decides whether one event asks for a reload, from the ignore verdicts of
/// its paths.
pub fn event_has_changed(
    event: &RawEvent,
    root: &Vec<String>,
    ignore_mode: bool,
    verdicts: &Vec<Result<bool, IgnoreError>>,
) -> (r: bool)
    ensures
        r == event_counts(*event, texts(root@), ignore_mode, verdicts@),
{
    if !event_touches_root(event, root) {
        return false;
    }
    if ignore_mode && !verdicts_pass(verdicts) {
        return false;
    }
    classify(event).is_some()
}

/// Checks each path of the event against the ignore rules.
pub fn check_paths(event: &RawEvent, root: &Vec<String>, rules: &RuleFile) -> (verdicts:
    Vec<Result<bool, IgnoreError>>)
    requires
        event_well_formed(*event),
    ensures
        verdicts@.len() == event.paths@.len(),
        forall|j: int|
            0 <= j < event.paths@.len() ==> agrees(
                #[trigger] verdicts@[j],
                path_verdict(*event, j, texts(root@), rules@),
            ),
{
    let mut verdicts: Vec<Result<bool, IgnoreError>> = Vec::new();
    let mut j: usize = 0;
    while j < event.paths.len()
        invariant
            j <= event.paths.len(),
            verdicts@.len() == j,
            event_well_formed(*event),
            forall|k: int|
                0 <= k < j ==> agrees(
                    #[trigger] verdicts@[k],
                    path_verdict(*event, k, texts(root@), rules@),
                ),
        decreases event.paths.len() - j,
    {
        let path = &event.paths[j];
        proof {
            let names = texts(event.paths@[j as int].names@);
            if texts(root@).is_prefix_of(names) {
                lemma_rest_is_well_formed(names, root@.len() as int);
            }
        }
        let verdict = is_ignored(root, &path.names, path.is_dir, rules);
        verdicts.push(verdict);
        j += 1;
    }
    verdicts
}

/// Decides whether a settled batch asks for a reload.
///
/// The batch has changed when at least one of its events touches the root, is
/// a real change, and, in ignore mode, has a path that is not ignored and none
/// whose check failed. `rules` is the root's rule file as it was found; it
/// is looked at in ignore mode only, where a file that could not be read
/// fails the check of every path that it would have had to decide.
pub fn batch_has_changed(
    events: &Vec<RawEvent>,
    root: &Vec<String>,
    ignore_mode: bool,
    rules: &RuleFile,
) -> (changed: bool)
    requires
        batch_well_formed(events@),
    ensures
        changed == batch_changes(events@, texts(root@), ignore_mode, rules@),
{
    let mut changed: bool = false;
    let mut i: usize = 0;
    while i < events.len()
        invariant
            i <= events.len(),
            batch_well_formed(events@),
            changed == batch_changes(
                events@.take(i as int),
                texts(root@),
                ignore_mode,
                rules@,
            ),
        decreases events.len() - i,
    {
        let event = &events[i];
        let counts = if ignore_mode {
            assert(event_well_formed(events@[i as int]));
            let verdicts = check_paths(event, root, rules);
            proof {
                lemma_verdicts_decide(*event, texts(root@), rules@, verdicts@);
            }
            event_has_changed(event, root, true, &verdicts)
        } else {
            let verdicts: Vec<Result<bool, IgnoreError>> = Vec::new();
            event_has_changed(event, root, false, &verdicts)
        };
        proof {
            lemma_one_more_event(events@, texts(root@), ignore_mode, rules@, i as int);
        }
        if counts {
            changed = true;
        }
        i += 1;
    }
    proof {
        assert(events@.take(events@.len() as int) =~= events@);
    }
    changed
}

/// Where each outcome says what the verdict of its path is, the outcomes let
/// the event through exactly when the rules do.
pub proof fn lemma_verdicts_decide(
    event: RawEvent,
    root: Seq<Seq<char>>,
    rules: RuleFileView,
    verdicts: Seq<Result<bool, IgnoreError>>,
)
    requires
        verdicts.len() == event.paths@.len(),
        forall|j: int|
            0 <= j < event.paths@.len() ==> agrees(
                #[trigger] verdicts[j],
                path_verdict(event, j, root, rules),
            ),
    ensures
        passes_filter(verdicts) == passes_rules(event, root, rules),
        event_counts(event, root, true, verdicts) == event_changes(event, root, true, rules),
{
    if passes_filter(verdicts) {
        let j = choose|j: int|
            0 <= j < verdicts.len() && #[trigger] verdicts[j] == Ok::<bool, IgnoreError>(false);
        assert(path_verdict(event, j, root, rules) == Some(false));
        assert forall|k: int| 0 <= k < event.paths@.len() implies (#[trigger] path_verdict(
            event,
            k,
            root,
            rules,
        )) is Some by {
            assert(verdicts[k] is Ok);
        }
    }
    if passes_rules(event, root, rules) {
        let j = choose|j: int|
            0 <= j < event.paths@.len() && #[trigger] path_verdict(event, j, root, rules) == Some(
                false,
            );
        assert(verdicts[j] == Ok::<bool, IgnoreError>(false));
        assert forall|k: int| 0 <= k < verdicts.len() implies (#[trigger] verdicts[k]) is Ok by {
            assert(path_verdict(event, k, root, rules) is Some);
        }
    }
}

/// Looking at one more event of a batch: it has changed when it had before,
/// or when that event asks for a reload.
proof fn lemma_one_more_event(
    events: Seq<RawEvent>,
    root: Seq<Seq<char>>,
    ignore_mode: bool,
    rules: RuleFileView,
    i: int,
)
    requires
        0 <= i < events.len(),
    ensures
        batch_changes(events.take(i + 1), root, ignore_mode, rules) == (batch_changes(
            events.take(i),
            root,
            ignore_mode,
            rules,
        ) || event_changes(events[i], root, ignore_mode, rules)),
{
    let before = events.take(i);
    let after = events.take(i + 1);
    if batch_changes(before, root, ignore_mode, rules) {
        let k = choose|k: int|
            0 <= k < before.len() && event_changes(#[trigger] before[k], root, ignore_mode, rules);
        assert(after[k] == before[k]);
    }
    if event_changes(events[i], root, ignore_mode, rules) {
        assert(after[i] == events[i]);
    }
    if batch_changes(after, root, ignore_mode, rules) {
        let k = choose|k: int|
            0 <= k < after.len() && event_changes(#[trigger] after[k], root, ignore_mode, rules);
        if k < i {
            assert(before[k] == after[k]);
        } else {
            assert(after[k] == events[i]);
        }
    }
}

/// Coalescing: a burst of writes below the root that settled into one batch
/// gives rise to exactly one reload signal, however many writes it holds.
/// This is stated for a server that ignores nothing.
pub proof fn lemma_burst_gives_one_signal(
    events: Seq<RawEvent>,
    root: Seq<Seq<char>>,
    rules: RuleFileView,
)
    requires
        events.len() > 0,
        forall|i: int| 0 <= i < events.len() ==> is_write_in_root(#[trigger] events[i], root),
    ensures
        signal_count(batch_changes(events, root, false, rules)) == 1,
{
    assert(event_changes(events[0], root, false, rules));
}

/// Coalescing in ignore mode: a burst of writes below the root, to paths
/// that are not ignored, gives rise to exactly one reload signal.
pub proof fn lemma_kept_burst_gives_one_signal(
    events: Seq<RawEvent>,
    root: Seq<Seq<char>>,
    rules: RuleFileView,
)
    requires
        events.len() > 0,
        forall|i: int| 0 <= i < events.len() ==> is_write_in_root(#[trigger] events[i], root),
        forall|i: int, j: int|
            0 <= i < events.len() && 0 <= j < events[i].paths@.len() ==> #[trigger] path_verdict(
                events[i],
                j,
                root,
                rules,
            ) == Some(false),
    ensures
        signal_count(batch_changes(events, root, true, rules)) == 1,
{
    let event = events[0];
    let j = choose|j: int|
        0 <= j < event.paths@.len() && root.is_prefix_of(
            texts((#[trigger] event.paths@[j]).names@),
        );
    assert(path_verdict(event, j, root, rules) == Some(false));
    assert(passes_rules(event, root, rules));
    assert(event_changes(events[0], root, true, rules));
}

/// A batch never gives rise to more than one signal, and an empty batch gives
/// rise to none.
pub proof fn lemma_at_most_one_signal(
    events: Seq<RawEvent>,
    root: Seq<Seq<char>>,
    ignore_mode: bool,
    rules: RuleFileView,
)
    ensures
        signal_count(batch_changes(events, root, ignore_mode, rules)) <= 1,
        events.len() == 0 ==> signal_count(batch_changes(events, root, ignore_mode, rules)) == 0,
{
}

/// In ignore mode, changes to ignored paths never give rise to a signal: a
/// batch in which every path of every event is ignored, by a hidden name or
/// by a rule, has not changed.
pub proof fn lemma_ignored_changes_are_silent(
    events: Seq<RawEvent>,
    root: Seq<Seq<char>>,
    rules: RuleFileView,
)
    requires
        forall|i: int, j: int|
            0 <= i < events.len() && 0 <= j < events[i].paths@.len() ==> #[trigger] path_verdict(
                events[i],
                j,
                root,
                rules,
            ) == Some(true),
    ensures
        signal_count(batch_changes(events, root, true, rules)) == 0,
{
    if batch_changes(events, root, true, rules) {
        let i = choose|i: int|
            0 <= i < events.len() && event_changes(#[trigger] events[i], root, true, rules);
        let j = choose|j: int|
            0 <= j < events[i].paths@.len() && #[trigger] path_verdict(events[i], j, root, rules)
                == Some(false);
        assert(path_verdict(events[i], j, root, rules) == Some(true));
    }
}

/// In ignore mode, a batch in which every path of every event has a hidden
/// name below the root gives rise to no signal, whatever the rule file holds.
pub proof fn lemma_hidden_batch_is_silent(
    events: Seq<RawEvent>,
    root: Seq<Seq<char>>,
    rules: RuleFileView,
)
    requires
        forall|i: int| 0 <= i < events.len() ==> all_paths_hidden(#[trigger] events[i], root),
    ensures
        signal_count(batch_changes(events, root, true, rules)) == 0,
{
    assert forall|i: int, j: int|
        0 <= i < events.len() && 0 <= j < events[i].paths@.len() implies #[trigger] path_verdict(
        events[i],
        j,
        root,
        rules,
    ) == Some(true) by {
        assert(all_paths_hidden(events[i], root));
        assert(hidden_below(root, texts(events[i].paths@[j].names@)));
    }
    lemma_ignored_changes_are_silent(events, root, rules);
}

/// In ignore mode, an event with a path whose check fails does not ask for a
/// reload.
pub proof fn lemma_failed_check_is_silent(
    event: RawEvent,
    root: Seq<Seq<char>>,
    rules: RuleFileView,
    j: int,
)
    requires
        0 <= j < event.paths@.len(),
        path_verdict(event, j, root, rules) is None,
    ensures
        !event_changes(event, root, true, rules),
{
}

/// An event with no path at or below the root never asks for a reload.
pub proof fn lemma_outside_event_is_silent(
    event: RawEvent,
    root: Seq<Seq<char>>,
    ignore_mode: bool,
    rules: RuleFileView,
)
    requires
        !touches_root(event, root),
    ensures
        !event_changes(event, root, ignore_mode, rules),
{
}

/// In ignore mode, with a rule file that could not be read, an event does
/// not ask for a reload where one of its paths lies below the root and has
/// no hidden name: the check of that path fails.
pub proof fn lemma_unreadable_rules_are_silent(
    event: RawEvent,
    root: Seq<Seq<char>>,
    reason: Seq<char>,
    j: int,
)
    requires
        0 <= j < event.paths@.len(),
        root.is_prefix_of(texts(event.paths@[j].names@)),
        !hidden_below(root, texts(event.paths@[j].names@)),
    ensures
        path_verdict(event, j, root, RuleFileView::Unreadable(reason)) is None,
        !event_changes(event, root, true, RuleFileView::Unreadable(reason)),
{
}

} // verus!
