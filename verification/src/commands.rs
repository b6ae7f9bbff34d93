//! The decisions of the tool's commands: which exercise a run works on and how
//! progress moves, what `init` writes and keeps, and how watch mode answers
//! file changes and key presses. The program performs the I/O they call for.
use vstd::prelude::*;
use crate::exercise::{AssertionResult, Exercise, exercise_name};
use crate::numbers::digits_of;
use crate::state::{spec_current_index, lemma_index_roundtrip};
use crate::text::{
    chars_of, contains_chars, contains_seq, lowercase, push_char, string_of, to_lowercase, trim,
    trim_chars,
};

verus! {

/// How a run of the current exercise begins.
#[derive(Debug, PartialEq, Eq, Structural)]
pub enum WorkflowStart {
    /// The folder holds no exercise.
    NoExercises,
    /// Every exercise is done.
    AllComplete,
    /// The exercise at this index is to be run.
    Run { index: usize },
}

/// How a run begins, given the number of exercises and the recorded progress:
/// the exercise at the recorded index, unless there is none or all are done.
pub fn workflow_start(total: usize, current: usize) -> (r: WorkflowStart)
    ensures
        total == 0 ==> r == WorkflowStart::NoExercises,
        total > 0 && current >= total ==> r == WorkflowStart::AllComplete,
        total > 0 && current < total ==> r == (WorkflowStart::Run { index: current }),
{
    if total == 0 {
        WorkflowStart::NoExercises
    } else if current >= total {
        WorkflowStart::AllComplete
    } else {
        WorkflowStart::Run { index: current }
    }
}

/// The exercise a session is on: the one at the recorded index among the
/// exercise files, if there is one.
pub fn get_current_exercise(paths: &Vec<String>, current: usize) -> (r: Option<Exercise>)
    ensures
        match r {
            Some(ex) => current < paths@.len() && ex.path@ == paths@[current as int]@ && ex.name@
                == exercise_name(paths@[current as int]@),
            None => current >= paths@.len(),
        },
{
    if paths.len() == 0 || current >= paths.len() {
        return None;
    }
    Some(Exercise::load(paths[current].clone()))
}

/// Whether every assertion passed.
pub fn all_passed(results: &Vec<AssertionResult>) -> (b: bool)
    ensures
        b == forall|k: int| 0 <= k < results@.len() ==> (#[trigger] results@[k]).passed,
{
    let mut k: usize = 0;
    while k < results.len()
        invariant
            k <= results@.len(),
            forall|j: int| 0 <= j < k ==> (#[trigger] results@[j]).passed,
        decreases results.len() - k,
    {
        if !results[k].passed {
            return false;
        }
        k = k + 1;
    }
    true
}

/// The line every exercise starts with, to be deleted once it is solved.
pub const NOT_DONE_MARKER: &'static str = "I AM NOT DONE";

/// Whether an exercise's source has been marked as done: the `I AM NOT DONE`
/// marker no longer occurs in it.
pub open spec fn marked_done(source: Seq<char>) -> bool {
    !contains_seq(source, NOT_DONE_MARKER@)
}

/// Whether the student has marked the exercise with source `source` as done by
/// deleting its `I AM NOT DONE` line.
pub fn is_done(source: &str) -> (b: bool)
    ensures
        b == marked_done(source@),
{
    let s = chars_of(source);
    let m = chars_of(NOT_DONE_MARKER);
    !contains_chars(s.as_slice(), m.as_slice())
}

/// What follows a run of the exercise at the current index.
#[derive(Debug, PartialEq, Eq, Structural)]
pub enum Advance {
    /// All passed and it was the last exercise: progress becomes `new_index`.
    Finished { new_index: usize },
    /// All passed: progress becomes `new_index`, the next exercise.
    NextUp { new_index: usize },
    /// All passed but the exercise is still marked as not done: progress stays.
    NotDone,
    /// Some assertion failed: progress stays.
    Retry,
}

/// What follows a run: when every assertion passed and the exercise is marked
/// as done, progress moves on by one exercise; otherwise it stays where it is.
pub fn advance(current: usize, total: usize, passed: bool, done: bool) -> (r: Advance)
    requires
        current < total,
    ensures
        !passed ==> r == Advance::Retry,
        passed && !done ==> r == Advance::NotDone,
        passed && done && current + 1 >= total ==> r == (Advance::Finished {
            new_index: (current + 1) as usize,
        }),
        passed && done && current + 1 < total ==> r == (Advance::NextUp {
            new_index: (current + 1) as usize,
        }),
{
    if !passed {
        Advance::Retry
    } else if !done {
        Advance::NotDone
    } else if current + 1 >= total {
        Advance::Finished { new_index: current + 1 }
    } else {
        Advance::NextUp { new_index: current + 1 }
    }
}

/// The index that progress moves to after a run: the next exercise when all
/// passed and the exercise is marked as done, else the same one.
pub open spec fn progress_after(current: usize, passed: bool, done: bool) -> int {
    if passed && done {
        current + 1
    } else {
        current as int
    }
}

/// Progress only ever moves one exercise forward, only when every assertion
/// passed and the exercise is marked as done, never past the last exercise; and
/// what is recorded for the new index reads back as it.
pub proof fn lemma_progress_moves_by_one(current: usize, total: usize, passed: bool, done: bool)
    requires
        current < total,
    ensures
        progress_after(current, passed, done) <= total,
        progress_after(current, passed, done) >= current,
        (passed && done) <==> progress_after(current, passed, done) == current + 1,
        passed && done ==> spec_current_index(Some(digits_of((current + 1) as nat, 10))) == current
            + 1,
{
    if passed && done {
        lemma_index_roundtrip((current + 1) as usize);
    }
}

/// The name of the file that a dumped binary goes to: the exercise's name with
/// `.bin`.
pub fn debug_binary_name(name: &str) -> (r: String)
    ensures
        r@ == name@ + ".bin"@,
{
    let mut r = String::from_str(name);
    r.append(".bin");
    r
}

/// How `init` treats the exercises folder.
#[derive(Debug, PartialEq, Eq, Structural)]
pub enum InitMode {
    /// The folder exists and is kept: only missing files are written.
    Update,
    /// Every file is written afresh, after the folder is removed when it exists.
    Fresh { remove_existing: bool },
}

/// How `init` treats the folder: an existing folder is updated unless a fresh
/// start is forced.
pub fn init_mode_for(dir_exists: bool, force: bool) -> (m: InitMode)
    ensures
        dir_exists && !force ==> m == InitMode::Update,
        dir_exists && force ==> m == (InitMode::Fresh { remove_existing: true }),
        !dir_exists ==> m == (InitMode::Fresh { remove_existing: false }),
{
    if dir_exists && !force {
        InitMode::Update
    } else {
        InitMode::Fresh { remove_existing: dir_exists }
    }
}

/// Whether `init` writes an exercise template: always on a fresh start, and on
/// an update only where the file is missing.
pub fn should_write_template(mode: &InitMode, file_exists: bool) -> (b: bool)
    ensures
        b == match mode {
            InitMode::Update => !file_exists,
            InitMode::Fresh { .. } => true,
        },
{
    match mode {
        InitMode::Update => !file_exists,
        InitMode::Fresh { .. } => true,
    }
}

/// Whether `init` records progress zero: always on a fresh start, and on an
/// update only where there is no progress file.
pub fn should_reset_progress(mode: &InitMode, state_exists: bool) -> (b: bool)
    ensures
        b == match mode {
            InitMode::Update => !state_exists,
            InitMode::Fresh { .. } => true,
        },
{
    match mode {
        InitMode::Update => !state_exists,
        InitMode::Fresh { .. } => true,
    }
}

/// `init` on an existing folder without force keeps the student's work: it
/// writes no file that exists, restores every missing one, and keeps recorded
/// progress; with force it rewrites every file and resets progress.
pub proof fn lemma_init_keeps_work(file_exists: bool, state_exists: bool)
    ensures
        ({
            let m = InitMode::Update;
            &&& (file_exists ==> !(match m {
                InitMode::Update => !file_exists,
                InitMode::Fresh { .. } => true,
            }))
            &&& (!file_exists ==> (match m {
                InitMode::Update => !file_exists,
                InitMode::Fresh { .. } => true,
            }))
            &&& (state_exists ==> !(match m {
                InitMode::Update => !state_exists,
                InitMode::Fresh { .. } => true,
            }))
        }),
        ({
            let m = InitMode::Fresh { remove_existing: true };
            &&& (match m {
                InitMode::Update => !file_exists,
                InitMode::Fresh { .. } => true,
            })
            &&& (match m {
                InitMode::Update => !state_exists,
                InitMode::Fresh { .. } => true,
            })
        }),
{
}

/// What `init` reports when it is done.
#[derive(Debug, PartialEq, Eq, Structural)]
pub enum InitReport {
    /// An update wrote this many missing exercises.
    Added { count: usize },
    /// An update found every exercise present.
    NothingNew,
    /// A forced start replaced an existing folder, writing this many exercises.
    ForceInitialized { count: usize },
    /// A new folder was made with this many exercises.
    Initialized { count: usize },
}

/// What `init` reports, given how it treated the folder and how many exercise
/// files it wrote.
pub fn init_report(mode: &InitMode, count: usize) -> (r: InitReport)
    ensures
        match mode {
            InitMode::Update => if count > 0 {
                r == (InitReport::Added { count })
            } else {
                r == InitReport::NothingNew
            },
            InitMode::Fresh { remove_existing } => if *remove_existing {
                r == (InitReport::ForceInitialized { count })
            } else {
                r == (InitReport::Initialized { count })
            },
        },
{
    match mode {
        InitMode::Update => if count > 0 {
            InitReport::Added { count }
        } else {
            InitReport::NothingNew
        },
        InitMode::Fresh { remove_existing } => if *remove_existing {
            InitReport::ForceInitialized { count }
        } else {
            InitReport::Initialized { count }
        },
    }
}

/// The state of watch mode: whether the current exercise's hint has been shown.
#[derive(Debug, Clone, Copy, PartialEq, Eq, Structural)]
pub struct WatchState {
    pub hint_shown: bool,
}

/// Something watch mode hears about.
#[derive(Debug)]
pub enum WatchEvent {
    /// A file in the exercises folder was modified, this long after the last run.
    FileModified { elapsed_nanos: u128 },
    /// Some other file event.
    FileOther,
    /// The file watcher reported an error.
    FileError,
    /// The student typed this (trimmed and lower-cased).
    Input(String),
    /// The hint was found and shown.
    HintShown,
    /// The current exercise has no hint, or could not be loaded.
    HintUnavailable,
    /// No more events can come.
    ChannelClosed,
}

/// What watch mode does about an event.
#[derive(Debug, PartialEq, Eq, Structural)]
pub enum WatchAction {
    /// Clear the screen and run the current exercise again.
    RunWorkflow,
    /// Look up the current exercise's hint and show it.
    ShowHint,
    /// Report the watcher's error.
    ReportWatchError,
    /// Nothing to do.
    Nothing,
    /// Stop with an error.
    Stop,
}

/// How long after a run a modification must come to trigger another one.
pub open spec fn debounce_nanos() -> u128 {
    200_000_000
}

/// Whether the student asked for the hint.
pub open spec fn asks_for_hint(input: Seq<char>) -> bool {
    input == "h"@ || input == "hint"@
}

/// Watch mode's answer to an event: a modification long enough after the last
/// run runs the exercise again and makes the hint available again; asking for
/// the hint shows it once; a watcher error is reported; a closed channel stops.
pub open spec fn watch_next(s: WatchState, e: &WatchEvent) -> (WatchState, WatchAction) {
    match e {
        WatchEvent::FileModified { elapsed_nanos } => if *elapsed_nanos > debounce_nanos() {
            (WatchState { hint_shown: false }, WatchAction::RunWorkflow)
        } else {
            (s, WatchAction::Nothing)
        },
        WatchEvent::FileOther => (s, WatchAction::Nothing),
        WatchEvent::FileError => (s, WatchAction::ReportWatchError),
        WatchEvent::Input(text) => if asks_for_hint(text@) && !s.hint_shown {
            (s, WatchAction::ShowHint)
        } else {
            (s, WatchAction::Nothing)
        },
        WatchEvent::HintShown => (WatchState { hint_shown: true }, WatchAction::Nothing),
        WatchEvent::HintUnavailable => (s, WatchAction::Nothing),
        WatchEvent::ChannelClosed => (s, WatchAction::Stop),
    }
}

/// Watch mode at its start: no hint shown.
pub fn watch_start() -> (s: WatchState)
    ensures
        s == (WatchState { hint_shown: false }),
{
    WatchState { hint_shown: false }
}

/// Watch mode's answer to one event.
pub fn watch_step(s: WatchState, e: &WatchEvent) -> (r: (WatchState, WatchAction))
    ensures
        r == watch_next(s, e),
{
    match e {
        WatchEvent::FileModified { elapsed_nanos } => if *elapsed_nanos > 200_000_000u128 {
            (WatchState { hint_shown: false }, WatchAction::RunWorkflow)
        } else {
            (s, WatchAction::Nothing)
        },
        WatchEvent::FileOther => (s, WatchAction::Nothing),
        WatchEvent::FileError => (s, WatchAction::ReportWatchError),
        WatchEvent::Input(text) => {
            let c = chars_of(text.as_str());
            let asks = crate::text::str_eq_chars("h", c.as_slice()) || crate::text::str_eq_chars(
                "hint",
                c.as_slice(),
            );
            if asks && !s.hint_shown {
                (s, WatchAction::ShowHint)
            } else {
                (s, WatchAction::Nothing)
            }
        },
        WatchEvent::HintShown => (WatchState { hint_shown: true }, WatchAction::Nothing),
        WatchEvent::HintUnavailable => (s, WatchAction::Nothing),
        WatchEvent::ChannelClosed => (s, WatchAction::Stop),
    }
}

/// Whether an event reruns the exercise.
pub open spec fn reruns(e: &WatchEvent) -> bool {
    match e {
        WatchEvent::FileModified { elapsed_nanos } => *elapsed_nanos > debounce_nanos(),
        _ => false,
    }
}

/// The state after a sequence of events.
pub open spec fn watch_after(s: WatchState, es: Seq<WatchEvent>) -> WatchState
    decreases es.len(),
{
    if es.len() == 0 {
        s
    } else {
        watch_next(watch_after(s, es.drop_last()), &es.last()).0
    }
}

/// Once the hint has been shown, no event asks to show it again until the
/// exercise is run again.
pub proof fn lemma_hint_shown_once(s: WatchState, es: Seq<WatchEvent>)
    requires
        s.hint_shown,
        forall|k: int| 0 <= k < es.len() ==> !reruns(&#[trigger] es[k]),
    ensures
        watch_after(s, es).hint_shown,
        forall|k: int|
            0 <= k < es.len() ==> watch_next(watch_after(s, es.take(k)), &#[trigger] es[k]).1
                != WatchAction::ShowHint,
    decreases es.len(),
{
    if es.len() > 0 {
        let init = es.drop_last();
        assert forall|k: int| 0 <= k < init.len() implies !reruns(&#[trigger] init[k]) by {
            assert(init[k] == es[k]);
        }
        lemma_hint_shown_once(s, init);
        assert(!reruns(&es[es.len() - 1]));
        assert forall|k: int| 0 <= k < es.len() implies watch_next(
            watch_after(s, es.take(k)),
            &#[trigger] es[k],
        ).1 != WatchAction::ShowHint by {
            if k < init.len() {
                assert(es.take(k) =~= init.take(k));
                assert(es[k] == init[k]);
            } else {
                assert(es.take(k) =~= init);
            }
        }
    } else {
    }
}

/// A key press as watch mode hears it: the character in lower case.
pub fn normalize_key(byte: u8) -> (r: String)
    ensures
        r@ == lowercase(seq![byte as char]),
{
    let mut one = String::new();
    push_char(&mut one, byte as char);
    to_lowercase(one.as_str())
}

/// A typed line as watch mode hears it: trimmed and in lower case, or nothing
/// when it is blank.
pub fn normalize_line(line: &str) -> (r: Option<String>)
    ensures
        match r {
            Some(t) => t@ == lowercase(trim(line@)) && t@.len() > 0,
            None => lowercase(trim(line@)).len() == 0,
        },
{
    let c = chars_of(line);
    let t = string_of(trim_chars(c.as_slice()).as_slice());
    let lower = to_lowercase(t.as_str());
    let lc = chars_of(lower.as_str());
    if lc.len() == 0 {
        None
    } else {
        Some(lower)
    }
}

} // verus!
