//! Extracting an archive, entry by entry.
//!
//! The entries are taken in the order of the archive. Reading an entry,
//! making a directory, writing a file and setting a time are the caller's
//! work; what is done when is decided here, as a machine: the caller does
//! what the machine asks for and tells it what came of it. The first
//! failure ends the archive, and so does the interrupt flag, which is
//! asked after each entry that was made.

use crate::encoding::ZipEncoding;
use crate::error::ExtractError;
use crate::interrupt::{interrupted, InterruptFlag};
use crate::path::SanitizedPath;
use crate::unzip::{
    after_entry, checked, modified_instant, place, placed, plan_entry, planned, progress_text,
    rejection_line, rejection_text, EntryPlan, PlanView,
};
use crate::zip_ext::{
    decoded_name, earliest_of, ArchiveEntry, EntryView, MappedTime, ZipFileExt,
};
use vstd::prelude::*;

verus! {

/// What the caller tells the machine, in specifications.
pub enum EventView {
    /// The entry that was asked for has been read: this is what the archive
    /// says of it.
    Entry(EntryView),
    /// What was asked for is done.
    Done,
    /// What was asked for has failed, with this failure.
    Failed(ExtractError),
}

/// What the caller tells the machine.
#[derive(Debug, PartialEq, Eq)]
pub enum Event {
    /// The entry that was asked for has been read: this is what the archive
    /// says of it.
    Entry(ArchiveEntry),
    /// What was asked for is done.
    Done,
    /// What was asked for has failed, with this failure.
    Failed(ExtractError),
}

impl View for Event {
    type V = EventView;

    open spec fn view(&self) -> EventView {
        match self {
            Event::Entry(entry) => EventView::Entry(entry@),
            Event::Done => EventView::Done,
            Event::Failed(error) => EventView::Failed(*error),
        }
    }
}

/// What the machine asks the caller to do next, in specifications.
pub enum ActionView {
    /// Read the entry at `index` from the archive and tell of it.
    Read { index: int },
    /// Show `line`; the entry is left out.
    Skip { line: Seq<char> },
    /// Show `line`, then make the directory at `place` below the
    /// destination, with the directories above it.
    MakeDir { line: Seq<char>, place: Seq<char> },
    /// Show `line`, then make the directories above `place`, make the file
    /// at `place` anew and copy the content of the entry into it.
    WriteFile { line: Seq<char>, place: Seq<char> },
    /// Set the time of the last change of what stands at `place`.
    SetTime { place: Seq<char>, instant: i64 },
    /// Nothing: every entry has been dealt with.
    Finish,
    /// Show `told`, if there is one, and nothing else: the archive has
    /// failed.
    Fail { told: Option<Seq<char>>, error: ExtractError },
}

/// What the machine asks the caller to do next.
#[derive(Debug, PartialEq, Eq)]
pub enum Action {
    /// Read the entry at `index` from the archive and tell of it.
    Read { index: usize },
    /// Show `line`; the entry is left out.
    Skip { line: String },
    /// Show `line`, then make the directory at `place` below the
    /// destination, with the directories above it.
    MakeDir { line: String, place: String },
    /// Show `line`, then make the directories above `place`, make the file
    /// at `place` anew and copy the content of the entry into it.
    WriteFile { line: String, place: String },
    /// Set the time of the last change of what stands at `place`.
    SetTime { place: String, instant: i64 },
    /// Nothing: every entry has been dealt with.
    Finish,
    /// Show `told`, if there is one, and nothing else: the archive has
    /// failed.
    Fail { told: Option<String>, error: ExtractError },
}

impl View for Action {
    type V = ActionView;

    open spec fn view(&self) -> ActionView {
        match self {
            Action::Read { index } => ActionView::Read { index: *index as int },
            Action::Skip { line } => ActionView::Skip { line: line@ },
            Action::MakeDir { line, place } => ActionView::MakeDir { line: line@, place: place@ },
            Action::WriteFile { line, place } => ActionView::WriteFile {
                line: line@,
                place: place@,
            },
            Action::SetTime { place, instant } => ActionView::SetTime {
                place: place@,
                instant: *instant,
            },
            Action::Finish => ActionView::Finish,
            Action::Fail { told, error } => ActionView::Fail {
                told: match told {
                    Some(line) => Some(line@),
                    None => None,
                },
                error: *error,
            },
        }
    }
}

/// Where an extraction stands, in specifications.
pub enum StageView {
    /// The entry at `index` has been asked for.
    Fetching { index: int },
    /// The entry at `index` is left out, and that is being shown.
    Skipping { index: int },
    /// The entry at `index` is being made at `place`; `due` is the time to
    /// set on it afterwards, if any.
    Making { index: int, place: Seq<char>, due: Option<i64> },
    /// The time of the entry at `index` is being set.
    Stamping { index: int },
    /// The extraction is over, done or failed.
    Finished,
}

/// What an `Extraction` holds.
pub struct EngineView {
    /// The number of entries in the archive.
    pub count: int,
    /// The inner root of the archive.
    pub root: Seq<Seq<char>>,
    /// The encoding of the names, as the view of a `ZipEncoding`.
    pub encoding: Option<Seq<char>>,
    /// Where the extraction stands.
    pub stage: StageView,
}

impl EngineView {
    /// What holds of every state of an extraction: the entry in hand is one
    /// of the archive.
    pub open spec fn wf(&self) -> bool {
        match self.stage {
            StageView::Fetching { index } => 0 <= index < self.count,
            StageView::Skipping { index } => 0 <= index < self.count,
            StageView::Making { index, .. } => 0 <= index < self.count,
            StageView::Stamping { index } => 0 <= index < self.count,
            StageView::Finished => true,
        }
    }

    /// The same extraction at another stage.
    pub open spec fn at(&self, stage: StageView) -> EngineView {
        EngineView { stage, ..*self }
    }
}

/// The start of an extraction: the first entry is asked for, and an
/// archive without entries is done at once.
pub open spec fn started(count: int, root: Seq<Seq<char>>, encoding: Option<Seq<char>>) -> (
    EngineView,
    ActionView,
) {
    let state = EngineView { count, root, encoding, stage: StageView::Finished };
    if count > 0 {
        (state.at(StageView::Fetching { index: 0 }), ActionView::Read { index: 0 })
    } else {
        (state, ActionView::Finish)
    }
}

/// On to the entry after the one at `index`, or done where it was the last.
pub open spec fn advance(state: EngineView, index: int) -> (EngineView, ActionView) {
    if index + 1 < state.count {
        (state.at(StageView::Fetching { index: index + 1 }), ActionView::Read { index: index + 1 })
    } else {
        (state.at(StageView::Finished), ActionView::Finish)
    }
}

/// The extraction ended by the failure `error`.
pub open spec fn stopped(state: EngineView, told: Option<Seq<char>>, error: ExtractError) -> (
    EngineView,
    ActionView,
) {
    (state.at(StageView::Finished), ActionView::Fail { told, error })
}

/// The checkpoint after the entry at `index`: the extraction fails with
/// `Interrupted` where the flag is seen raised, and goes on where not.
pub open spec fn at_checkpoint(state: EngineView, index: int, raised: bool) -> (
    EngineView,
    ActionView,
) {
    match checked(raised) {
        Err(error) => stopped(state, None, error),
        Ok(()) => advance(state, index),
    }
}

/// What follows the reading of the entry at `index`: its plan is carried
/// out, and where there is none the extraction fails. `instant` is the time
/// to set on what the entry gives, if any.
pub open spec fn on_entry(state: EngineView, index: int, entry: EntryView, instant: Option<i64>) -> (
    EngineView,
    ActionView,
) {
    let name = decoded_name(entry, state.encoding);
    match planned(name, entry.is_dir, state.root) {
        Err(error) => stopped(state, rejection_text(name, error), error),
        Ok(plan) => match plan {
            PlanView::Skip { .. } => (
                state.at(StageView::Skipping { index }),
                ActionView::Skip { line: progress_text(plan) },
            ),
            PlanView::MakeDir { target, .. } => (
                state.at(StageView::Making { index, place: placed(target), due: instant }),
                ActionView::MakeDir { line: progress_text(plan), place: placed(target) },
            ),
            PlanView::WriteFile { target, .. } => (
                state.at(StageView::Making { index, place: placed(target), due: instant }),
                ActionView::WriteFile { line: progress_text(plan), place: placed(target) },
            ),
        },
    }
}

/// One step of an extraction: the state after `event`, and what to do
/// next. `instant` is the time to set on what an entry gives, and matters
/// where an entry has been read; `raised` says whether the interrupt flag is
/// seen raised, and matters at the checkpoint after an entry that was made.
/// An entry that is left out has no time set and no checkpoint. Whatever
/// fails ends the extraction with that failure, and so does an event that
/// was not asked for, with `IoFailure`.
pub open spec fn extract_step(
    state: EngineView,
    event: EventView,
    instant: Option<i64>,
    raised: bool,
) -> (EngineView, ActionView) {
    match (state.stage, event) {
        (StageView::Finished, _) => stopped(state, None, ExtractError::IoFailure),
        (_, EventView::Failed(error)) => stopped(state, None, error),
        (StageView::Fetching { index }, EventView::Entry(entry)) => on_entry(
            state,
            index,
            entry,
            instant,
        ),
        (StageView::Skipping { index }, EventView::Done) => advance(state, index),
        (StageView::Making { index, place, due }, EventView::Done) => match due {
            Some(at) => (
                state.at(StageView::Stamping { index }),
                ActionView::SetTime { place, instant: at },
            ),
            None => at_checkpoint(state, index, raised),
        },
        (StageView::Stamping { index }, EventView::Done) => at_checkpoint(state, index, raised),
        _ => stopped(state, None, ExtractError::IoFailure),
    }
}

/// Whether a step asks the interrupt flag: it ends the work on an entry
/// that was made.
pub open spec fn asks_flag(state: EngineView, event: EventView) -> bool {
    event is Done && (state.stage is Stamping || (state.stage matches StageView::Making {
        due,
        ..
    } && due is None))
}

/// Where an extraction stands.
#[derive(Debug)]
enum Stage {
    Fetching { index: usize },
    Skipping { index: usize },
    Making { index: usize, place: String, due: Option<i64> },
    Stamping { index: usize },
    Finished,
}

impl View for Stage {
    type V = StageView;

    closed spec fn view(&self) -> StageView {
        match self {
            Stage::Fetching { index } => StageView::Fetching { index: *index as int },
            Stage::Skipping { index } => StageView::Skipping { index: *index as int },
            Stage::Making { index, place, due } => StageView::Making {
                index: *index as int,
                place: place@,
                due: *due,
            },
            Stage::Stamping { index } => StageView::Stamping { index: *index as int },
            Stage::Finished => StageView::Finished,
        }
    }
}

/// The state of the extraction of one archive.
#[derive(Debug)]
pub struct Extraction {
    count: usize,
    root: SanitizedPath,
    encoding: ZipEncoding,
    stage: Stage,
}

impl View for Extraction {
    type V = EngineView;

    closed spec fn view(&self) -> EngineView {
        EngineView {
            count: self.count as int,
            root: self.root@,
            encoding: self.encoding@,
            stage: self.stage@,
        }
    }
}

impl Extraction {
    #[verifier::type_invariant]
    spec fn well_formed(&self) -> bool {
        self@.wf()
    }

    /// Begins the extraction of an archive of `count` entries with the
    /// inner root `root`, its names read in `encoding`.
    pub fn start(count: usize, root: SanitizedPath, encoding: ZipEncoding) -> (res: (
        Extraction,
        Action,
    ))
        ensures
            (res.0@, res.1@) == started(count as int, root@, encoding@),
    {
        if count > 0 {
            (
                Extraction { count, root, encoding, stage: Stage::Fetching { index: 0 } },
                Action::Read { index: 0 },
            )
        } else {
            (Extraction { count, root, encoding, stage: Stage::Finished }, Action::Finish)
        }
    }

    /// Whether the extraction is over, done or failed.
    pub fn is_over(&self) -> (res: bool)
        ensures
            res == (self@.stage is Finished),
            self@.wf(),
    {
        proof {
            use_type_invariant(self);
        }
        match self.stage {
            Stage::Finished => true,
            _ => false,
        }
    }

    /// Whether the step on `event` asks the interrupt flag.
    fn asks_flag(&self, event: &Event) -> (res: bool)
        ensures
            res == asks_flag(self@, event@),
    {
        match event {
            Event::Done => match self.stage {
                Stage::Stamping { .. } => true,
                Stage::Making { due: None, .. } => true,
                _ => false,
            },
            _ => false,
        }
    }
}

/// On to the entry after the one at `index`, or done where it was the last.
fn advance_to(count: usize, root: SanitizedPath, encoding: ZipEncoding, index: usize) -> (res: (
    Extraction,
    Action,
))
    requires
        index < count,
    ensures
        (res.0@, res.1@) == advance(
            EngineView {
                count: count as int,
                root: root@,
                encoding: encoding@,
                stage: StageView::Finished,
            },
            index as int,
        ),
{
    if index + 1 < count {
        (
            Extraction { count, root, encoding, stage: Stage::Fetching { index: index + 1 } },
            Action::Read { index: index + 1 },
        )
    } else {
        (Extraction { count, root, encoding, stage: Stage::Finished }, Action::Finish)
    }
}

/// Takes an extraction one step further, given the time to set on what an
/// entry gives and whether the interrupt flag is seen raised.
pub fn extract_next(state: Extraction, event: Event, instant: Option<i64>, raised: bool) -> (res: (
    Extraction,
    Action,
))
    ensures
        (res.0@, res.1@) == extract_step(state@, event@, instant, raised),
        state@.wf(),
        res.0@.wf(),
{
    proof {
        use_type_invariant(&state);
    }
    let Extraction { count, root, encoding, stage } = state;
    match (stage, event) {
        (Stage::Finished, _) => (
            Extraction { count, root, encoding, stage: Stage::Finished },
            Action::Fail { told: None, error: ExtractError::IoFailure },
        ),
        (_, Event::Failed(error)) => (
            Extraction { count, root, encoding, stage: Stage::Finished },
            Action::Fail { told: None, error },
        ),
        (Stage::Fetching { index }, Event::Entry(entry)) => {
            let name = entry.decoded_name_lossy(encoding);
            match plan_entry(name.as_str(), entry.is_dir(), &root) {
                Err(error) => {
                    let told = rejection_line(name.as_str(), error);
                    (
                        Extraction { count, root, encoding, stage: Stage::Finished },
                        Action::Fail { told, error },
                    )
                },
                Ok(plan) => {
                    let line = plan.progress_line();
                    match plan {
                        EntryPlan::Skip { .. } => (
                            Extraction { count, root, encoding, stage: Stage::Skipping { index } },
                            Action::Skip { line },
                        ),
                        EntryPlan::MakeDir { target, .. } => {
                            let at = place(&target);
                            let stage = Stage::Making { index, place: at.clone(), due: instant };
                            (
                                Extraction { count, root, encoding, stage },
                                Action::MakeDir { line, place: at },
                            )
                        },
                        EntryPlan::WriteFile { target, .. } => {
                            let at = place(&target);
                            let stage = Stage::Making { index, place: at.clone(), due: instant };
                            (
                                Extraction { count, root, encoding, stage },
                                Action::WriteFile { line, place: at },
                            )
                        },
                    }
                },
            }
        },
        (Stage::Skipping { index }, Event::Done) => advance_to(count, root, encoding, index),
        (Stage::Making { index, place, due }, Event::Done) => match due {
            Some(at) => (
                Extraction { count, root, encoding, stage: Stage::Stamping { index } },
                Action::SetTime { place, instant: at },
            ),
            None => match after_entry(raised) {
                Err(error) => (
                    Extraction { count, root, encoding, stage: Stage::Finished },
                    Action::Fail { told: None, error },
                ),
                Ok(()) => advance_to(count, root, encoding, index),
            },
        },
        (Stage::Stamping { index }, Event::Done) => match after_entry(raised) {
            Err(error) => (
                Extraction { count, root, encoding, stage: Stage::Finished },
                Action::Fail { told: None, error },
            ),
            Ok(()) => advance_to(count, root, encoding, index),
        },
        _ => (
            Extraction { count, root, encoding, stage: Stage::Finished },
            Action::Fail { told: None, error: ExtractError::IoFailure },
        ),
    }
}

/// What the local clock may have said of the stored time of an entry that
/// was read: no instant where the stored time is no date of the calendar
/// or no time of day.
pub open spec fn clock_said(event: EventView, instants: MappedTime) -> bool {
    event matches EventView::Entry(entry) ==> (!entry.modified.is_calendar() ==> instants
        is Unmapped)
}

/// Takes an extraction one step further. Where an entry has been read, it
/// asks the local clock for the instants of its stored time and takes the
/// earliest. At the checkpoint after an entry that was made it asks the
/// interrupt flag, and the extraction fails with `Interrupted` where the
/// holder sees the flag raised. The flag is not asked otherwise, and is
/// then left as it is.
pub fn interruptable_extract(state: Extraction, event: Event, flag: &mut InterruptFlag) -> (res: (
    Extraction,
    Action,
))
    ensures
        exists|instants: MappedTime|
            clock_said(event@, instants) && (res.0@, res.1@) == #[trigger] extract_step(
                state@,
                event@,
                earliest_of(instants),
                final(flag).seen_raised(),
            ),
        old(flag).seen_raised() ==> final(flag).seen_raised(),
        !asks_flag(state@, event@) ==> final(flag).seen_raised() == old(flag).seen_raised(),
        res.0@.wf(),
{
    let ghost mut said = MappedTime::Unmapped;
    let instant = match &event {
        Event::Entry(entry) => {
            let reading = entry.last_modified_chrono();
            proof {
                said = reading.instants;
            }
            modified_instant(&reading)
        },
        _ => None,
    };
    let raised = if state.asks_flag(&event) {
        interrupted(flag)
    } else {
        false
    };
    let res = extract_next(state, event, instant, raised);
    proof {
        assert(clock_said(event@, said));
        assert((res.0@, res.1@) == extract_step(
            state@,
            event@,
            earliest_of(said),
            flag.seen_raised(),
        ));
    }
    res
}

/// An extraction from its start over what it is told, each event with the
/// time to set and whether the flag was seen raised at it: the state at
/// the end, and the last thing asked for.
pub open spec fn run(
    count: int,
    root: Seq<Seq<char>>,
    encoding: Option<Seq<char>>,
    told: Seq<(EventView, Option<i64>, bool)>,
) -> (EngineView, ActionView)
    decreases told.len(),
{
    if told.len() == 0 {
        started(count, root, encoding)
    } else {
        extract_step(
            run(count, root, encoding, told.drop_last()).0,
            told.last().0,
            told.last().1,
            told.last().2,
        )
    }
}

/// The number of entries that the extraction was told of.
pub open spec fn entries_told(told: Seq<(EventView, Option<i64>, bool)>) -> int
    decreases told.len(),
{
    if told.len() == 0 {
        0
    } else {
        entries_told(told.drop_last()) + if told.last().0 is Entry {
            1int
        } else {
            0int
        }
    }
}

/// The place at which an action makes a directory or a file, if it makes
/// one.
pub open spec fn made_at(action: ActionView) -> Option<Seq<char>> {
    match action {
        ActionView::MakeDir { place, .. } => Some(place),
        ActionView::WriteFile { place, .. } => Some(place),
        _ => None,
    }
}

/// The entries are taken in the order of the archive, each once. However
/// an extraction has run, the entry in hand is one of the archive, and
/// while the extraction is not over it is the entry at the index that
/// counts the entries read before it. What is asked for goes with the
/// stage: an entry is read only when the one before it has been dealt
/// with, and an extraction that is done has read every entry.
pub proof fn lemma_extract_in_order(
    count: int,
    root: Seq<Seq<char>>,
    encoding: Option<Seq<char>>,
    told: Seq<(EventView, Option<i64>, bool)>,
)
    requires
        0 <= count,
    ensures
        run(count, root, encoding, told).0.wf(),
        run(count, root, encoding, told).0.count == count,
        run(count, root, encoding, told).0.root == root,
        run(count, root, encoding, told).0.encoding == encoding,
        match run(count, root, encoding, told).0.stage {
            StageView::Fetching { index } => run(count, root, encoding, told).1 == (
                ActionView::Read { index }
            ) && entries_told(told) == index,
            StageView::Skipping { index } => run(count, root, encoding, told).1 is Skip
                && entries_told(told) == index + 1,
            StageView::Making { index, place, .. } => made_at(
                run(count, root, encoding, told).1,
            ) == Some(place) && entries_told(told) == index + 1,
            StageView::Stamping { index } => run(count, root, encoding, told).1 is SetTime
                && entries_told(told) == index + 1,
            StageView::Finished => run(count, root, encoding, told).1 is Fail || (run(
                count,
                root,
                encoding,
                told,
            ).1 is Finish && entries_told(told) == count),
        },
    decreases told.len(),
{
    if told.len() > 0 {
        lemma_extract_in_order(count, root, encoding, told.drop_last());
    }
}

/// An extraction that is over stays over: whatever it is told then, it
/// asks for nothing more. So after the first failure, and after an
/// interrupt, no entry is read and nothing is made.
pub proof fn lemma_extract_over_stays_over(
    count: int,
    root: Seq<Seq<char>>,
    encoding: Option<Seq<char>>,
    told: Seq<(EventView, Option<i64>, bool)>,
    more: Seq<(EventView, Option<i64>, bool)>,
)
    requires
        run(count, root, encoding, told).0.stage is Finished,
    ensures
        run(count, root, encoding, told + more).0.stage is Finished,
        more.len() > 0 ==> run(count, root, encoding, told + more).1 is Fail,
    decreases more.len(),
{
    if more.len() == 0 {
        assert(told + more == told);
    } else {
        assert((told + more).drop_last() == told + more.drop_last());
        lemma_extract_over_stays_over(count, root, encoding, told, more.drop_last());
    }
}

/// The first failure ends the archive. Where anything that was asked for
/// fails, the extraction fails with that failure, and whatever follows, it
/// asks for nothing more.
pub proof fn lemma_extract_ends_at_first_failure(
    count: int,
    root: Seq<Seq<char>>,
    encoding: Option<Seq<char>>,
    told: Seq<(EventView, Option<i64>, bool)>,
    error: ExtractError,
    instant: Option<i64>,
    raised: bool,
    more: Seq<(EventView, Option<i64>, bool)>,
)
    requires
        !(run(count, root, encoding, told).0.stage is Finished),
    ensures
        run(count, root, encoding, told.push((EventView::Failed(error), instant, raised))).1 == (
            ActionView::Fail { told: None, error }
        ),
        run(
            count,
            root,
            encoding,
            told.push((EventView::Failed(error), instant, raised)) + more,
        ).0.stage is Finished,
        more.len() > 0 ==> run(
            count,
            root,
            encoding,
            told.push((EventView::Failed(error), instant, raised)) + more,
        ).1 is Fail,
{
    let failed_at = told.push((EventView::Failed(error), instant, raised));
    assert(failed_at.drop_last() == told);
    lemma_extract_over_stays_over(count, root, encoding, failed_at, more);
}

/// An interrupt stops the archive before the next entry. At the checkpoint
/// after an entry that was made, an extraction that sees the flag raised
/// fails with `Interrupted`; whatever follows, no further entry is read
/// and nothing more is made.
pub proof fn lemma_extract_stops_when_interrupted(
    count: int,
    root: Seq<Seq<char>>,
    encoding: Option<Seq<char>>,
    told: Seq<(EventView, Option<i64>, bool)>,
    instant: Option<i64>,
    more: Seq<(EventView, Option<i64>, bool)>,
)
    requires
        asks_flag(run(count, root, encoding, told).0, EventView::Done),
    ensures
        run(count, root, encoding, told.push((EventView::Done, instant, true))).1 == (
            ActionView::Fail { told: None, error: ExtractError::Interrupted }
        ),
        run(count, root, encoding, told.push((EventView::Done, instant, true)) + more).0.stage
            is Finished,
        more.len() > 0 ==> run(
            count,
            root,
            encoding,
            told.push((EventView::Done, instant, true)) + more,
        ).1 is Fail,
{
    let stopped_at = told.push((EventView::Done, instant, true));
    assert(stopped_at.drop_last() == told);
    lemma_extract_over_stays_over(count, root, encoding, stopped_at, more);
}

/// An entry that is left out is passed over: it gets no time and no
/// checkpoint, and the next entry is asked for, or the extraction is done.
pub proof fn lemma_extract_passes_over_skips(state: EngineView, index: int, instant: Option<i64>, raised: bool)
    requires
        state.stage == (StageView::Skipping { index }),
    ensures
        extract_step(state, EventView::Done, instant, raised) == advance(state, index),
        !asks_flag(state, EventView::Done),
{
}

} // verus!
