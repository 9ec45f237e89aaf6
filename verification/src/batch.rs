//! The decisions of a batch run, as a state machine.
//!
//! The machine does no work itself. It names the next thing to do; the
//! caller does it and reports what happened as an event; the machine
//! answers with the next state and the next thing to do. All reading and
//! writing of files stays with the caller.

use vstd::prelude::*;

verus! {

/// Why a run ended before any file was processed.
#[derive(Clone, Copy, Debug, PartialEq, Eq, Structural)]
pub enum AbortReason {
    /// The output path exists already.
    OutputCollision,
    /// The reference document could not be opened or decoded.
    PaletteLoadFailed,
}

/// The two steps of one file in directory mode.
#[derive(Clone, Copy, Debug, PartialEq, Eq, Structural)]
pub enum Stage {
    /// The parent directory of the output is being made ready.
    Preparing,
    /// The file is being read, remapped and written.
    Writing,
}

/// Where a run stands.
#[derive(Clone, Copy, Debug, PartialEq, Eq, Structural)]
pub enum BatchState {
    /// Nothing is known yet; the output path is being checked.
    NotStarted,
    /// The output path is free; the reference document is being loaded.
    OutputVerified,
    /// The color map is built; the input path is being classified.
    PaletteLoaded,
    /// The input is a directory; its files are being listed.
    Scanning,
    /// The input is a single file, which is being processed.
    Direct,
    /// The list of files is fixed, and file `index` of `total` is at
    /// `stage`; `failed` of the files before it were given up.
    PerFileProcessing { index: usize, total: usize, failed: usize, stage: Stage },
    /// Every file has had its turn; `failed` of `total` were given up.
    Done { total: usize, failed: usize },
    /// The run ended before any file was processed.
    AbortedPrecondition(AbortReason),
}

/// What the caller reports.
#[derive(Clone, Copy, Debug, PartialEq, Eq, Structural)]
pub enum BatchEvent {
    OutputChecked { exists: bool },
    PaletteRead { loaded: bool },
    InputClassified { is_directory: bool },
    ScanCompleted { files: usize },
    ParentPrepared { ready: bool },
    FileFinished { written: bool },
}

/// What the caller is to do next.
#[derive(Clone, Copy, Debug, PartialEq, Eq, Structural)]
pub enum BatchAction {
    /// Find out whether the output path exists.
    CheckOutput,
    /// Load the reference document and build the color map.
    LoadPalette,
    /// Find out whether the input path is a directory.
    ClassifyInput,
    /// List every file under the input directory, before anything is
    /// written.
    ScanDirectory,
    /// Make sure that the parent directory of the output of file `index`
    /// exists.
    PrepareParent { index: usize },
    /// Read, remap and write file `index` of the list.
    ProcessFile { index: usize },
    /// Read, remap and write the input file itself.
    ProcessInput,
    /// Nothing is left to do.
    Stop,
}

/// A state together with the action that leads on from it.
#[derive(Clone, Copy, Debug, PartialEq, Eq, Structural)]
pub struct Step {
    pub state: BatchState,
    pub action: BatchAction,
}

impl BatchState {
    /// Whether the counters of the state agree with each other: the file at
    /// hand is one of the list, and no more files failed than had their
    /// turn.
    pub open spec fn wf(self) -> bool {
        match self {
            BatchState::PerFileProcessing { index, total, failed, .. } => index < total && failed
                <= index,
            BatchState::Done { total, failed } => failed <= total,
            _ => true,
        }
    }

    /// Whether the run is over.
    pub open spec fn is_terminal(self) -> bool {
        self is Done || self is AbortedPrecondition
    }

    /// The step that follows file `index` of `total`, once it has had its
    /// turn: on to the next file, or done after the last.
    pub open spec fn after_file(index: usize, total: usize, failed: usize) -> Step {
        if index + 1 < total {
            Step {
                state: BatchState::PerFileProcessing {
                    index: (index + 1) as usize,
                    total,
                    failed,
                    stage: Stage::Preparing,
                },
                action: BatchAction::PrepareParent { index: (index + 1) as usize },
            }
        } else {
            Step { state: BatchState::Done { total, failed }, action: BatchAction::Stop }
        }
    }

    /// The step that `event` causes in this state, or `None` where the
    /// state does not wait for such an event.
    pub open spec fn next(self, event: BatchEvent) -> Option<Step> {
        match (self, event) {
            (BatchState::NotStarted, BatchEvent::OutputChecked { exists }) => Some(
                if exists {
                    Step {
                        state: BatchState::AbortedPrecondition(AbortReason::OutputCollision),
                        action: BatchAction::Stop,
                    }
                } else {
                    Step { state: BatchState::OutputVerified, action: BatchAction::LoadPalette }
                },
            ),
            (BatchState::OutputVerified, BatchEvent::PaletteRead { loaded }) => Some(
                if loaded {
                    Step { state: BatchState::PaletteLoaded, action: BatchAction::ClassifyInput }
                } else {
                    Step {
                        state: BatchState::AbortedPrecondition(AbortReason::PaletteLoadFailed),
                        action: BatchAction::Stop,
                    }
                },
            ),
            (BatchState::PaletteLoaded, BatchEvent::InputClassified { is_directory }) => Some(
                if is_directory {
                    Step { state: BatchState::Scanning, action: BatchAction::ScanDirectory }
                } else {
                    Step { state: BatchState::Direct, action: BatchAction::ProcessInput }
                },
            ),
            (BatchState::Scanning, BatchEvent::ScanCompleted { files }) => Some(
                if files == 0 {
                    Step {
                        state: BatchState::Done { total: 0, failed: 0 },
                        action: BatchAction::Stop,
                    }
                } else {
                    Step {
                        state: BatchState::PerFileProcessing {
                            index: 0,
                            total: files,
                            failed: 0,
                            stage: Stage::Preparing,
                        },
                        action: BatchAction::PrepareParent { index: 0 },
                    }
                },
            ),
            (BatchState::Direct, BatchEvent::FileFinished { written }) => Some(
                Step {
                    state: BatchState::Done { total: 1, failed: if written { 0 } else { 1 } },
                    action: BatchAction::Stop,
                },
            ),
            (
                BatchState::PerFileProcessing { index, total, failed, stage: Stage::Preparing },
                BatchEvent::ParentPrepared { ready },
            ) => if !self.wf() {
                None
            } else if ready {
                Some(
                    Step {
                        state: BatchState::PerFileProcessing {
                            index,
                            total,
                            failed,
                            stage: Stage::Writing,
                        },
                        action: BatchAction::ProcessFile { index },
                    },
                )
            } else {
                Some(Self::after_file(index, total, (failed + 1) as usize))
            },
            (
                BatchState::PerFileProcessing { index, total, failed, stage: Stage::Writing },
                BatchEvent::FileFinished { written },
            ) => if !self.wf() {
                None
            } else if written {
                Some(Self::after_file(index, total, failed))
            } else {
                Some(Self::after_file(index, total, (failed + 1) as usize))
            },
            _ => None,
        }
    }

    /// The state in which every run begins, and its first action.
    pub fn start() -> (step: Step)
        ensures
            step == (Step { state: BatchState::NotStarted, action: BatchAction::CheckOutput }),
    {
        Step { state: BatchState::NotStarted, action: BatchAction::CheckOutput }
    }

    fn advance(index: usize, total: usize, failed: usize) -> (step: Step)
        requires
            index < total,
        ensures
            step == Self::after_file(index, total, failed),
    {
        if index + 1 < total {
            Step {
                state: BatchState::PerFileProcessing {
                    index: index + 1,
                    total,
                    failed,
                    stage: Stage::Preparing,
                },
                action: BatchAction::PrepareParent { index: index + 1 },
            }
        } else {
            Step { state: BatchState::Done { total, failed }, action: BatchAction::Stop }
        }
    }

    /// Takes one step: computes [`BatchState::next`].
    ///
    /// An event that the state does not wait for is refused with `None`,
    /// and so is every event in a state whose counters disagree.
    pub fn step(&self, event: BatchEvent) -> (step: Option<Step>)
        ensures
            step == self.next(event),
    {
        match (*self, event) {
            (BatchState::NotStarted, BatchEvent::OutputChecked { exists }) => {
                if exists {
                    Some(
                        Step {
                            state: BatchState::AbortedPrecondition(AbortReason::OutputCollision),
                            action: BatchAction::Stop,
                        },
                    )
                } else {
                    Some(
                        Step {
                            state: BatchState::OutputVerified,
                            action: BatchAction::LoadPalette,
                        },
                    )
                }
            },
            (BatchState::OutputVerified, BatchEvent::PaletteRead { loaded }) => {
                if loaded {
                    Some(
                        Step {
                            state: BatchState::PaletteLoaded,
                            action: BatchAction::ClassifyInput,
                        },
                    )
                } else {
                    Some(
                        Step {
                            state: BatchState::AbortedPrecondition(AbortReason::PaletteLoadFailed),
                            action: BatchAction::Stop,
                        },
                    )
                }
            },
            (BatchState::PaletteLoaded, BatchEvent::InputClassified { is_directory }) => {
                if is_directory {
                    Some(Step { state: BatchState::Scanning, action: BatchAction::ScanDirectory })
                } else {
                    Some(Step { state: BatchState::Direct, action: BatchAction::ProcessInput })
                }
            },
            (BatchState::Scanning, BatchEvent::ScanCompleted { files }) => {
                if files == 0 {
                    Some(
                        Step {
                            state: BatchState::Done { total: 0, failed: 0 },
                            action: BatchAction::Stop,
                        },
                    )
                } else {
                    Some(
                        Step {
                            state: BatchState::PerFileProcessing {
                                index: 0,
                                total: files,
                                failed: 0,
                                stage: Stage::Preparing,
                            },
                            action: BatchAction::PrepareParent { index: 0 },
                        },
                    )
                }
            },
            (BatchState::Direct, BatchEvent::FileFinished { written }) => {
                let failed: usize = if written {
                    0
                } else {
                    1
                };
                Some(Step { state: BatchState::Done { total: 1, failed }, action: BatchAction::Stop })
            },
            (
                BatchState::PerFileProcessing { index, total, failed, stage: Stage::Preparing },
                BatchEvent::ParentPrepared { ready },
            ) => {
                if index >= total || failed > index {
                    None
                } else if ready {
                    Some(
                        Step {
                            state: BatchState::PerFileProcessing {
                                index,
                                total,
                                failed,
                                stage: Stage::Writing,
                            },
                            action: BatchAction::ProcessFile { index },
                        },
                    )
                } else {
                    Some(Self::advance(index, total, failed + 1))
                }
            },
            (
                BatchState::PerFileProcessing { index, total, failed, stage: Stage::Writing },
                BatchEvent::FileFinished { written },
            ) => {
                if index >= total || failed > index {
                    None
                } else if written {
                    Some(Self::advance(index, total, failed))
                } else {
                    Some(Self::advance(index, total, failed + 1))
                }
            },
            _ => None,
        }
    }
}

/// The steps that a run takes from `state` as `events` come in. The run
/// ends with the first event that the state at hand does not wait for.
pub open spec fn run(state: BatchState, events: Seq<BatchEvent>) -> Seq<Step>
    decreases events.len(),
{
    if events.len() == 0 {
        Seq::empty()
    } else {
        match state.next(events[0]) {
            None => Seq::empty(),
            Some(step) => seq![step] + run(step.state, events.drop_first()),
        }
    }
}

/// Whether an action reads the input path or anything under it.
pub open spec fn touches_input(action: BatchAction) -> bool {
    action is ClassifyInput || action is ScanDirectory || action is PrepareParent
        || action is ProcessFile || action is ProcessInput
}

/// A step keeps the counters of the state in agreement.
pub proof fn lemma_next_preserves_wf(state: BatchState, event: BatchEvent)
    requires
        state.wf(),
        state.next(event) is Some,
    ensures
        state.next(event)->0.state.wf(),
{
}

/// Every state that a run passes through has counters that agree, if the
/// state it starts from has.
pub proof fn lemma_run_keeps_wf(state: BatchState, events: Seq<BatchEvent>, k: int)
    requires
        state.wf(),
        0 <= k < run(state, events).len(),
    ensures
        run(state, events)[k].state.wf(),
    decreases events.len(),
{
    let step = state.next(events[0])->0;
    lemma_next_preserves_wf(state, events[0]);
    if k > 0 {
        lemma_run_keeps_wf(step.state, events.drop_first(), k - 1);
    }
}

/// A run that is over takes no further step.
pub proof fn lemma_terminal_is_final(state: BatchState, event: BatchEvent)
    requires
        state.is_terminal(),
    ensures
        state.next(event) is None,
{
}

/// A run is aborted only before its first file: by an output path that
/// exists, or by a reference document that does not load. No report about
/// a file or a directory aborts it.
pub proof fn lemma_abort_only_on_precondition(state: BatchState, event: BatchEvent)
    requires
        state.next(event) matches Some(step) && step.state is AbortedPrecondition,
    ensures
        state.next(event)->0.action == BatchAction::Stop,
        (state == BatchState::NotStarted && event == (BatchEvent::OutputChecked { exists: true })
            && state.next(event)->0.state == BatchState::AbortedPrecondition(
            AbortReason::OutputCollision,
        )) || (state == BatchState::OutputVerified && event == (BatchEvent::PaletteRead {
            loaded: false,
        }) && state.next(event)->0.state == BatchState::AbortedPrecondition(
            AbortReason::PaletteLoadFailed,
        )),
{
}

/// Once the files are listed the list is fixed: every later state counts
/// the same number of files, and each file has its turn in order, whether
/// the one before it failed or not.
pub proof fn lemma_list_is_fixed(state: BatchState, event: BatchEvent)
    requires
        state is PerFileProcessing,
        state.next(event) is Some,
    ensures
        ({
            let index = state->PerFileProcessing_index;
            let total = state->PerFileProcessing_total;
            let after = state.next(event)->0.state;
            match after {
                BatchState::PerFileProcessing { index: i, total: t, .. } => t == total && (i
                    == index || i == index + 1),
                BatchState::Done { total: t, .. } => t == total && index + 1 == total,
                _ => false,
            }
        }),
{
}

/// An output path that exists ends the run at once: its only step is the
/// abort, and with it nothing is ever read.
pub proof fn lemma_collision_guard(events: Seq<BatchEvent>)
    requires
        events.len() > 0,
        events[0] == (BatchEvent::OutputChecked { exists: true }),
    ensures
        run(BatchState::NotStarted, events) == seq![
            Step {
                state: BatchState::AbortedPrecondition(AbortReason::OutputCollision),
                action: BatchAction::Stop,
            },
        ],
{
    let aborted = BatchState::AbortedPrecondition(AbortReason::OutputCollision);
    let rest = events.drop_first();
    assert(run(aborted, rest) == Seq::<Step>::empty()) by {
        if rest.len() > 0 {
            lemma_terminal_is_final(aborted, rest[0]);
        }
    }
    assert(run(BatchState::NotStarted, events) =~= seq![
        Step { state: aborted, action: BatchAction::Stop },
    ]);
}

/// Whatever is reported, no step of a run touches the input unless the
/// run began with a free output path and a loaded reference document.
pub proof fn lemma_input_touched_only_after_preconditions(events: Seq<BatchEvent>, k: int)
    requires
        0 <= k < run(BatchState::NotStarted, events).len(),
        touches_input(run(BatchState::NotStarted, events)[k].action),
    ensures
        k >= 1,
        events.len() >= 2,
        events[0] == (BatchEvent::OutputChecked { exists: false }),
        events[1] == (BatchEvent::PaletteRead { loaded: true }),
{
    let first = BatchState::NotStarted.next(events[0]);
    let rest = events.drop_first();
    assert(first is Some);
    let one = first->0;
    assert(run(BatchState::NotStarted, events) == seq![one] + run(one.state, rest));
    if one.state is AbortedPrecondition {
        if rest.len() > 0 {
            lemma_terminal_is_final(one.state, rest[0]);
        }
        assert(run(one.state, rest) == Seq::<Step>::empty());
    } else {
        assert(one.state == BatchState::OutputVerified);
        assert(k >= 1);
        assert(rest.len() > 0);
        let second = one.state.next(rest[0]);
        assert(second is Some);
        let two = second->0;
        let tail = rest.drop_first();
        assert(run(one.state, rest) == seq![two] + run(two.state, tail));
        assert(rest[0] == events[1]);
        if two.state is AbortedPrecondition {
            if tail.len() > 0 {
                lemma_terminal_is_final(two.state, tail[0]);
            }
            assert(run(two.state, tail) == Seq::<Step>::empty());
        }
    }
}

} // verus!
