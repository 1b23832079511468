//! The evaluator: a stack machine that walks a statement tree with
//! shell-style short-circuit semantics.
//!
//! Evaluation is synchronous and strictly left-to-right.  Everything that
//! touches the operating environment — running an external command, changing
//! or printing the working directory — is handed to the caller as an
//! [`Action`]; the caller performs it and reports an [`ActionOutcome`] back.
//! All decisions (dispatch, short-circuiting, status propagation) are made
//! here and verified against the transition relation `step_model` /
//! `resume_model`.

use vstd::prelude::*;

use crate::ast::Node;
use crate::ast::Statement;
use crate::builtin::Builtin;
use crate::builtin::builtin_of;
use crate::builtin::fe;
use crate::builtin::lookup_builtin;
use crate::builtin::te;
use crate::error::ErrView;
use crate::error::ShellError;
use crate::error::status_view;

verus! {

/// An action the evaluator asks its caller to perform before it can go on.
#[derive(Debug)]
pub enum Action {
    /// Run this external command with these arguments, synchronously.
    RunExternal(String, Vec<String>),
    /// Change the working directory to the home location.
    ChdirHome,
    /// Change the working directory to this path.
    ChdirPath(String),
    /// Print the current working directory.
    ShowDir,
}

/// Specification-level mirror of `Action`.
pub enum ActionView {
    RunExternal(Seq<char>, Seq<Seq<char>>),
    ChdirHome,
    ChdirPath(Seq<char>),
    ShowDir,
}

impl DeepView for Action {
    type V = ActionView;

    open spec fn deep_view(&self) -> ActionView {
        match self {
            Action::RunExternal(name, args) => ActionView::RunExternal(
                name.deep_view(),
                args.deep_view(),
            ),
            Action::ChdirHome => ActionView::ChdirHome,
            Action::ChdirPath(p) => ActionView::ChdirPath(p.deep_view()),
            Action::ShowDir => ActionView::ShowDir,
        }
    }
}

/// What the caller reports back after performing an action.
#[derive(Debug)]
pub enum ActionOutcome {
    /// The external command could not be started; the payload describes why.
    SpawnFailed(String),
    /// The external command ran to completion; `true` means a zero exit code.
    Exited(bool),
    /// The directory change succeeded (`true`) or failed (`false`).
    ChdirDone(bool),
    /// The working directory was printed.
    DirShown,
}

/// Specification-level mirror of `ActionOutcome`.
pub enum OutcomeView {
    SpawnFailed(Seq<char>),
    Exited(bool),
    ChdirDone(bool),
    DirShown,
}

impl DeepView for ActionOutcome {
    type V = OutcomeView;

    open spec fn deep_view(&self) -> OutcomeView {
        match self {
            ActionOutcome::SpawnFailed(m) => OutcomeView::SpawnFailed(m.deep_view()),
            ActionOutcome::Exited(ok) => OutcomeView::Exited(*ok),
            ActionOutcome::ChdirDone(ok) => OutcomeView::ChdirDone(*ok),
            ActionOutcome::DirShown => OutcomeView::DirShown,
        }
    }
}

/// What one evaluation step reports to the caller.
#[derive(Debug)]
pub enum Step {
    /// Internal progress; nothing to do, step again.
    Continue,
    /// Perform this action and report its outcome through `resume`.
    Perform(Action),
    /// A top-level statement has just finished; its status can be read.
    StatementDone,
    /// The `exit` builtin ran: stop the interpreter loop.
    ExitRequested,
    /// The whole line has been evaluated; the status is final.
    Finished,
}

/// Specification-level mirror of `Step`.
pub enum StepView {
    Continue,
    Perform(ActionView),
    StatementDone,
    ExitRequested,
    Finished,
}

impl DeepView for Step {
    type V = StepView;

    open spec fn deep_view(&self) -> StepView {
        match self {
            Step::Continue => StepView::Continue,
            Step::Perform(a) => StepView::Perform(a.deep_view()),
            Step::StatementDone => StepView::StatementDone,
            Step::ExitRequested => StepView::ExitRequested,
            Step::Finished => StepView::Finished,
        }
    }
}

/// One entry of the evaluator's work stack.
#[derive(Debug)]
pub enum Frame {
    /// Evaluate this statement next.
    Run(Statement),
    /// The left side of an `&&` has finished: run this right side only if
    /// the status so far is success.
    AndThen(Statement),
    /// The left side of an `||` has finished: run this right side only if
    /// the status so far is failure.
    OrElse(Statement),
    /// A top-level statement has finished: report its status.
    Report,
}

/// Specification-level mirror of `Frame`.
pub enum FrameView {
    Run(Node),
    AndThen(Node),
    OrElse(Node),
    Report,
}

impl DeepView for Frame {
    type V = FrameView;

    open spec fn deep_view(&self) -> FrameView {
        match self {
            Frame::Run(s) => FrameView::Run(s.deep_view()),
            Frame::AndThen(s) => FrameView::AndThen(s.deep_view()),
            Frame::OrElse(s) => FrameView::OrElse(s.deep_view()),
            Frame::Report => FrameView::Report,
        }
    }
}

/// What the evaluator is waiting on after handing out an action.
#[derive(Debug)]
pub enum Pending {
    /// An external command is running.
    External,
    /// The directory is changing to this path; kept for the diagnostic.
    ChdirPath(String),
    /// The directory is changing to the home location.
    ChdirHome,
    /// The working directory is being printed.
    ShowDir,
}

/// Specification-level mirror of `Pending`.
pub enum PendingView {
    External,
    ChdirPath(Seq<char>),
    ChdirHome,
    ShowDir,
}

impl DeepView for Pending {
    type V = PendingView;

    open spec fn deep_view(&self) -> PendingView {
        match self {
            Pending::External => PendingView::External,
            Pending::ChdirPath(p) => PendingView::ChdirPath(p.deep_view()),
            Pending::ChdirHome => PendingView::ChdirHome,
            Pending::ShowDir => PendingView::ShowDir,
        }
    }
}

/// The evaluator's whole state, as the model sees it.
pub struct EvalModel {
    /// The work stack; the last element is the top.
    pub frames: Seq<FrameView>,
    /// The status of the most recently finished command.
    pub status: Result<(), ErrView>,
    /// The action whose outcome the evaluator is waiting for, if any.
    pub pending: Option<PendingView>,
    /// Whether `exit` has been requested.
    pub halted: bool,
}

/// The evaluator.  Create one per parsed line, then call `step` until it
/// reports `Finished` or `ExitRequested`, answering every `Perform` with
/// `resume`.
#[derive(Debug)]
pub struct Evaluator {
    /// The work stack; the last element is evaluated first.
    pub frames: Vec<Frame>,
    /// The status of the most recently finished command.
    pub status: Result<(), ShellError>,
    /// The action whose outcome the evaluator is waiting for, if any.
    pub pending: Option<Pending>,
    /// Whether `exit` has been requested.
    pub halted: bool,
}

impl DeepView for Evaluator {
    type V = EvalModel;

    open spec fn deep_view(&self) -> EvalModel {
        EvalModel {
            frames: self.frames.deep_view(),
            status: status_view(self.status),
            pending: self.pending.deep_view(),
            halted: self.halted,
        }
    }
}

/// The stack for a fresh statement list: the first statement on top, each
/// statement followed by a report of its status.
pub open spec fn init_frames(items: Seq<Node>) -> Seq<FrameView>
    decreases items.len(),
{
    if items.len() == 0 {
        Seq::empty()
    } else {
        init_frames(items.drop_first()).push(FrameView::Report).push(
            FrameView::Run(items.first()),
        )
    }
}

/// The model of a freshly created evaluator.
pub open spec fn init_model(items: Seq<Node>, status: Result<(), ErrView>) -> EvalModel {
    EvalModel { frames: init_frames(items), status, pending: None, halted: false }
}

/// Diagnostic for `cd` with more than one argument.
pub open spec fn cd_too_many_text() -> Seq<char> {
    "cd: too many arguments"@
}

/// Diagnostic for `cd` to a path that cannot be entered.
pub open spec fn cd_no_such_text(path: Seq<char>) -> Seq<char> {
    "cd: no such file or directory: "@ + path
}

/// Diagnostic for a failed change to the home directory.
pub open spec fn cd_home_text() -> Seq<char> {
    "cd: cannot change to the home directory"@
}

/// One transition of the evaluator.
///
/// The top frame is popped and decides everything: a connective pushes its
/// continuation and its left side; a continuation consults the status; a
/// simple command dispatches through the builtin table, either settling the
/// status itself (`true`, `false`, `cd` with too many arguments), requesting
/// an action, or requesting exit.  An empty stack reports `Finished` and
/// changes nothing.
pub open spec fn step_model(m: EvalModel) -> (EvalModel, StepView) {
    if m.frames.len() == 0 {
        (m, StepView::Finished)
    } else {
        let rest = m.frames.drop_last();
        match m.frames.last() {
            FrameView::Run(n) => match n {
                Node::Simple(name, args) => match builtin_of(name) {
                    Some(Builtin::Exit) => (
                        EvalModel { frames: rest, halted: true, ..m },
                        StepView::ExitRequested,
                    ),
                    Some(Builtin::Cd) => if args.len() == 0 {
                        (
                            EvalModel { frames: rest, pending: Some(PendingView::ChdirHome), ..m },
                            StepView::Perform(ActionView::ChdirHome),
                        )
                    } else if args.len() == 1 {
                        (
                            EvalModel {
                                frames: rest,
                                pending: Some(PendingView::ChdirPath(args[0])),
                                ..m
                            },
                            StepView::Perform(ActionView::ChdirPath(args[0])),
                        )
                    } else {
                        (
                            EvalModel {
                                frames: rest,
                                status: Err(ErrView::Cd(cd_too_many_text())),
                                ..m
                            },
                            StepView::Continue,
                        )
                    },
                    Some(Builtin::True) => (
                        EvalModel { frames: rest, status: Ok(()), ..m },
                        StepView::Continue,
                    ),
                    Some(Builtin::False) => (
                        EvalModel { frames: rest, status: Err(ErrView::False), ..m },
                        StepView::Continue,
                    ),
                    Some(Builtin::Pwd) => (
                        EvalModel { frames: rest, pending: Some(PendingView::ShowDir), ..m },
                        StepView::Perform(ActionView::ShowDir),
                    ),
                    None => (
                        EvalModel { frames: rest, pending: Some(PendingView::External), ..m },
                        StepView::Perform(ActionView::RunExternal(name, args)),
                    ),
                },
                Node::And(l, r) => (
                    EvalModel {
                        frames: rest.push(FrameView::AndThen(*r)).push(FrameView::Run(*l)),
                        ..m
                    },
                    StepView::Continue,
                ),
                Node::Or(l, r) => (
                    EvalModel {
                        frames: rest.push(FrameView::OrElse(*r)).push(FrameView::Run(*l)),
                        ..m
                    },
                    StepView::Continue,
                ),
            },
            FrameView::AndThen(r) => if m.status is Ok {
                (EvalModel { frames: rest.push(FrameView::Run(r)), ..m }, StepView::Continue)
            } else {
                (EvalModel { frames: rest, ..m }, StepView::Continue)
            },
            FrameView::OrElse(r) => if m.status is Ok {
                (EvalModel { frames: rest, ..m }, StepView::Continue)
            } else {
                (EvalModel { frames: rest.push(FrameView::Run(r)), ..m }, StepView::Continue)
            },
            FrameView::Report => (EvalModel { frames: rest, ..m }, StepView::StatementDone),
        }
    }
}

/// Whether an outcome answers the action the evaluator handed out.
pub open spec fn outcome_answers(p: Option<PendingView>, o: OutcomeView) -> bool {
    match (p, o) {
        (Some(PendingView::External), OutcomeView::SpawnFailed(_)) => true,
        (Some(PendingView::External), OutcomeView::Exited(_)) => true,
        (Some(PendingView::ChdirPath(_)), OutcomeView::ChdirDone(_)) => true,
        (Some(PendingView::ChdirHome), OutcomeView::ChdirDone(_)) => true,
        (Some(PendingView::ShowDir), OutcomeView::DirShown) => true,
        _ => false,
    }
}

/// How a reported outcome settles the status of the command that asked for
/// the action.  A spawn failure and a non-zero exit are failures, never
/// fatal; a failed directory change fails with a diagnostic naming the
/// target; a printed directory is a success.
pub open spec fn resume_model(m: EvalModel, o: OutcomeView) -> EvalModel {
    let st: Result<(), ErrView> = match (m.pending, o) {
        (Some(PendingView::External), OutcomeView::SpawnFailed(msg)) => Err(ErrView::IOError(msg)),
        (Some(PendingView::External), OutcomeView::Exited(ok)) => if ok {
            Ok(())
        } else {
            Err(ErrView::NonZeroExit)
        },
        (Some(PendingView::ChdirPath(p)), OutcomeView::ChdirDone(ok)) => if ok {
            Ok(())
        } else {
            Err(ErrView::Cd(cd_no_such_text(p)))
        },
        (Some(PendingView::ChdirHome), OutcomeView::ChdirDone(ok)) => if ok {
            Ok(())
        } else {
            Err(ErrView::Cd(cd_home_text()))
        },
        (Some(PendingView::ShowDir), OutcomeView::DirShown) => Ok(()),
        _ => m.status,
    };
    EvalModel { status: st, pending: None, ..m }
}

impl Evaluator {
    /// A fresh evaluator for one parsed line, with the status carried over
    /// from the line before it (an empty line leaves it untouched).
    pub fn new(items: Vec<Statement>, status: Result<(), ShellError>) -> (r: Evaluator)
        ensures
            r.deep_view() == init_model(items.deep_view(), status_view(status)),
    {
        let ghost all = items.deep_view();
        let mut items = items;
        let mut frames: Vec<Frame> = Vec::new();
        proof {
            assert(items.deep_view() =~= all.take(all.len() as int));
            assert(all.skip(all.len() as int) =~= Seq::<Node>::empty());
            assert(frames.deep_view() =~= Seq::<FrameView>::empty());
        }
        while items.len() > 0
            invariant
                items@.len() <= all.len(),
                items.deep_view() == all.take(items@.len() as int),
                frames.deep_view() == init_frames(all.skip(items@.len() as int)),
            decreases items.len(),
        {
            let ghost j = items@.len() as int;
            let ghost prev_deep = items.deep_view();
            let it = items.pop().unwrap();
            proof {
                assert(it.deep_view() == prev_deep[j - 1]);
                assert(prev_deep[j - 1] == all[j - 1]);
                assert(items.deep_view() =~= all.take(j - 1));
            }
            let ghost frames_before = frames.deep_view();
            frames.push(Frame::Report);
            frames.push(Frame::Run(it));
            proof {
                let suffix = all.skip(j - 1);
                assert(suffix.drop_first() =~= all.skip(j));
                assert(suffix.first() == all[j - 1]);
                assert(frames.deep_view() =~= frames_before.push(FrameView::Report).push(
                    FrameView::Run(it.deep_view()),
                ));
                assert(frames.deep_view() == init_frames(suffix));
            }
        }
        proof {
            assert(all.skip(0) =~= all);
        }
        Evaluator { frames, status, pending: None, halted: false }
    }

    /// The status of the most recently finished command.
    pub fn status(&self) -> (r: &Result<(), ShellError>)
        ensures
            r == &self.status,
    {
        &self.status
    }

    /// Consumes the evaluator, yielding its final status.
    pub fn into_status(self) -> (r: Result<(), ShellError>)
        ensures
            r == self.status,
    {
        self.status
    }

    /// Performs one step of evaluation, as `step_model` describes it.
    pub fn step(&mut self) -> (r: Step)
        requires
            !old(self).halted,
            old(self).pending is None,
        ensures
            final(self).deep_view() == step_model(old(self).deep_view()).0,
            r.deep_view() == step_model(old(self).deep_view()).1,
    {
        let ghost m0 = self.deep_view();
        if self.frames.len() == 0 {
            return Step::Finished;
        }
        proof {
            assert(m0.frames.len() == self.frames@.len());
        }
        let ghost rest = m0.frames.drop_last();
        let top = self.frames.pop().unwrap();
        proof {
            assert(top.deep_view() == m0.frames.last());
            assert(self.frames.deep_view() =~= rest);
        }
        match top {
            Frame::Run(stmt) => match stmt {
                Statement::Simple(name, args) => {
                    proof {
                        assert(top.deep_view() == FrameView::Run(
                            Node::Simple(name.deep_view(), args.deep_view()),
                        ));
                    }
                    match lookup_builtin(&name) {
                        Some(Builtin::Exit) => {
                            self.halted = true;
                            proof {
                                assert(self.deep_view() == step_model(m0).0);
                            }
                            Step::ExitRequested
                        },
                        Some(Builtin::Cd) => {
                            if args.len() == 0 {
                                self.pending = Some(Pending::ChdirHome);
                                proof {
                                    assert(self.deep_view() == step_model(m0).0);
                                }
                                Step::Perform(Action::ChdirHome)
                            } else if args.len() == 1 {
                                let mut args = args;
                                let path = args.pop().unwrap();
                                let shown = path.clone();
                                proof {
                                    assert(path.deep_view() == m0.frames.last()->Run_0->Simple_1[0]);
                                }
                                self.pending = Some(Pending::ChdirPath(path));
                                proof {
                                    assert(self.deep_view() == step_model(m0).0);
                                }
                                Step::Perform(Action::ChdirPath(shown))
                            } else {
                                self.status = Err(
                                    ShellError::Cd(String::from_str("cd: too many arguments")),
                                );
                                proof {
                                    assert(self.deep_view() == step_model(m0).0);
                                }
                                Step::Continue
                            }
                        },
                        Some(Builtin::True) => {
                            self.status = te();
                            proof {
                                assert(self.deep_view() == step_model(m0).0);
                            }
                            Step::Continue
                        },
                        Some(Builtin::False) => {
                            self.status = fe();
                            proof {
                                assert(self.deep_view() == step_model(m0).0);
                            }
                            Step::Continue
                        },
                        Some(Builtin::Pwd) => {
                            self.pending = Some(Pending::ShowDir);
                            proof {
                                assert(self.deep_view() == step_model(m0).0);
                            }
                            Step::Perform(Action::ShowDir)
                        },
                        None => {
                            self.pending = Some(Pending::External);
                            proof {
                                assert(self.deep_view() == step_model(m0).0);
                            }
                            Step::Perform(Action::RunExternal(name, args))
                        },
                    }
                },
                Statement::And(l, r) => {
                    self.frames.push(Frame::AndThen(*r));
                    self.frames.push(Frame::Run(*l));
                    proof {
                        assert(self.frames.deep_view() =~= rest.push(
                            FrameView::AndThen(r.deep_view()),
                        ).push(FrameView::Run(l.deep_view())));
                        assert(self.deep_view() == step_model(m0).0);
                    }
                    Step::Continue
                },
                Statement::Or(l, r) => {
                    self.frames.push(Frame::OrElse(*r));
                    self.frames.push(Frame::Run(*l));
                    proof {
                        assert(self.frames.deep_view() =~= rest.push(
                            FrameView::OrElse(r.deep_view()),
                        ).push(FrameView::Run(l.deep_view())));
                        assert(self.deep_view() == step_model(m0).0);
                    }
                    Step::Continue
                },
            },
            Frame::AndThen(rhs) => {
                if self.status.is_ok() {
                    self.frames.push(Frame::Run(rhs));
                    proof {
                        assert(self.frames.deep_view() =~= rest.push(
                            FrameView::Run(rhs.deep_view()),
                        ));
                        assert(self.deep_view() == step_model(m0).0);
                    }
                } else {
                    proof {
                        assert(self.deep_view() == step_model(m0).0);
                    }
                }
                Step::Continue
            },
            Frame::OrElse(rhs) => {
                if self.status.is_ok() {
                    proof {
                        assert(self.deep_view() == step_model(m0).0);
                    }
                } else {
                    self.frames.push(Frame::Run(rhs));
                    proof {
                        assert(self.frames.deep_view() =~= rest.push(
                            FrameView::Run(rhs.deep_view()),
                        ));
                        assert(self.deep_view() == step_model(m0).0);
                    }
                }
                Step::Continue
            },
            Frame::Report => {
                proof {
                    assert(self.deep_view() == step_model(m0).0);
                }
                Step::StatementDone
            },
        }
    }

    /// Feeds back the outcome of the action the last step handed out, as
    /// `resume_model` describes it.
    pub fn resume(&mut self, outcome: ActionOutcome)
        requires
            outcome_answers(old(self).deep_view().pending, outcome.deep_view()),
        ensures
            final(self).deep_view() == resume_model(old(self).deep_view(), outcome.deep_view()),
    {
        let ghost m0 = self.deep_view();
        let mut taken: Option<Pending> = None;
        core::mem::swap(&mut self.pending, &mut taken);
        match (taken, outcome) {
            (Some(Pending::External), ActionOutcome::SpawnFailed(msg)) => {
                self.status = Err(ShellError::IOError(msg));
            },
            (Some(Pending::External), ActionOutcome::Exited(ok)) => {
                self.status = if ok {
                    Ok(())
                } else {
                    Err(ShellError::NonZeroExit)
                };
            },
            (Some(Pending::ChdirPath(path)), ActionOutcome::ChdirDone(ok)) => {
                if ok {
                    self.status = Ok(());
                } else {
                    let mut msg = String::from_str("cd: no such file or directory: ");
                    msg.append(path.as_str());
                    self.status = Err(ShellError::Cd(msg));
                }
            },
            (Some(Pending::ChdirHome), ActionOutcome::ChdirDone(ok)) => {
                if ok {
                    self.status = Ok(());
                } else {
                    self.status = Err(
                        ShellError::Cd(String::from_str("cd: cannot change to the home directory")),
                    );
                }
            },
            (Some(Pending::ShowDir), ActionOutcome::DirShown) => {
                self.status = Ok(());
            },
            _ => {
                proof {
                    assert(false);
                }
            },
        }
    }
}

/// Number of nodes in a statement model.
pub open spec fn node_size(n: Node) -> nat
    decreases n,
{
    match n {
        Node::Simple(_, _) => 1,
        Node::And(l, r) => 1 + node_size(*l) + node_size(*r),
        Node::Or(l, r) => 1 + node_size(*l) + node_size(*r),
    }
}

/// Weight of one stack frame.
pub open spec fn frame_weight(f: FrameView) -> nat {
    match f {
        FrameView::Run(n) => 2 * node_size(n),
        FrameView::AndThen(n) => 2 * node_size(n) + 1,
        FrameView::OrElse(n) => 2 * node_size(n) + 1,
        FrameView::Report => 1,
    }
}

/// Total weight of the stack.
pub open spec fn stack_weight(fs: Seq<FrameView>) -> nat
    decreases fs.len(),
{
    if fs.len() == 0 {
        0
    } else {
        frame_weight(fs.last()) + stack_weight(fs.drop_last())
    }
}

/// Every step that reports `Continue` or `StatementDone` strictly shrinks
/// the stack's weight, so evaluation cannot loop between actions.
proof fn lemma_step_weight(m: EvalModel)
    requires
        step_model(m).1 is Continue || step_model(m).1 is StatementDone,
    ensures
        stack_weight(step_model(m).0.frames) < stack_weight(m.frames),
{
    let rest = m.frames.drop_last();
    match m.frames.last() {
        FrameView::Run(n) => match n {
            Node::Simple(name, args) => {
            },
            Node::And(l, r) => {
                let f1 = rest.push(FrameView::AndThen(*r));
                let f2 = f1.push(FrameView::Run(*l));
                assert(f2.drop_last() =~= f1);
                assert(f1.drop_last() =~= rest);
                assert(stack_weight(f1) == 2 * node_size(*r) + 1 + stack_weight(rest));
                assert(stack_weight(f2) == 2 * node_size(*l) + stack_weight(f1));
            },
            Node::Or(l, r) => {
                let f1 = rest.push(FrameView::OrElse(*r));
                let f2 = f1.push(FrameView::Run(*l));
                assert(f2.drop_last() =~= f1);
                assert(f1.drop_last() =~= rest);
                assert(stack_weight(f1) == 2 * node_size(*r) + 1 + stack_weight(rest));
                assert(stack_weight(f2) == 2 * node_size(*l) + stack_weight(f1));
            },
        },
        FrameView::AndThen(r) => {
            if m.status is Ok {
                let f1 = rest.push(FrameView::Run(r));
                assert(f1.drop_last() =~= rest);
                assert(stack_weight(f1) == 2 * node_size(r) + stack_weight(rest));
            }
        },
        FrameView::OrElse(r) => {
            if !(m.status is Ok) {
                let f1 = rest.push(FrameView::Run(r));
                assert(f1.drop_last() =~= rest);
                assert(stack_weight(f1) == 2 * node_size(r) + stack_weight(rest));
            }
        },
        FrameView::Report => {
        },
    }
}

/// The outcome of evaluating as far as possible without outside help.
pub enum PureRun {
    /// Evaluation finished; this is the final status.
    Completed(Result<(), ErrView>),
    /// Evaluation stopped because `exit` was requested.
    Exited,
    /// Evaluation cannot go on without an action's outcome.
    NeedsOutside,
}

/// Runs the model until it finishes, requests exit, or needs an action
/// performed by the caller.
pub open spec fn run_pure(m: EvalModel) -> PureRun
    decreases stack_weight(m.frames),
    via run_pure_decreases
{
    let next = step_model(m);
    match next.1 {
        StepView::Continue => run_pure(next.0),
        StepView::StatementDone => run_pure(next.0),
        StepView::Perform(_) => PureRun::NeedsOutside,
        StepView::ExitRequested => PureRun::Exited,
        StepView::Finished => PureRun::Completed(next.0.status),
    }
}

#[via_fn]
proof fn run_pure_decreases(m: EvalModel) {
    if step_model(m).1 is Continue || step_model(m).1 is StatementDone {
        lemma_step_weight(m);
    }
}

/// What the dispatch table says of the builtin names the laws below use.
proof fn lemma_builtin_literals()
    ensures
        builtin_of("true"@) == Some(Builtin::True),
        builtin_of("false"@) == Some(Builtin::False),
        builtin_of("cd"@) == Some(Builtin::Cd),
{
    reveal_strlit("exit");
    reveal_strlit("cd");
    reveal_strlit("true");
    reveal_strlit("false");
    assert("exit"@.len() == 4);
    assert("cd"@.len() == 2);
    assert("true"@.len() == 4);
    assert("false"@.len() == 5);
    assert("true"@[0] == 't');
    assert("exit"@[0] == 'e');
    assert("true"@ != "exit"@);
    assert("true"@ != "cd"@);
    assert("false"@ != "exit"@);
    assert("false"@ != "cd"@);
    assert("false"@ != "true"@);
    assert("cd"@ != "exit"@);
}

/// The stack of a single-statement line: a report below, the statement on
/// top.
proof fn lemma_init_frames_one(n: Node)
    ensures
        init_frames(seq![n]) == seq![FrameView::Report, FrameView::Run(n)],
{
    let items = seq![n];
    assert(items.drop_first() =~= Seq::<Node>::empty());
    assert(init_frames(Seq::<Node>::empty()) == Seq::<FrameView>::empty());
    assert(items.first() == n);
    assert(init_frames(items) == init_frames(items.drop_first()).push(FrameView::Report).push(
        FrameView::Run(items.first()),
    ));
    assert(init_frames(items) =~= seq![FrameView::Report, FrameView::Run(n)]);
}

/// `&&` short-circuits: when its left side is the `false` builtin, the
/// statement finishes with `false`'s failure whatever stands on the right.
/// The right side is never evaluated: the whole run completes without one
/// action being requested of the caller, for every `x` and every starting
/// status.
pub proof fn lemma_and_short_circuit(x: Node, st0: Result<(), ErrView>)
    ensures
        run_pure(
            init_model(
                seq![Node::And(Box::new(Node::Simple("false"@, Seq::empty())), Box::new(x))],
                st0,
            ),
        ) == PureRun::Completed(Err::<(), ErrView>(ErrView::False)),
{
    lemma_builtin_literals();
    let leaf = Node::Simple("false"@, Seq::empty());
    let n = Node::And(Box::new(leaf), Box::new(x));
    let items = seq![n];
    let m0 = init_model(items, st0);
    lemma_init_frames_one(n);
    assert(m0.frames == seq![FrameView::Report, FrameView::Run(n)]);
    let m1 = EvalModel {
        frames: seq![FrameView::Report, FrameView::AndThen(x), FrameView::Run(leaf)],
        status: st0,
        pending: None,
        halted: false,
    };
    assert(m0.frames.drop_last() =~= seq![FrameView::Report]);
    assert(step_model(m0).0.frames =~= m1.frames);
    assert(step_model(m0) == (m1, StepView::Continue));
    assert(run_pure(m0) == run_pure(m1));
    let m2 = EvalModel {
        frames: seq![FrameView::Report, FrameView::AndThen(x)],
        status: Err(ErrView::False),
        pending: None,
        halted: false,
    };
    assert(builtin_of("false"@) == Some(Builtin::False));
    assert(m1.frames.drop_last() =~= m2.frames);
    assert(step_model(m1) == (m2, StepView::Continue));
    assert(run_pure(m1) == run_pure(m2));
    let m3 = EvalModel { frames: seq![FrameView::Report], ..m2 };
    assert(m2.frames.drop_last() =~= m3.frames);
    assert(step_model(m2) == (m3, StepView::Continue));
    assert(run_pure(m2) == run_pure(m3));
    let m4 = EvalModel { frames: Seq::empty(), ..m2 };
    assert(m3.frames.drop_last() =~= m4.frames);
    assert(step_model(m3) == (m4, StepView::StatementDone));
    assert(run_pure(m3) == run_pure(m4));
    assert(step_model(m4) == (m4, StepView::Finished));
    assert(run_pure(m4) == PureRun::Completed(Err::<(), ErrView>(ErrView::False)));
}

/// `||` short-circuits: when its left side is the `true` builtin, the
/// statement finishes successfully whatever stands on the right.  The right
/// side is never evaluated: the whole run completes without one action being
/// requested of the caller, for every `x` and every starting status.
pub proof fn lemma_or_short_circuit(x: Node, st0: Result<(), ErrView>)
    ensures
        run_pure(
            init_model(
                seq![Node::Or(Box::new(Node::Simple("true"@, Seq::empty())), Box::new(x))],
                st0,
            ),
        ) == PureRun::Completed(Ok::<(), ErrView>(())),
{
    lemma_builtin_literals();
    let leaf = Node::Simple("true"@, Seq::empty());
    let n = Node::Or(Box::new(leaf), Box::new(x));
    let items = seq![n];
    let m0 = init_model(items, st0);
    lemma_init_frames_one(n);
    assert(m0.frames == seq![FrameView::Report, FrameView::Run(n)]);
    let m1 = EvalModel {
        frames: seq![FrameView::Report, FrameView::OrElse(x), FrameView::Run(leaf)],
        status: st0,
        pending: None,
        halted: false,
    };
    assert(m0.frames.drop_last() =~= seq![FrameView::Report]);
    assert(step_model(m0).0.frames =~= m1.frames);
    assert(step_model(m0) == (m1, StepView::Continue));
    assert(run_pure(m0) == run_pure(m1));
    let m2 = EvalModel {
        frames: seq![FrameView::Report, FrameView::OrElse(x)],
        status: Ok(()),
        pending: None,
        halted: false,
    };
    assert(builtin_of("true"@) == Some(Builtin::True));
    assert(m1.frames.drop_last() =~= m2.frames);
    assert(step_model(m1) == (m2, StepView::Continue));
    assert(run_pure(m1) == run_pure(m2));
    let m3 = EvalModel { frames: seq![FrameView::Report], ..m2 };
    assert(m2.frames.drop_last() =~= m3.frames);
    assert(step_model(m2) == (m3, StepView::Continue));
    assert(run_pure(m2) == run_pure(m3));
    let m4 = EvalModel { frames: Seq::empty(), ..m2 };
    assert(m3.frames.drop_last() =~= m4.frames);
    assert(step_model(m3) == (m4, StepView::StatementDone));
    assert(run_pure(m3) == run_pure(m4));
    assert(step_model(m4) == (m4, StepView::Finished));
    assert(run_pure(m4) == PureRun::Completed(Ok::<(), ErrView>(())));
}

/// `cd` with more than one argument fails at once with its diagnostic and
/// requests no directory change of the caller.
pub proof fn lemma_cd_too_many(m: EvalModel, args: Seq<Seq<char>>)
    requires
        m.frames.len() > 0,
        m.frames.last() == FrameView::Run(Node::Simple("cd"@, args)),
        args.len() >= 2,
    ensures
        step_model(m).0 == (EvalModel {
            frames: m.frames.drop_last(),
            status: Err(ErrView::Cd(cd_too_many_text())),
            ..m
        }),
        step_model(m).1 == StepView::Continue,
{
    lemma_builtin_literals();
}

/// `cd` with no argument asks for a change to the home location, and a
/// successful change leaves a success status.
pub proof fn lemma_cd_home(m: EvalModel)
    requires
        m.frames.len() > 0,
        m.frames.last() == FrameView::Run(Node::Simple("cd"@, Seq::empty())),
    ensures
        step_model(m).1 == StepView::Perform(ActionView::ChdirHome),
        resume_model(step_model(m).0, OutcomeView::ChdirDone(true)).status == Ok::<(), ErrView>(()),
{
    lemma_builtin_literals();
}

/// A directory change that could not be performed leaves a failure status
/// whose diagnostic names the path.
pub proof fn lemma_cd_missing_path(m: EvalModel, path: Seq<char>)
    requires
        m.pending == Some(PendingView::ChdirPath(path)),
    ensures
        resume_model(m, OutcomeView::ChdirDone(false)).status == Err::<(), ErrView>(
            ErrView::Cd(cd_no_such_text(path)),
        ),
{
}

} // verus!
