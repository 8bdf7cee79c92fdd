//! The dispatcher: the one consumer of the bus. It owns the session state and
//! decides, event by event, what is to be done.

use crate::common::Failure;
use crate::hotkey::HotkeyType;
use crate::message::Message;
use crate::text::split_words;
use crate::text::views;
use crate::text::words;
use crate::window::Window;
use vstd::prelude::*;
use vstd::string::*;

verus! {

/// What the dispatcher asks of the world around it.
#[derive(Clone, Debug, PartialEq, Eq)]
pub enum Action {
    /// Launch `program` with `args`.
    Spawn { program: String, args: Vec<String> },
    /// Ask the system for one notice when the cursor leaves the window.
    ArmTracking(Window),
    /// Nothing to do.
    Nothing,
    /// Leave the loop: the process ends.
    Shutdown,
}

/// What an `Action` holds.
pub enum ActionView {
    Spawn { program: Seq<char>, args: Seq<Seq<char>> },
    ArmTracking(Window),
    Nothing,
    Shutdown,
}

impl View for Action {
    type V = ActionView;

    open spec fn view(&self) -> ActionView {
        match self {
            Action::Spawn { program, args } => ActionView::Spawn {
                program: program@,
                args: views(args@),
            },
            Action::ArmTracking(w) => ActionView::ArmTracking(*w),
            Action::Nothing => ActionView::Nothing,
            Action::Shutdown => ActionView::Shutdown,
        }
    }
}

/// The session state: whether a notice of the cursor's leaving is awaited.
#[derive(Clone, Copy, Debug, PartialEq, Eq, Structural)]
pub struct DispatcherState {
    pub tracking_mouse: bool,
}

/// The executable among the words of a command line: the first word, or
/// nothing where there is no word.
pub open spec fn program_in(w: Seq<Seq<char>>) -> Seq<char> {
    if w.len() > 0 {
        w[0]
    } else {
        Seq::empty()
    }
}

/// The arguments among the words of a command line: the words after the
/// first.
pub open spec fn arguments_in(w: Seq<Seq<char>>) -> Seq<Seq<char>> {
    if w.len() > 0 {
        w.skip(1)
    } else {
        Seq::empty()
    }
}

/// The executable of a command line.
pub open spec fn program_of(command: Seq<char>) -> Seq<char> {
    program_in(words(command))
}

/// The arguments of a command line.
pub open spec fn arguments_of(command: Seq<char>) -> Seq<Seq<char>> {
    arguments_in(words(command))
}

/// The state after an event.
pub open spec fn next_state(state: DispatcherState, message: Message) -> DispatcherState {
    match message {
        Message::TrackMouse(_) | Message::ActiveWindowChange(_) => DispatcherState {
            tracking_mouse: true,
        },
        Message::MouseLeft => DispatcherState { tracking_mouse: false },
        _ => state,
    }
}

/// The action that an event calls for.
pub open spec fn action_of(state: DispatcherState, message: Message) -> ActionView {
    match message {
        Message::HotkeyPressed(slot, command) => match slot {
            HotkeyType::Main => ActionView::Spawn {
                program: program_of(command@),
                args: arguments_of(command@),
            },
            HotkeyType::Second => ActionView::Nothing,
            HotkeyType::Third => ActionView::Shutdown,
        },
        Message::TrackMouse(w) | Message::ActiveWindowChange(w) => if state.tracking_mouse {
            ActionView::Nothing
        } else {
            ActionView::ArmTracking(w)
        },
        Message::MouseLeft => ActionView::Nothing,
        Message::Exit => ActionView::Shutdown,
    }
}

/// The actions that a run of events calls for, one after the other, up to
/// and with the first that ends the loop.
pub open spec fn run_actions(state: DispatcherState, messages: Seq<Message>) -> Seq<ActionView>
    decreases messages.len(),
{
    if messages.len() == 0 {
        Seq::empty()
    } else {
        let first = action_of(state, messages[0]);
        if first is Shutdown {
            seq![first]
        } else {
            seq![first] + run_actions(next_state(state, messages[0]), messages.drop_first())
        }
    }
}

/// How many of the actions arm the tracking.
pub open spec fn arm_count(actions: Seq<ActionView>) -> nat
    decreases actions.len(),
{
    if actions.len() == 0 {
        0
    } else if actions[0] is ArmTracking {
        1 + arm_count(actions.drop_first())
    } else {
        arm_count(actions.drop_first())
    }
}

/// The executable and the arguments among the words of a command line.
pub fn command_from_words(parts: &Vec<String>) -> (r: (String, Vec<String>))
    ensures
        r.0@ == program_in(views(parts@)),
        views(r.1@) == arguments_in(views(parts@)),
{
    let mut args: Vec<String> = Vec::new();
    if parts.len() == 0 {
        assert(views(args@) =~= Seq::<Seq<char>>::empty());
        return (String::new(), args);
    }
    let program = parts[0].clone();
    let mut i: usize = 1;
    while i < parts.len()
        invariant
            1 <= i <= parts.len(),
            args@ == parts@.subrange(1, i as int),
        decreases parts.len() - i,
    {
        args.push(parts[i].clone());
        i += 1;
    }
    assert(views(args@) =~= views(parts@).skip(1));
    (program, args)
}

/// Splits a command line at white space into its executable and arguments.
pub fn split_command(command: &str) -> (r: (String, Vec<String>))
    ensures
        r.0@ == program_of(command@),
        views(r.1@) == arguments_of(command@),
{
    let parts = split_words(command);
    command_from_words(&parts)
}

/// What a launch that was asked for comes to: nothing where the process
/// started, `SpawnFailure` where it did not. There is no second try.
pub fn on_launch(launched: bool) -> (r: Option<Failure>)
    ensures
        r == if launched {
            None::<Failure>
        } else {
            Some(Failure::SpawnFailure)
        },
{
    if launched {
        None
    } else {
        Some(Failure::SpawnFailure)
    }
}

impl DispatcherState {
    /// The state at the start: nothing is awaited.
    pub fn new() -> (s: DispatcherState)
        ensures
            s == (DispatcherState { tracking_mouse: false }),
    {
        DispatcherState { tracking_mouse: false }
    }

    /// Takes one event from the bus: moves to the next state and says what
    /// is to be done.
    pub fn step(&mut self, message: &Message) -> (action: Action)
        ensures
            *final(self) == next_state(*old(self), *message),
            action@ == action_of(*old(self), *message),
    {
        match message {
            Message::HotkeyPressed(slot, command) => match slot {
                HotkeyType::Main => {
                    let (program, args) = split_command(command.as_str());
                    Action::Spawn { program, args }
                },
                HotkeyType::Second => Action::Nothing,
                HotkeyType::Third => Action::Shutdown,
            },
            Message::TrackMouse(w) | Message::ActiveWindowChange(w) => {
                if self.tracking_mouse {
                    Action::Nothing
                } else {
                    self.tracking_mouse = true;
                    Action::ArmTracking(*w)
                }
            },
            Message::MouseLeft => {
                self.tracking_mouse = false;
                Action::Nothing
            },
            Message::Exit => Action::Shutdown,
        }
    }

    /// Takes what the bus delivered: an event is handled as `step` handles
    /// it; a bus that has lost its senders is a failure, and the state stays.
    pub fn on_delivery(&mut self, delivery: Option<Message>) -> (r: Result<Action, Failure>)
        ensures
            match delivery {
                Some(message) => {
                    &&& r matches Ok(action) && action@ == action_of(*old(self), message)
                    &&& *final(self) == next_state(*old(self), message)
                },
                None => {
                    &&& r == Err::<Action, Failure>(Failure::ChannelDisconnected)
                    &&& *final(self) == *old(self)
                },
            },
    {
        match delivery {
            Some(message) => Ok(self.step(&message)),
            None => Err(Failure::ChannelDisconnected),
        }
    }
}

/// Once the cursor has left, the next focus change arms the tracking again,
/// for the window that gained the focus.
pub proof fn lemma_mouse_leave_rearms(state: DispatcherState, window: Window)
    ensures
        action_of(next_state(state, Message::MouseLeft), Message::ActiveWindowChange(window))
            == ActionView::ArmTracking(window),
        action_of(next_state(state, Message::MouseLeft), Message::TrackMouse(window))
            == ActionView::ArmTracking(window),
{
}

/// A focus change right after another, with the cursor not having left in
/// between, arms nothing: of the two only the first can arm, and it does so
/// exactly when nothing was awaited before.
pub proof fn lemma_second_focus_change_arms_nothing(
    state: DispatcherState,
    first: Window,
    second: Window,
)
    ensures
        action_of(
            next_state(state, Message::ActiveWindowChange(first)),
            Message::ActiveWindowChange(second),
        ) == ActionView::Nothing,
        run_actions(
            DispatcherState { tracking_mouse: false },
            seq![Message::ActiveWindowChange(first), Message::ActiveWindowChange(second)],
        ) == seq![ActionView::ArmTracking(first), ActionView::Nothing],
{
    let idle = DispatcherState { tracking_mouse: false };
    let m = seq![Message::ActiveWindowChange(first), Message::ActiveWindowChange(second)];
    let rest = m.drop_first();
    assert(rest =~= seq![Message::ActiveWindowChange(second)]);
    assert(rest.drop_first() =~= Seq::<Message>::empty());
    let busy = next_state(idle, m[0]);
    assert(run_actions(next_state(busy, rest[0]), rest.drop_first()) =~= Seq::<
        ActionView,
    >::empty());
    assert(run_actions(busy, rest) =~= seq![ActionView::Nothing]);
    assert(run_actions(idle, m) =~= seq![ActionView::ArmTracking(first), ActionView::Nothing]);
}

/// Over any run of events in which the cursor never leaves, the tracking is
/// armed at most once, and not at all where a notice was awaited already.
pub proof fn lemma_one_arm_until_mouse_leaves(state: DispatcherState, messages: Seq<Message>)
    requires
        forall|i: int| 0 <= i < messages.len() ==> !(#[trigger] messages[i] is MouseLeft),
    ensures
        arm_count(run_actions(state, messages)) <= 1,
        state.tracking_mouse ==> arm_count(run_actions(state, messages)) == 0,
    decreases messages.len(),
{
    if messages.len() > 0 {
        let first = action_of(state, messages[0]);
        let rest = messages.drop_first();
        let next = next_state(state, messages[0]);
        let all = run_actions(state, messages);
        assert(!(messages[0] is MouseLeft));
        assert(first is ArmTracking ==> !state.tracking_mouse && next.tracking_mouse);
        assert(state.tracking_mouse ==> next.tracking_mouse);
        if first is Shutdown {
            assert(all == seq![first]);
            assert(all.drop_first() =~= Seq::<ActionView>::empty());
            assert(arm_count(all.drop_first()) == 0);
            assert(arm_count(all) == 0);
        } else {
            assert forall|i: int| 0 <= i < rest.len() implies !(#[trigger] rest[i] is MouseLeft) by {
                assert(rest[i] == messages[i + 1]);
            }
            lemma_one_arm_until_mouse_leaves(next, rest);
            let tail = run_actions(next, rest);
            assert(all == seq![first] + tail);
            assert(all.drop_first() =~= tail);
            assert(all[0] == first);
            assert(arm_count(all) == (if first is ArmTracking {
                1nat
            } else {
                0nat
            }) + arm_count(tail));
        }
    } else {
        assert(run_actions(state, messages) =~= Seq::<ActionView>::empty());
    }
}

} // verus!
