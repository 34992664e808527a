//! The state stack: an ordered collection of application states of
//! which only the topmost is active, driven by transition messages.
//!
//! A state's update or key handler returns a message: keep going, bail
//! out to the previous state, spawn a new state on top, change into a
//! new state, or report a fatal error.  A global quit key bypasses the
//! active state entirely, and an empty stack is the termination signal.

use vstd::prelude::*;
use crate::enemy::{live_only, roster_fold};
use crate::level::Level;
use crate::main_state::{
    new_session_view, pre_roster_step, session_outcome, session_update_rel, MainState, PlayerKind,
    SessionOutcome,
};
use crate::player::InputState;

verus! {

/// Keys the state layer reacts to; everything else is `Other`.
#[derive(Clone, Copy, Debug, PartialEq, Eq, Structural)]
pub enum KeyInput {
    KeyP,
    KeyQ,
    KeyE,
    KeyS,
    Enter,
    Escape,
    Other,
}

/// A fatal condition reported through the state stack.
#[derive(Clone, Copy, Debug, PartialEq, Eq, Structural)]
pub enum GameFault {
    /// A required startup resource could not be produced.
    ResourceLoad,
    /// A malformed level file, with the 1-based number of its first
    /// bad line.
    BadLevelLine(u64),
}

/// Capability of every state managed by the state machine: a per-frame
/// update and a key handler, each characterized by a relation the
/// implementing state defines.
pub trait CustomEventHandler where Self: Sized {
    /// Well-formedness this state's handlers rely on and preserve.
    spec fn chwf(&self) -> bool;

    /// What one update tick of this state may do.
    spec fn update_rel(
        pre: Self,
        post: Self,
        input: InputState,
        delta: int,
        msg: HandlerMessage,
    ) -> bool;

    /// What one key press handled by this state may do.
    spec fn key_rel(pre: Self, post: Self, key: KeyInput, msg: HandlerMessage) -> bool;

    /// One update tick.
    fn update(&mut self, input: &InputState, delta_ms: u64) -> (r: HandlerMessage)
        requires
            old(self).chwf(),
        ensures
            Self::update_rel(*old(self), *final (self), *input, delta_ms as int, r),
            final (self).chwf(),
            msg_wf(r),
    ;

    /// One key press.
    fn key_down_event(&mut self, key: KeyInput) -> (r: HandlerMessage)
        requires
            old(self).chwf(),
        ensures
            Self::key_rel(*old(self), *final (self), key, r),
            final (self).chwf(),
            msg_wf(r),
    ;
}

/// The transition message a state hands back to the state machine.
pub enum HandlerMessage {
    /// No change: stick with the current state.
    Keep,
    /// Leave the current state, returning to the previous one.
    Bail,
    /// Suspend the current state and run a new one on top of it.
    Spawn(State),
    /// Replace the current state with a new one.
    Change(State),
    /// A fatal error that needs reporting.
    Error(GameFault),
}

/// Well-formedness of a state, by variant: only a session carries an
/// invariant.
pub open spec fn state_wf(s: State) -> bool {
    match s {
        State::Main(m) => m.wf(),
        _ => true,
    }
}

/// A state carried inside a message is itself well-formed.
pub open spec fn msg_wf(msg: HandlerMessage) -> bool {
    match msg {
        HandlerMessage::Spawn(s) => state_wf(s),
        HandlerMessage::Change(s) => state_wf(s),
        _ => true,
    }
}

/// The application states the machine can hold.
pub enum State {
    MainMenu(MainMenuState),
    Main(MainState),
    Pause(PauseState),
    GameOver(GameOverState),
    Victory(VictoryState),
}

/// The main menu: character selection, and the doorway into a session.
pub struct MainMenuState {
    pub chosen_player: Option<PlayerKind>,
    pub level: Level,
}

impl MainMenuState {
    /// A fresh menu over the level template handed to new sessions.
    pub fn new(level: Level) -> (r: MainMenuState)
        ensures
            r.chosen_player is None,
            r.level == level,
    {
        MainMenuState { chosen_player: None, level }
    }
}

impl CustomEventHandler for MainMenuState {
    open spec fn chwf(&self) -> bool {
        true
    }

    /// The menu only waits: updates keep everything as it is.
    open spec fn update_rel(
        pre: Self,
        post: Self,
        input: InputState,
        delta: int,
        msg: HandlerMessage,
    ) -> bool {
        post == pre && msg is Keep
    }

    /// Selection keys pick an adventurer, any other key clears the
    /// pick, and enter with a pick made starts a session over the
    /// menu's level.
    open spec fn key_rel(pre: Self, post: Self, key: KeyInput, msg: HandlerMessage) -> bool {
        if pre.chosen_player is Some && key == KeyInput::Enter {
            &&& post == pre
            &&& msg matches HandlerMessage::Spawn(st)
            &&& st matches State::Main(m)
            &&& m@ == new_session_view(pre.chosen_player.unwrap(), pre.level@)
        } else {
            &&& msg is Keep
            &&& post.level == pre.level
            &&& post.chosen_player == (match key {
                KeyInput::KeyE => Some(PlayerKind::ElfFighter),
                KeyInput::KeyS => Some(PlayerKind::DapperSkeleton),
                _ => None::<PlayerKind>,
            })
        }
    }

    fn update(&mut self, _input: &InputState, _delta_ms: u64) -> (r: HandlerMessage) {
        HandlerMessage::Keep
    }

    fn key_down_event(&mut self, key: KeyInput) -> (r: HandlerMessage) {
        if self.chosen_player.is_some() && key == KeyInput::Enter {
            let chosen = match self.chosen_player {
                Some(c) => c,
                None => PlayerKind::ElfFighter,
            };
            let session = MainState::new(chosen, self.level.duplicate());
            return HandlerMessage::Spawn(State::Main(session));
        }
        match key {
            KeyInput::KeyE => {
                self.chosen_player = Some(PlayerKind::ElfFighter);
            },
            KeyInput::KeyS => {
                self.chosen_player = Some(PlayerKind::DapperSkeleton);
            },
            _ => {
                self.chosen_player = None;
            },
        }
        HandlerMessage::Keep
    }
}

/// The pause state: frozen gameplay waiting to resume or to give up.
pub struct PauseState {
    pub level: Level,
}

impl PauseState {
    pub fn new(level: Level) -> (r: PauseState)
        ensures
            r.level == level,
    {
        PauseState { level }
    }
}

impl CustomEventHandler for PauseState {
    open spec fn chwf(&self) -> bool {
        true
    }

    open spec fn update_rel(
        pre: Self,
        post: Self,
        input: InputState,
        delta: int,
        msg: HandlerMessage,
    ) -> bool {
        post == pre && msg is Keep
    }

    /// Unpausing bails back to the suspended session; giving up changes
    /// into a fresh main menu over the same level template.
    open spec fn key_rel(pre: Self, post: Self, key: KeyInput, msg: HandlerMessage) -> bool {
        &&& post == pre
        &&& match key {
            KeyInput::KeyP => msg is Bail,
            KeyInput::KeyQ => {
                &&& msg matches HandlerMessage::Change(st)
                &&& st matches State::MainMenu(m)
                &&& m.chosen_player is None
                &&& m.level@ == pre.level@
            },
            _ => msg is Keep,
        }
    }

    fn update(&mut self, _input: &InputState, _delta_ms: u64) -> (r: HandlerMessage) {
        HandlerMessage::Keep
    }

    fn key_down_event(&mut self, key: KeyInput) -> (r: HandlerMessage) {
        match key {
            KeyInput::KeyP => HandlerMessage::Bail,
            KeyInput::KeyQ => HandlerMessage::Change(
                State::MainMenu(MainMenuState::new(self.level.duplicate())),
            ),
            _ => HandlerMessage::Keep,
        }
    }
}

/// The game-over state: the session was lost.
pub struct GameOverState {
    pub level: Level,
}

impl GameOverState {
    pub fn new(level: Level) -> (r: GameOverState)
        ensures
            r.level == level,
    {
        GameOverState { level }
    }
}

impl CustomEventHandler for GameOverState {
    open spec fn chwf(&self) -> bool {
        true
    }

    open spec fn update_rel(
        pre: Self,
        post: Self,
        input: InputState,
        delta: int,
        msg: HandlerMessage,
    ) -> bool {
        post == pre && msg is Keep
    }

    /// Enter returns to a fresh main menu over the same level template.
    open spec fn key_rel(pre: Self, post: Self, key: KeyInput, msg: HandlerMessage) -> bool {
        &&& post == pre
        &&& match key {
            KeyInput::Enter => {
                &&& msg matches HandlerMessage::Change(st)
                &&& st matches State::MainMenu(m)
                &&& m.chosen_player is None
                &&& m.level@ == pre.level@
            },
            _ => msg is Keep,
        }
    }

    fn update(&mut self, _input: &InputState, _delta_ms: u64) -> (r: HandlerMessage) {
        HandlerMessage::Keep
    }

    fn key_down_event(&mut self, key: KeyInput) -> (r: HandlerMessage) {
        match key {
            KeyInput::Enter => HandlerMessage::Change(
                State::MainMenu(MainMenuState::new(self.level.duplicate())),
            ),
            _ => HandlerMessage::Keep,
        }
    }
}

/// The victory state: the macguffin was delivered.
pub struct VictoryState {
    pub level: Level,
}

impl VictoryState {
    pub fn new(level: Level) -> (r: VictoryState)
        ensures
            r.level == level,
    {
        VictoryState { level }
    }
}

impl CustomEventHandler for VictoryState {
    open spec fn chwf(&self) -> bool {
        true
    }

    open spec fn update_rel(
        pre: Self,
        post: Self,
        input: InputState,
        delta: int,
        msg: HandlerMessage,
    ) -> bool {
        post == pre && msg is Keep
    }

    /// Quitting returns to a fresh main menu over the same level
    /// template.
    open spec fn key_rel(pre: Self, post: Self, key: KeyInput, msg: HandlerMessage) -> bool {
        &&& post == pre
        &&& match key {
            KeyInput::KeyQ => {
                &&& msg matches HandlerMessage::Change(st)
                &&& st matches State::MainMenu(m)
                &&& m.chosen_player is None
                &&& m.level@ == pre.level@
            },
            _ => msg is Keep,
        }
    }

    fn update(&mut self, _input: &InputState, _delta_ms: u64) -> (r: HandlerMessage) {
        HandlerMessage::Keep
    }

    fn key_down_event(&mut self, key: KeyInput) -> (r: HandlerMessage) {
        match key {
            KeyInput::KeyQ => HandlerMessage::Change(
                State::MainMenu(MainMenuState::new(self.level.duplicate())),
            ),
            _ => HandlerMessage::Keep,
        }
    }
}

/// What one session tick may hand the state machine, given the
/// outcome: keep playing, or change into the matching closing state
/// over the session's level.
pub open spec fn main_update_rel(
    pre: MainState,
    post: MainState,
    input: InputState,
    delta: int,
    msg: HandlerMessage,
) -> bool {
    let s1 = pre_roster_step(pre@, input, delta);
    let folded = roster_fold(live_only(s1.enemies), s1.player, s1.level, delta);
    let oc = session_outcome(folded.1, s1.man);
    &&& session_update_rel(pre@, post@, input, delta, oc)
    &&& match oc {
        SessionOutcome::Continue => msg is Keep,
        SessionOutcome::Defeat => {
            &&& msg matches HandlerMessage::Change(st)
            &&& st matches State::GameOver(g)
            &&& g.level@ == s1.level
        },
        SessionOutcome::Victory => {
            &&& msg matches HandlerMessage::Change(st)
            &&& st matches State::Victory(v)
            &&& v.level@ == s1.level
        },
    }
}

impl CustomEventHandler for MainState {
    open spec fn chwf(&self) -> bool {
        self.wf()
    }

    open spec fn update_rel(
        pre: Self,
        post: Self,
        input: InputState,
        delta: int,
        msg: HandlerMessage,
    ) -> bool {
        main_update_rel(pre, post, input, delta, msg)
    }

    /// The pause key suspends the session under a pause state over the
    /// session's level; everything else is handled inside the session
    /// tick, not here.
    open spec fn key_rel(pre: Self, post: Self, key: KeyInput, msg: HandlerMessage) -> bool {
        &&& post == pre
        &&& match key {
            KeyInput::KeyP => {
                &&& msg matches HandlerMessage::Spawn(st)
                &&& st matches State::Pause(p)
                &&& p.level@ == pre.level@
            },
            _ => msg is Keep,
        }
    }

    fn update(&mut self, input: &InputState, delta_ms: u64) -> (r: HandlerMessage) {
        let outcome = self.update_session(input, delta_ms);
        match outcome {
            SessionOutcome::Continue => HandlerMessage::Keep,
            SessionOutcome::Defeat => HandlerMessage::Change(
                State::GameOver(GameOverState::new(self.level.duplicate())),
            ),
            SessionOutcome::Victory => HandlerMessage::Change(
                State::Victory(VictoryState::new(self.level.duplicate())),
            ),
        }
    }

    fn key_down_event(&mut self, key: KeyInput) -> (r: HandlerMessage) {
        match key {
            KeyInput::KeyP => HandlerMessage::Spawn(
                State::Pause(PauseState::new(self.level.duplicate())),
            ),
            _ => HandlerMessage::Keep,
        }
    }
}

impl CustomEventHandler for State {
    open spec fn chwf(&self) -> bool {
        state_wf(*self)
    }

    /// Dispatch of the per-variant update relations.
    open spec fn update_rel(
        pre: Self,
        post: Self,
        input: InputState,
        delta: int,
        msg: HandlerMessage,
    ) -> bool {
        match pre {
            State::MainMenu(m0) => {
                &&& post matches State::MainMenu(m1)
                &&& <MainMenuState as CustomEventHandler>::update_rel(m0, m1, input, delta, msg)
            },
            State::Main(m0) => {
                &&& post matches State::Main(m1)
                &&& <MainState as CustomEventHandler>::update_rel(m0, m1, input, delta, msg)
            },
            State::Pause(m0) => {
                &&& post matches State::Pause(m1)
                &&& <PauseState as CustomEventHandler>::update_rel(m0, m1, input, delta, msg)
            },
            State::GameOver(m0) => {
                &&& post matches State::GameOver(m1)
                &&& <GameOverState as CustomEventHandler>::update_rel(m0, m1, input, delta, msg)
            },
            State::Victory(m0) => {
                &&& post matches State::Victory(m1)
                &&& <VictoryState as CustomEventHandler>::update_rel(m0, m1, input, delta, msg)
            },
        }
    }

    /// Dispatch of the per-variant key relations.
    open spec fn key_rel(pre: Self, post: Self, key: KeyInput, msg: HandlerMessage) -> bool {
        match pre {
            State::MainMenu(m0) => {
                &&& post matches State::MainMenu(m1)
                &&& <MainMenuState as CustomEventHandler>::key_rel(m0, m1, key, msg)
            },
            State::Main(m0) => {
                &&& post matches State::Main(m1)
                &&& <MainState as CustomEventHandler>::key_rel(m0, m1, key, msg)
            },
            State::Pause(m0) => {
                &&& post matches State::Pause(m1)
                &&& <PauseState as CustomEventHandler>::key_rel(m0, m1, key, msg)
            },
            State::GameOver(m0) => {
                &&& post matches State::GameOver(m1)
                &&& <GameOverState as CustomEventHandler>::key_rel(m0, m1, key, msg)
            },
            State::Victory(m0) => {
                &&& post matches State::Victory(m1)
                &&& <VictoryState as CustomEventHandler>::key_rel(m0, m1, key, msg)
            },
        }
    }

    fn update(&mut self, input: &InputState, delta_ms: u64) -> (r: HandlerMessage) {
        match self {
            State::MainMenu(m) => m.update(input, delta_ms),
            State::Main(m) => m.update(input, delta_ms),
            State::Pause(m) => m.update(input, delta_ms),
            State::GameOver(m) => m.update(input, delta_ms),
            State::Victory(m) => m.update(input, delta_ms),
        }
    }

    fn key_down_event(&mut self, key: KeyInput) -> (r: HandlerMessage) {
        match self {
            State::MainMenu(m) => m.key_down_event(key),
            State::Main(m) => m.key_down_event(key),
            State::Pause(m) => m.key_down_event(key),
            State::GameOver(m) => m.key_down_event(key),
            State::Victory(m) => m.key_down_event(key),
        }
    }
}

/// What one step of the machine's event loop reported.
#[derive(Clone, Copy, Debug, PartialEq, Eq, Structural)]
pub enum MachineStep {
    /// Keep running.
    Continue,
    /// The application should terminate.
    Quit,
    /// A state reported a fatal error.
    Failed(GameFault),
}

/// Effect of a transition message on a stack whose top has just been
/// put back: what the stack becomes, and the fault if the message
/// carried one.
pub open spec fn apply_message(stack: Seq<State>, msg: HandlerMessage) -> (
    Seq<State>,
    Option<GameFault>,
) {
    match msg {
        HandlerMessage::Keep => (stack, None),
        HandlerMessage::Bail => (
            if stack.len() > 0 {
                stack.drop_last()
            } else {
                stack
            },
            None,
        ),
        HandlerMessage::Spawn(s) => (stack.push(s), None),
        HandlerMessage::Change(s) => (
            (
                if stack.len() > 0 {
                    stack.drop_last()
                } else {
                    stack
                }
            ).push(s),
            None,
        ),
        HandlerMessage::Error(e) => (stack, Some(e)),
    }
}

impl HandlerMessage {
    /// Perform the transition this message asks for.
    pub fn handle(self, sm: &mut StateMachine) -> (r: Result<(), GameFault>)
        ensures
            ({
                let (st, fault) = apply_message(old(sm).states@, self);
                &&& final (sm).states@ == st
                &&& r == (match fault {
                    Some(e) => Err::<(), GameFault>(e),
                    None => Ok::<(), GameFault>(()),
                })
            }),
            msg_wf(self) && old(sm).wf() ==> final (sm).wf(),
    {
        match self {
            HandlerMessage::Keep => Ok(()),
            HandlerMessage::Bail => {
                sm.pop();
                Ok(())
            },
            HandlerMessage::Spawn(new_state) => {
                sm.push_unchecked(new_state);
                Ok(())
            },
            HandlerMessage::Change(new_state) => {
                sm.pop();
                sm.push_unchecked(new_state);
                Ok(())
            },
            HandlerMessage::Error(err) => Err(err),
        }
    }
}

/// The state machine: a stack of states, of which only the top is
/// active; the application terminates when the stack empties.
pub struct StateMachine {
    pub states: Vec<State>,
}

impl StateMachine {
    /// Every held state is well-formed.
    pub open spec fn wf(self) -> bool {
        forall|i: int| 0 <= i < self.states@.len() ==> (#[trigger] self.states@[i]).chwf()
    }

    /// A machine holding one initial state.
    pub fn new(state: State) -> (r: StateMachine)
        requires
            state.chwf(),
        ensures
            r.states@ == seq![state],
            r.wf(),
    {
        let mut states: Vec<State> = Vec::new();
        states.push(state);
        proof {
            assert(states@ =~= seq![state]);
        }
        StateMachine { states }
    }

    /// Suspend the current top under a new state.
    pub fn push(&mut self, state: State)
        requires
            state.chwf(),
            old(self).wf(),
        ensures
            final (self).states@ == old(self).states@.push(state),
            final (self).wf(),
    {
        self.states.push(state);
    }

    /// Push without the well-formedness bookkeeping (the message
    /// handler re-establishes it from the message's own facts).
    fn push_unchecked(&mut self, state: State)
        ensures
            final (self).states@ == old(self).states@.push(state),
            state.chwf() && old(self).wf() ==> final (self).wf(),
    {
        self.states.push(state);
    }

    /// Remove and hand back the top state, if any.
    pub fn pop(&mut self) -> (r: Option<State>)
        ensures
            old(self).states@.len() == 0 ==> r is None && final (self).states@ == old(self).states@,
            old(self).states@.len() > 0 ==> r == Some(old(self).states@.last()) && final (self).states@ == old(self).states@.drop_last(),
            old(self).wf() ==> final (self).wf(),
    {
        self.states.pop()
    }

    /// Does the machine hold no states?  If so, the application
    /// terminates.
    pub fn is_empty(&self) -> (r: bool)
        ensures
            r == (self.states@.len() == 0),
    {
        self.states.len() == 0
    }

    /// How many states the machine holds.
    pub fn len(&self) -> (r: usize)
        ensures
            r == self.states@.len(),
    {
        self.states.len()
    }

    /// One frame: the top state updates and its message is applied.
    /// An empty stack is the termination signal.
    pub fn update(&mut self, input: &InputState, delta_ms: u64) -> (r: MachineStep)
        requires
            old(self).wf(),
        ensures
            old(self).states@.len() == 0 ==> r is Quit && final (self).states@ == old(self).states@,
            old(self).states@.len() > 0 ==> exists|s1: State, msg: HandlerMessage|
                {
                    &&& #[trigger] State::update_rel(
                        old(self).states@.last(),
                        s1,
                        *input,
                        delta_ms as int,
                        msg,
                    )
                    &&& ({
                        let (st, fault) = apply_message(
                            old(self).states@.drop_last().push(s1),
                            msg,
                        );
                        &&& final (self).states@ == st
                        &&& r == (match fault {
                            Some(e) => MachineStep::Failed(e),
                            None => MachineStep::Continue,
                        })
                    })
                },
            final (self).wf(),
    {
        if self.states.len() == 0 {
            return MachineStep::Quit;
        }
        proof {
            assert(self.states@[self.states@.len() - 1].chwf());
        }
        let mut top = self.pop().unwrap();
        let msg = top.update(input, delta_ms);
        self.push_unchecked(top);
        proof {
            assert(self.states@ =~= old(self).states@.drop_last().push(top));
            assert forall|i: int| 0 <= i < self.states@.len() implies (#[trigger] self.states@[i]).chwf() by {
                if i < self.states@.len() - 1 {
                    assert(self.states@[i] == old(self).states@[i]);
                }
            }
        }
        match msg.handle(self) {
            Ok(()) => MachineStep::Continue,
            Err(e) => MachineStep::Failed(e),
        }
    }

    /// One key event: the global quit key (or an empty stack) ends the
    /// application outright; otherwise the top state handles the key
    /// and its message is applied, with faults swallowed as the event
    /// path reports none.
    pub fn key_down_event(&mut self, key: KeyInput) -> (r: MachineStep)
        requires
            old(self).wf(),
        ensures
            (key == KeyInput::Escape || old(self).states@.len() == 0) ==> r is Quit && final (self).states@ == old(self).states@,
            (key != KeyInput::Escape && old(self).states@.len() > 0) ==> r is Continue && exists|
                s1: State,
                msg: HandlerMessage,
            |
                {
                    &&& #[trigger] State::key_rel(old(self).states@.last(), s1, key, msg)
                    &&& final (self).states@ == apply_message(
                        old(self).states@.drop_last().push(s1),
                        msg,
                    ).0
                },
            final (self).wf(),
    {
        if key == KeyInput::Escape || self.states.len() == 0 {
            return MachineStep::Quit;
        }
        proof {
            assert(self.states@[self.states@.len() - 1].chwf());
        }
        let mut top = self.pop().unwrap();
        let msg = top.key_down_event(key);
        self.push_unchecked(top);
        proof {
            assert(self.states@ =~= old(self).states@.drop_last().push(top));
            assert forall|i: int| 0 <= i < self.states@.len() implies (#[trigger] self.states@[i]).chwf() by {
                if i < self.states@.len() - 1 {
                    assert(self.states@[i] == old(self).states@[i]);
                }
            }
        }
        let _ = msg.handle(self);
        MachineStep::Continue
    }
}

/// State-stack law: suspending the active state under a new one and
/// then popping hands back the new state and restores the previously
/// active stack exactly as it was suspended.
pub proof fn lemma_push_then_pop_restores(stack: Seq<State>, s: State)
    ensures
        stack.push(s).last() == s,
        stack.push(s).drop_last() == stack,
{
    assert(stack.push(s).drop_last() =~= stack);
}

/// State-stack law: popping the only state leaves the stack empty,
/// which is the machine's termination signal.
pub proof fn lemma_pop_on_single_signals_termination(stack: Seq<State>)
    requires
        stack.len() == 1,
    ensures
        stack.drop_last().len() == 0,
{
}

} // verus!
