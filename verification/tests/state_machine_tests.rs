use macguffin_quest::level::Level;
use macguffin_quest::player::InputState;
use macguffin_quest::states::{
    CustomEventHandler, GameOverState, HandlerMessage, KeyInput, MachineStep, MainMenuState,
    PauseState, State, StateMachine, VictoryState,
};

fn empty_level() -> Level {
    Level::new(Vec::new())
}

fn create_state_machine() -> StateMachine {
    let mm = MainMenuState::new(empty_level());
    StateMachine::new(State::MainMenu(mm))
}

fn idle() -> InputState {
    InputState::default()
}

#[test]
fn test_state_machine_push() {
    let sm = &mut create_state_machine();
    assert_eq!(sm.len(), 1usize);
    let mm = MainMenuState::new(empty_level());
    sm.push(State::MainMenu(mm));
    assert_eq!(sm.len(), 2usize);
}

#[test]
fn test_state_machine_pop() {
    let sm = &mut create_state_machine();
    assert_eq!(sm.len(), 1usize);
    let r = sm.pop();
    assert!(r.is_some());
    assert_eq!(sm.len(), 0usize);
    let r = sm.pop();
    assert!(r.is_none());
    assert_eq!(sm.len(), 0usize);
}

#[test]
fn test_state_machine_is_empty() {
    let sm = &mut create_state_machine();
    assert_eq!(sm.len(), 1usize);
    let _r = sm.pop();
    let r = sm.is_empty();
    assert!(r);
}

#[test]
fn main_menu_state_test_update() {
    let sm = &mut MainMenuState::new(empty_level());
    match sm.update(&idle(), 16) {
        HandlerMessage::Keep => (),
        _ => panic!("HandlerMessage was not Keep"),
    }
}

#[test]
fn pause_state_test_update() {
    let sm = &mut PauseState::new(empty_level());
    match sm.update(&idle(), 16) {
        HandlerMessage::Keep => (),
        _ => (),
    }
}

#[test]
fn game_over_state_test_update() {
    let sm = &mut GameOverState::new(empty_level());
    match sm.update(&idle(), 16) {
        HandlerMessage::Keep => (),
        _ => panic!("HandlerMessage was not Keep"),
    }
}

#[test]
fn victory_state_test_update() {
    let sm = &mut VictoryState::new(empty_level());
    match sm.update(&idle(), 16) {
        HandlerMessage::Keep => (),
        _ => panic!("HandlerMessage was not Keep"),
    }
}

#[test]
fn push_then_pop_restores_suspended_state() {
    // the state stack resumes exactly the state it suspended
    let sm = &mut create_state_machine();
    let pause = PauseState::new(empty_level());
    sm.push(State::Pause(pause));
    assert_eq!(sm.len(), 2);
    let top = sm.pop();
    assert!(matches!(top, Some(State::Pause(_))));
    assert_eq!(sm.len(), 1);
    let restored = sm.pop();
    match restored {
        Some(State::MainMenu(m)) => {
            assert!(m.chosen_player.is_none());
            assert_eq!(m.level.tile_count(), 0);
        },
        _ => panic!("the suspended state did not come back"),
    }
}

#[test]
fn machine_update_on_empty_stack_signals_quit() {
    let sm = &mut create_state_machine();
    let _ = sm.pop();
    assert!(matches!(sm.update(&idle(), 16), MachineStep::Quit));
}

#[test]
fn machine_escape_key_quits() {
    let sm = &mut create_state_machine();
    assert!(matches!(sm.key_down_event(KeyInput::Escape), MachineStep::Quit));
    assert_eq!(sm.len(), 1);
}

#[test]
fn machine_menu_update_continues() {
    let sm = &mut create_state_machine();
    assert!(matches!(sm.update(&idle(), 16), MachineStep::Continue));
    assert_eq!(sm.len(), 1);
}

#[test]
fn menu_selection_spawns_session() {
    let sm = &mut create_state_machine();
    assert!(matches!(sm.key_down_event(KeyInput::KeyE), MachineStep::Continue));
    assert!(matches!(sm.key_down_event(KeyInput::Enter), MachineStep::Continue));
    assert_eq!(sm.len(), 2);
    match sm.pop() {
        Some(State::Main(session)) => {
            assert_eq!(session.player.x, 300);
            assert_eq!(session.player.y, 300);
        },
        _ => panic!("selecting an adventurer and entering should start a session"),
    }
}

#[test]
fn menu_enter_without_pick_keeps_waiting() {
    let sm = &mut create_state_machine();
    assert!(matches!(sm.key_down_event(KeyInput::Enter), MachineStep::Continue));
    assert_eq!(sm.len(), 1);
}

#[test]
fn handle_bail_pops_and_change_replaces() {
    let sm = &mut create_state_machine();
    sm.push(State::Pause(PauseState::new(empty_level())));
    let r = HandlerMessage::Bail.handle(sm);
    assert!(r.is_ok());
    assert_eq!(sm.len(), 1);
    let r = HandlerMessage::Change(State::GameOver(GameOverState::new(empty_level()))).handle(sm);
    assert!(r.is_ok());
    assert_eq!(sm.len(), 1);
    assert!(matches!(sm.pop(), Some(State::GameOver(_))));
}

#[test]
fn handle_error_reports_fault() {
    let sm = &mut create_state_machine();
    let r = HandlerMessage::Error(macguffin_quest::states::GameFault::ResourceLoad).handle(sm);
    assert!(r.is_err());
    assert_eq!(sm.len(), 1);
}

#[test]
fn pause_key_flow() {
    let pause = &mut PauseState::new(empty_level());
    assert!(matches!(pause.key_down_event(KeyInput::KeyP), HandlerMessage::Bail));
    match pause.key_down_event(KeyInput::KeyQ) {
        HandlerMessage::Change(State::MainMenu(_)) => (),
        _ => panic!("quitting the pause menu should change into the main menu"),
    }
    assert!(matches!(pause.key_down_event(KeyInput::Other), HandlerMessage::Keep));
}
