use breaker::component::resource::Input;
use breaker::game::States;
use breaker::system::pause::system;
use breaker::world::World;

fn after(state: States, pause: bool) -> States {
    let mut world = World::new();
    world.state = state;
    world.input = Input { left: false, right: false, pause, confirm: false };
    system(&mut world);
    world.state
}

#[test]
fn pause_toggles_between_playing_and_paused() {
    assert_eq!(after(States::Playing, true), States::Paused);
    assert_eq!(after(States::Paused, true), States::Playing);
}

#[test]
fn pause_leaves_the_other_states_alone() {
    assert_eq!(after(States::GameOver, true), States::GameOver);
    assert_eq!(after(States::Restarting, true), States::Restarting);
    assert_eq!(after(States::Reviving, true), States::Reviving);
}

#[test]
fn nothing_changes_without_the_key() {
    assert_eq!(after(States::Playing, false), States::Playing);
    assert_eq!(after(States::Paused, false), States::Paused);
    assert_eq!(after(States::GameOver, false), States::GameOver);
}
