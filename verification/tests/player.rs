use breaker::component::resource::{Input, Time};
use breaker::component::trigger::{AddGameOverText, Command};
use breaker::component::{
    Color, GameOverTag, Lives, PlayerBundle, Position, Texture, PLAYER_HEIGHT, PLAYER_LIVES,
    PLAYER_WIDTH,
};
use breaker::game::{States, WIDTH};
use breaker::geometry::{Rect, Vec2, UNIT};
use breaker::store::Fields;
use breaker::system::player::{get_axis, steer, system, PLAYER_SPEED};
use breaker::world::World;

fn input(left: bool, right: bool) -> Input {
    Input { left, right, pause: false, confirm: false }
}

fn world_with_player(x: i64, lives: i32) -> World {
    let mut world = World::new();
    let mut f =
        PlayerBundle::new(Vec2 { x, y: 500 * UNIT }, Color::White, Texture::Player).fields();
    f.lives = Some(Lives(lives));
    world.entities.spawn(f);
    world.state = States::Playing;
    world.time = Time(10_000);
    world
}

fn game_over_texts(world: &World) -> usize {
    let mut n = 0;
    for i in 0..world.entities.slot_count() {
        if let Some(f) = world.entities.fields_at(i) {
            if f.game_over_tag.is_some() {
                n += 1;
            }
        }
    }
    n
}

#[test]
fn the_paddle_starts_with_three_lives_and_its_box() {
    let p = PlayerBundle::new(Vec2 { x: 1, y: 2 }, Color::White, Texture::Player);
    assert_eq!(p.lives, Lives(3));
    assert_eq!(PLAYER_LIVES, 3);
    assert_eq!(p.aabb.0, Rect { x: 0, y: 0, w: 150 * UNIT, h: 8 * UNIT });
    assert_eq!(p.texture.source, Rect { x: 0, y: 0, w: 150, h: 4 });
    assert_eq!(p.position, Position(Vec2 { x: 1, y: 2 }));
    assert_eq!((PLAYER_WIDTH, PLAYER_HEIGHT), (150 * UNIT, 8 * UNIT));
}

#[test]
fn opposing_keys_give_an_axis() {
    assert_eq!(get_axis(true, false), -1);
    assert_eq!(get_axis(false, true), 1);
    assert_eq!(get_axis(true, true), 0);
    assert_eq!(get_axis(false, false), 0);
}

#[test]
fn the_paddle_moves_at_900_units_per_second() {
    assert_eq!(PLAYER_SPEED, 900 * 32);
    assert_eq!(steer(100 * UNIT, 1, 1_000_000, PLAYER_WIDTH), WIDTH - PLAYER_WIDTH);
    assert_eq!(steer(100 * UNIT, 1, 10_000, PLAYER_WIDTH), 109 * UNIT);
    assert_eq!(steer(100 * UNIT, -1, 10_000, PLAYER_WIDTH), 91 * UNIT);
    assert_eq!(steer(100 * UNIT, 0, 10_000, PLAYER_WIDTH), 100 * UNIT);
}

#[test]
fn the_paddle_stays_between_the_walls() {
    assert_eq!(steer(UNIT, -1, 10_000, PLAYER_WIDTH), 0);
    assert_eq!(steer(-50 * UNIT, 0, 0, PLAYER_WIDTH), 0);
    assert_eq!(steer(649 * UNIT, 1, 10_000, PLAYER_WIDTH), 650 * UNIT);
    assert_eq!(steer(700 * UNIT, 0, 0, PLAYER_WIDTH), 650 * UNIT);
    assert_eq!(steer(0, 0, 0, WIDTH + UNIT), -UNIT);
    assert_eq!(steer(i64::MAX, i64::MAX, u32::MAX, 0), WIDTH);
}

#[test]
fn the_system_moves_the_paddle_as_the_keys_ask() {
    let mut world = world_with_player(120 * UNIT, 3);
    world.input = input(false, true);
    system(&mut world);
    let e = world.entities.entity_at(0).unwrap();
    assert_eq!(
        world.entities.get(e).unwrap().position,
        Some(Position(Vec2 { x: 129 * UNIT, y: 500 * UNIT }))
    );
    world.input = input(true, false);
    system(&mut world);
    system(&mut world);
    assert_eq!(
        world.entities.get(e).unwrap().position,
        Some(Position(Vec2 { x: 111 * UNIT, y: 500 * UNIT }))
    );
    assert_eq!(world.state, States::Playing);
    assert!(world.commands.is_empty());
}

#[test]
fn a_player_without_lives_ends_the_game_with_one_announcement() {
    let mut world = world_with_player(120 * UNIT, 0);
    system(&mut world);
    assert_eq!(world.state, States::GameOver);
    assert_eq!(world.commands, vec![Command::AddGameOverText(AddGameOverText)]);
    world.flush();
    assert_eq!(game_over_texts(&world), 1);
    let e = world.entities.entity_at(1).unwrap();
    let f = world.entities.get(e).unwrap();
    assert_eq!(f.text.as_ref().unwrap().text, "Game Over!");
    assert!(f.text.as_ref().unwrap().center);
    assert_eq!(f.position, Some(Position(Vec2 { x: 500 * UNIT, y: 40 * UNIT })));
    assert_eq!(f.font.unwrap().size, 30);
    assert_eq!(f.game_over_tag, Some(GameOverTag));
}

#[test]
fn the_announcement_is_not_spawned_twice() {
    let mut world = world_with_player(120 * UNIT, 0);
    system(&mut world);
    world.flush();
    assert_eq!(game_over_texts(&world), 1);
    world.state = States::Playing;
    system(&mut world);
    system(&mut world);
    assert!(world.commands.is_empty());
    world.flush();
    assert_eq!(game_over_texts(&world), 1);
    assert_eq!(world.entities.slot_count(), 2);
    assert_eq!(world.state, States::GameOver);
}

#[test]
fn an_announcement_that_is_there_already_stays_alone() {
    let mut world = world_with_player(120 * UNIT, -2);
    let mut text = Fields::new();
    text.game_over_tag = Some(GameOverTag);
    world.entities.spawn(text);
    system(&mut world);
    assert_eq!(world.state, States::GameOver);
    assert!(world.commands.is_empty());
    world.flush();
    assert_eq!(game_over_texts(&world), 1);
    assert_eq!(world.entities.slot_count(), 2);
}

#[test]
fn texts_and_balls_are_not_players() {
    let mut world = World::new();
    let mut f =
        PlayerBundle::new(Vec2 { x: 5, y: 5 }, Color::White, Texture::Player).fields();
    f.lives = Some(Lives(0));
    f.tags = Some(breaker::component::Tags::Ball(breaker::component::BallType::Clone));
    let tagged = world.entities.spawn(f);
    let mut g = Fields::new();
    g.position = Some(Position(Vec2 { x: 7, y: 7 }));
    world.entities.spawn(g);
    world.input = input(false, true);
    world.time = Time(1000);
    system(&mut world);
    assert_eq!(world.state, States::Reviving);
    assert!(world.commands.is_empty());
    assert_eq!(world.entities.get(tagged).unwrap().position, Some(Position(Vec2 { x: 5, y: 5 })));
    assert_eq!(world.entities.find_player(), None);
}
