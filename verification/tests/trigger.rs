use breaker::component::trigger::{
    AddBall, AddGameOverText, AddPlayer, AddPlayerLives, Command, GAME_OVER_X, HEADLINE_Y,
};
use breaker::component::{
    BallBundle, BallType, Color, ColorComponent, Lives, PlayerBundle, Position, Tags, Texture,
    Velocity,
};
use breaker::geometry::{Vec2, UNIT};
use breaker::store::{Entities, Entity};
use breaker::system::block::block_at;
use breaker::world::World;

fn player(entities: &mut Entities, lives: i32) -> Entity {
    let mut f =
        PlayerBundle::new(Vec2 { x: 120 * UNIT, y: 500 * UNIT }, Color::White, Texture::Player)
            .fields();
    f.lives = Some(Lives(lives));
    entities.spawn(f)
}

#[test]
fn losing_the_ball_costs_a_life_and_brings_a_new_ball() {
    let mut entities = Entities::new();
    let p = player(&mut entities, 3);
    AddPlayer.write_with_roll(&mut entities, 0);
    assert_eq!(entities.get(p).unwrap().lives, Some(Lives(2)));
    let ball = entities.entity_at(1).unwrap();
    let f = entities.get(ball).unwrap();
    assert_eq!(f.position, Some(Position(Vec2 { x: 180 * UNIT, y: 480 * UNIT })));
    assert_eq!(f.velocity, Some(Velocity(Vec2 { x: -1, y: -1 })));
    assert_eq!(f.tags, Some(Tags::Ball(BallType::Original)));
    assert_eq!(f.color, Some(ColorComponent(Color::White)));
    AddPlayer.write_with_roll(&mut entities, 1);
    assert_eq!(entities.get(p).unwrap().lives, Some(Lives(1)));
    let ball = entities.entity_at(2).unwrap();
    assert_eq!(entities.get(ball).unwrap().velocity, Some(Velocity(Vec2 { x: 1, y: -1 })));
}

#[test]
fn the_last_life_brings_no_new_ball() {
    let mut entities = Entities::new();
    let p = player(&mut entities, 1);
    AddPlayer.write(&mut entities);
    assert_eq!(entities.get(p).unwrap().lives, Some(Lives(0)));
    assert_eq!(entities.slot_count(), 1);
    AddPlayer.write(&mut entities);
    assert_eq!(entities.get(p).unwrap().lives, Some(Lives(-1)));
    assert_eq!(entities.slot_count(), 1);
}

#[test]
fn lives_saturate_at_the_lowest_count() {
    let mut entities = Entities::new();
    let p = player(&mut entities, i32::MIN);
    AddPlayer.write(&mut entities);
    assert_eq!(entities.get(p).unwrap().lives, Some(Lives(i32::MIN)));
}

#[test]
fn a_new_ball_of_the_generator_goes_either_way() {
    let mut entities = Entities::new();
    let p = player(&mut entities, 3);
    AddPlayer.write(&mut entities);
    assert_eq!(entities.get(p).unwrap().lives, Some(Lives(2)));
    let ball = entities.entity_at(1).unwrap();
    let v = entities.get(ball).unwrap().velocity.unwrap();
    assert!(v == Velocity(Vec2 { x: 1, y: -1 }) || v == Velocity(Vec2 { x: -1, y: -1 }));
}

#[test]
fn without_a_single_player_nothing_happens() {
    let mut entities = Entities::new();
    AddPlayer.write(&mut entities);
    AddPlayerLives(3).write(&mut entities);
    assert_eq!(entities.slot_count(), 0);
    let a = player(&mut entities, 2);
    let b = player(&mut entities, 2);
    AddPlayer.write(&mut entities);
    AddPlayerLives(9).write(&mut entities);
    assert_eq!(entities.get(a).unwrap().lives, Some(Lives(2)));
    assert_eq!(entities.get(b).unwrap().lives, Some(Lives(2)));
    assert_eq!(entities.slot_count(), 2);
    assert_eq!(entities.find_player(), None);
}

#[test]
fn the_player_is_found_among_other_entities() {
    let mut entities = Entities::new();
    entities.spawn(block_at(0, 0).fields());
    let p = player(&mut entities, 2);
    entities.spawn(block_at(1, 0).fields());
    assert_eq!(entities.find_player(), Some(p));
    AddPlayerLives(3).write(&mut entities);
    assert_eq!(entities.get(p).unwrap().lives, Some(Lives(3)));
    entities.despawn(p);
    assert_eq!(entities.find_player(), None);
}

#[test]
fn add_ball_spawns_its_bundle() {
    let mut entities = Entities::new();
    let bundle =
        BallBundle::with_roll(Vec2 { x: 3, y: 4 }, Color::Blue, Texture::Ball, BallType::Clone, 0);
    AddBall(bundle).write(&mut entities);
    let e = entities.entity_at(0).unwrap();
    let f = entities.get(e).unwrap();
    assert_eq!(f.position, Some(bundle.position));
    assert_eq!(f.velocity, Some(bundle.velocity));
    assert_eq!(f.aabb, Some(bundle.aabb));
    assert_eq!(f.tags, Some(bundle.tags));
    assert_eq!(f.texture, Some(bundle.texture));
    assert_eq!(f.color, Some(bundle.color));
    assert!(f.lives.is_none() && f.text.is_none());
}

#[test]
fn the_announcement_is_spawned_whenever_it_is_asked_for() {
    let mut entities = Entities::new();
    assert!(!entities.has_game_over_text());
    AddGameOverText.write(&mut entities);
    assert!(entities.has_game_over_text());
    assert_eq!(entities.slot_count(), 1);
    AddGameOverText.write(&mut entities);
    AddGameOverText.write(&mut entities);
    assert_eq!(entities.slot_count(), 3);
    for i in 0..3 {
        let f = entities.fields_at(i).unwrap();
        assert_eq!(f.text.as_ref().unwrap().text, "Game Over!");
        assert!(f.text.as_ref().unwrap().center);
        assert_eq!(f.position, Some(Position(Vec2 { x: 500 * UNIT, y: 40 * UNIT })));
        assert_eq!(f.font.unwrap().size, 30);
        assert_eq!(f.color, Some(ColorComponent(Color::White)));
        assert!(f.game_over_tag.is_some());
        assert!(f.tags.is_none() && f.lives.is_none() && f.velocity.is_none());
    }
    assert_eq!((GAME_OVER_X, HEADLINE_Y), (500 * UNIT, 40 * UNIT));
    assert_eq!(GAME_OVER_X * 16, breaker::game::WIDTH * 10);
}

#[test]
fn commands_are_carried_out_in_order() {
    let mut world = World::new();
    let p = player(&mut world.entities, 3);
    let block = world.entities.spawn(block_at(0, 0).fields());
    world.commands.push(Command::Despawn(block));
    world.commands.push(Command::SpawnBlock(block_at(5, 95)));
    world.commands.push(Command::AddPlayerLives(AddPlayerLives(1)));
    world.commands.push(Command::AddPlayer(AddPlayer));
    world.commands.push(Command::AddGameOverText(AddGameOverText));
    world.commands.push(Command::Despawn(block));
    world.flush();
    assert!(world.commands.is_empty());
    assert!(!world.entities.contains(block));
    let reused = Entity { index: block.index, generation: 1 };
    assert_eq!(world.entities.get(reused).unwrap().position, Some(block_at(5, 95).position));
    assert_eq!(world.entities.get(p).unwrap().lives, Some(Lives(0)));
    assert_eq!(world.entities.slot_count(), 3);
    assert!(world.entities.has_game_over_text());
}

#[test]
fn a_command_with_a_roll_is_as_the_command() {
    let mut a = Entities::new();
    let block = a.spawn(block_at(0, 0).fields());
    Command::Despawn(block).write_with_roll(&mut a, 0);
    assert!(!a.contains(block));
    Command::SpawnBlock(block_at(2, 0)).write(&mut a);
    Command::AddGameOverText(AddGameOverText).write_with_roll(&mut a, 0);
    let p = player(&mut a, 2);
    Command::AddPlayer(AddPlayer).write_with_roll(&mut a, 0);
    Command::AddPlayerLives(AddPlayerLives(7)).write_with_roll(&mut a, 0);
    assert_eq!(a.get(p).unwrap().lives, Some(Lives(7)));
    assert_eq!(a.slot_count(), 4);
    let ball = a.entity_at(3).unwrap();
    assert_eq!(a.get(ball).unwrap().velocity, Some(Velocity(Vec2 { x: -1, y: -1 })));
}
