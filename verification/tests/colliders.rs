use breaker::component::{
    Aabb, BallBundle, BallType, BlockType, Bounty, Color, ColorComponent, Lives, PlayerBundle,
    Position, Sound, Tags, Texture, Velocity, BALL_SIZE, BLOCK_HEIGHT, BLOCK_WIDTH,
};
use breaker::game::States;
use breaker::geometry::{Rect, Vec2, UNIT};
use breaker::store::{Entity, Fields};
use breaker::system::block;
use breaker::system::colliders::{collide, query_all_colliders, resolve, strike, system, Hit};
use breaker::world::World;

fn block_fields(x: i64, y: i64, lives: i32, bounty: i32, kind: BlockType) -> Fields {
    let mut f = Fields::new();
    f.position = Some(Position(Vec2 { x, y }));
    f.aabb = Some(Aabb(Rect { x: 0, y: 0, w: BLOCK_WIDTH, h: BLOCK_HEIGHT }));
    f.color = Some(ColorComponent(Color::Red));
    f.tags = Some(Tags::Block(kind));
    f.bounty = Some(Bounty(bounty));
    f.lives = Some(Lives(lives));
    f
}

fn ball_fields(x: i64, y: i64, vx: i64, vy: i64, kind: BallType) -> Fields {
    let mut f = BallBundle::with_roll(Vec2 { x, y }, Color::White, Texture::Ball, kind, 1).fields();
    f.velocity = Some(Velocity(Vec2 { x: vx, y: vy }));
    f
}

fn paddle_fields() -> Fields {
    PlayerBundle::new(Vec2 { x: 120 * UNIT, y: 500 * UNIT }, Color::White, Texture::Player).fields()
}

fn e(index: usize) -> Entity {
    Entity { index, generation: 0 }
}

#[test]
fn the_snapshot_holds_what_does_not_move() {
    let mut world = World::new();
    let paddle = world.entities.spawn(paddle_fields());
    let ball = world.entities.spawn(ball_fields(0, 0, 1, 1, BallType::Original));
    let block = world.entities.spawn(block_fields(100 * UNIT, 50 * UNIT, 3, 50, BlockType::Fragile));
    let mut label = Fields::new();
    label.position = Some(Position(Vec2 { x: 0, y: 0 }));
    world.entities.spawn(label);
    query_all_colliders(&mut world);
    assert_eq!(
        world.colliders.0,
        vec![
            (paddle, Rect { x: 120 * UNIT, y: 500 * UNIT, w: 150 * UNIT, h: 8 * UNIT }),
            (block, Rect { x: 100 * UNIT, y: 50 * UNIT, w: BLOCK_WIDTH, h: BLOCK_HEIGHT }),
        ]
    );
    assert!(world.entities.contains(ball));
}

#[test]
fn the_snapshot_places_the_box_at_the_position() {
    let mut world = World::new();
    let mut f = Fields::new();
    f.position = Some(Position(Vec2 { x: 10, y: 20 }));
    f.aabb = Some(Aabb(Rect { x: 1, y: 2, w: 3, h: 4 }));
    let a = world.entities.spawn(f);
    query_all_colliders(&mut world);
    assert_eq!(world.colliders.0, vec![(a, Rect { x: 11, y: 22, w: 3, h: 4 })]);
    world.entities.despawn(a);
    query_all_colliders(&mut world);
    assert!(world.colliders.0.is_empty());
}

#[test]
fn collide_finds_the_first_collider_that_is_met() {
    let colliders = vec![
        (e(0), Rect::new(100, 100, 10, 10)),
        (e(1), Rect::new(0, 0, 10, 10)),
        (e(2), Rect::new(5, 5, 10, 10)),
    ];
    let hit = collide(&Rect::new(8, 8, 4, 4), &colliders);
    assert_eq!(
        hit,
        Some(Hit { entity: e(1), collider: Rect::new(0, 0, 10, 10), intersection: Rect::new(8, 8, 2, 2) })
    );
    assert_eq!(collide(&Rect::new(50, 50, 4, 4), &colliders), None);
    assert_eq!(collide(&Rect::new(50, 50, 4, 4), &Vec::new()), None);
}

#[test]
fn a_wide_overlap_pushes_vertically_and_reflects() {
    let mover = Rect::new(30, 35, 30, 30);
    let collider = Rect::new(0, 0, 100, 40);
    let hit = Hit { entity: e(0), collider, intersection: collider.intersect(mover).unwrap() };
    assert_eq!(hit.intersection, Rect::new(30, 35, 30, 5));
    let (p, v) = resolve(
        Position(Vec2 { x: 30, y: 35 }),
        Velocity(Vec2 { x: 1, y: -1 }),
        mover,
        hit,
    );
    assert_eq!(p, Position(Vec2 { x: 30, y: 40 }));
    assert_eq!(v, Velocity(Vec2 { x: 1, y: 1 }));
}

#[test]
fn a_high_overlap_pushes_horizontally_and_reflects() {
    let mover = Rect::new(-25, 5, 30, 30);
    let collider = Rect::new(0, 0, 100, 40);
    let hit = Hit { entity: e(0), collider, intersection: collider.intersect(mover).unwrap() };
    assert_eq!(hit.intersection, Rect::new(0, 5, 5, 30));
    let (p, v) = resolve(
        Position(Vec2 { x: -25, y: 5 }),
        Velocity(Vec2 { x: 1, y: -1 }),
        mover,
        hit,
    );
    assert_eq!(p, Position(Vec2 { x: -30, y: 5 }));
    assert_eq!(v, Velocity(Vec2 { x: -1, y: -1 }));
}

#[test]
fn reflection_keeps_the_speed_on_the_axis() {
    let mover = Rect::new(30, -25, 30, 30);
    let collider = Rect::new(0, 0, 100, 40);
    let hit = Hit { entity: e(0), collider, intersection: collider.intersect(mover).unwrap() };
    let (p, v) = resolve(
        Position(Vec2 { x: 30, y: -25 }),
        Velocity(Vec2 { x: 7, y: 3 }),
        mover,
        hit,
    );
    assert_eq!(p, Position(Vec2 { x: 30, y: -30 }));
    assert_eq!(v, Velocity(Vec2 { x: 7, y: -3 }));
}

#[test]
fn level_centers_mean_no_push_and_no_speed() {
    let mover = Rect::new(35, 5, 30, 30);
    let collider = Rect::new(0, 0, 100, 40);
    let hit = Hit { entity: e(0), collider, intersection: collider.intersect(mover).unwrap() };
    assert_eq!(hit.intersection, Rect::new(35, 5, 30, 30));
    let (p, v) = resolve(
        Position(Vec2 { x: 35, y: 5 }),
        Velocity(Vec2 { x: 1, y: -1 }),
        mover,
        hit,
    );
    assert_eq!(p, Position(Vec2 { x: 35, y: 5 }));
    assert_eq!(v, Velocity(Vec2 { x: 0, y: -1 }));
}

#[test]
fn equal_width_and_height_push_horizontally() {
    let mover = Rect::new(95, 35, 30, 30);
    let collider = Rect::new(0, 0, 100, 40);
    let hit = Hit { entity: e(0), collider, intersection: collider.intersect(mover).unwrap() };
    assert_eq!(hit.intersection, Rect::new(95, 35, 5, 5));
    let (p, v) = resolve(
        Position(Vec2 { x: 95, y: 35 }),
        Velocity(Vec2 { x: -1, y: -1 }),
        mover,
        hit,
    );
    assert_eq!(p, Position(Vec2 { x: 100, y: 35 }));
    assert_eq!(v, Velocity(Vec2 { x: 1, y: -1 }));
}

#[test]
fn a_resolved_mover_touches_the_collider_and_collides_no_more() {
    let local = Rect::new(0, 0, 30, 30);
    let collider = Rect::new(0, 0, 100, 40);
    let start = Position(Vec2 { x: 30, y: 35 });
    let heading = Velocity(Vec2 { x: 1, y: -1 });
    let at_start = local.place(start.0);
    let first = Hit { entity: e(0), collider, intersection: collider.intersect(at_start).unwrap() };
    let (once, turned) = resolve(start, heading, at_start, first);
    assert_eq!(once, Position(Vec2 { x: 30, y: 40 }));
    assert_eq!(turned, Velocity(Vec2 { x: 1, y: 1 }));
    let at_once = local.place(once.0);
    assert_eq!(at_once.y, collider.y + collider.h);
    assert_eq!(collider.intersect(at_once), None);
    assert_eq!(collide(&at_once, &vec![(e(0), collider)]), None);
}

#[test]
fn a_mover_pushed_sideways_collides_no_more() {
    let local = Rect::new(0, 0, 30, 30);
    let collider = Rect::new(0, 0, 100, 40);
    let start = Position(Vec2 { x: 95, y: 5 });
    let at_start = local.place(start.0);
    let first = Hit { entity: e(0), collider, intersection: collider.intersect(at_start).unwrap() };
    let (once, turned) = resolve(start, Velocity(Vec2 { x: -1, y: 1 }), at_start, first);
    assert_eq!(once, Position(Vec2 { x: 100, y: 5 }));
    assert_eq!(turned, Velocity(Vec2 { x: 1, y: 1 }));
    assert_eq!(collide(&local.place(once.0), &vec![(e(0), collider)]), None);
}

#[test]
fn one_overlap_costs_the_block_one_life() {
    let mut world = World::new();
    world.entities.spawn(paddle_fields());
    let block = world.entities.spawn(block_fields(100 * UNIT, 50 * UNIT, 2, 50, BlockType::Fragile));
    let ball = world.entities.spawn(ball_fields(150 * UNIT, 80 * UNIT, 0, -1, BallType::Original));
    query_all_colliders(&mut world);
    system(&mut world);
    assert_eq!(world.entities.get(block).unwrap().lives, Some(Lives(1)));
    assert_eq!(
        world.entities.get(ball).unwrap().position,
        Some(Position(Vec2 { x: 150 * UNIT, y: 90 * UNIT }))
    );
    assert_eq!(world.entities.get(ball).unwrap().velocity, Some(Velocity(Vec2 { x: 0, y: 1 })));
    assert_eq!(world.sounds, vec![Sound::HitBlock]);
    system(&mut world);
    assert_eq!(world.entities.get(block).unwrap().lives, Some(Lives(1)));
    assert_eq!(
        world.entities.get(ball).unwrap().position,
        Some(Position(Vec2 { x: 150 * UNIT, y: 90 * UNIT }))
    );
    assert_eq!(world.entities.get(ball).unwrap().velocity, Some(Velocity(Vec2 { x: 0, y: 1 })));
    assert_eq!(world.sounds, vec![Sound::HitBlock]);
}

#[test]
fn a_ball_that_only_touches_a_block_does_not_strike_it() {
    let mut world = World::new();
    world.entities.spawn(paddle_fields());
    let block = world.entities.spawn(block_fields(100 * UNIT, 50 * UNIT, 2, 50, BlockType::Fragile));
    let ball = world.entities.spawn(ball_fields(200 * UNIT, 60 * UNIT, -1, 0, BallType::Original));
    query_all_colliders(&mut world);
    system(&mut world);
    assert_eq!(world.entities.get(block).unwrap().lives, Some(Lives(2)));
    assert_eq!(world.entities.get(ball).unwrap().velocity, Some(Velocity(Vec2 { x: -1, y: 0 })));
    assert!(world.sounds.is_empty());
}

#[test]
fn a_mover_inside_a_collider_is_not_pushed_clear() {
    let local = Rect::new(0, 0, 60, 10);
    let collider = Rect::new(0, 0, 100, 40);
    let start = Position(Vec2 { x: 20, y: 5 });
    let at_start = local.place(start.0);
    let first = Hit { entity: e(0), collider, intersection: collider.intersect(at_start).unwrap() };
    let (once, _) = resolve(start, Velocity(Vec2 { x: 0, y: 1 }), at_start, first);
    assert_eq!(once, Position(Vec2 { x: 20, y: -5 }));
    assert_eq!(collider.intersect(local.place(once.0)).unwrap().h, 5);
    assert!(collide(&local.place(once.0), &vec![(e(0), collider)]).is_some());
}

#[test]
fn a_strike_takes_one_life_and_a_special_ball_all() {
    assert_eq!(strike(Lives(3), Tags::Ball(BallType::Original)), Lives(2));
    assert_eq!(strike(Lives(1), Tags::Ball(BallType::Clone)), Lives(0));
    assert_eq!(strike(Lives(0), Tags::Ball(BallType::Original)), Lives(-1));
    assert_eq!(strike(Lives(3), Tags::Ball(BallType::Special)), Lives(0));
    assert_eq!(strike(Lives(-4), Tags::Ball(BallType::Special)), Lives(0));
    assert_eq!(strike(Lives(i32::MIN), Tags::Ball(BallType::Original)), Lives(i32::MIN));
    assert_eq!(strike(Lives(3), Tags::Block(BlockType::Special)), Lives(2));
}

#[test]
fn a_ball_that_hits_a_block_of_one_life_destroys_it() {
    let mut world = World::new();
    let paddle = world.entities.spawn(paddle_fields());
    let block = world.entities.spawn(block_fields(100 * UNIT, 50 * UNIT, 1, 50, BlockType::Fragile));
    let ball = world.entities.spawn(ball_fields(130 * UNIT, 85 * UNIT, 1, -1, BallType::Original));
    world.state = States::Playing;
    world.score = breaker::component::resource::Score(10);
    query_all_colliders(&mut world);
    system(&mut world);
    assert_eq!(world.entities.get(block).unwrap().lives, Some(Lives(0)));
    assert_eq!(
        world.entities.get(ball).unwrap().position,
        Some(Position(Vec2 { x: 130 * UNIT, y: 90 * UNIT }))
    );
    assert_eq!(world.entities.get(ball).unwrap().velocity, Some(Velocity(Vec2 { x: 1, y: 1 })));
    assert_eq!(world.sounds, vec![Sound::HitBlock]);
    assert_eq!(world.state, States::Playing);
    assert_eq!(world.entities.get(paddle).unwrap().lives, Some(Lives(3)));

    block::system(&mut world);
    assert_eq!(world.score, breaker::component::resource::Score(60));
    assert!(world.entities.contains(block));
    world.flush();
    assert!(!world.entities.contains(block));
    assert!(world.entities.get(block).is_none());
    assert!(world.entities.contains(ball));
    assert!(world.entities.contains(paddle));
    assert!(world.commands.is_empty());
}

#[test]
fn only_the_first_collider_that_is_met_is_struck() {
    let mut world = World::new();
    let first = world.entities.spawn(block_fields(0, 0, 3, 50, BlockType::Fragile));
    let second = world.entities.spawn(block_fields(100 * UNIT, 0, 3, 50, BlockType::Fragile));
    let ball =
        world.entities.spawn(ball_fields(85 * UNIT, 35 * UNIT, 1, -1, BallType::Original));
    query_all_colliders(&mut world);
    system(&mut world);
    assert_eq!(world.entities.get(first).unwrap().lives, Some(Lives(2)));
    assert_eq!(world.entities.get(second).unwrap().lives, Some(Lives(3)));
    assert_eq!(
        world.entities.get(ball).unwrap().position,
        Some(Position(Vec2 { x: 85 * UNIT, y: 40 * UNIT }))
    );
    assert_eq!(world.sounds.len(), 1);
}

#[test]
fn a_special_ball_kills_at_once() {
    let mut world = World::new();
    let _other = world.entities.spawn(block_fields(500 * UNIT, 0, 3, 50, BlockType::Fragile));
    let block = world.entities.spawn(block_fields(0, 0, 3, 50, BlockType::Fragile));
    world.entities.spawn(ball_fields(30 * UNIT, 35 * UNIT, 1, -1, BallType::Special));
    query_all_colliders(&mut world);
    system(&mut world);
    assert_eq!(world.entities.get(block).unwrap().lives, Some(Lives(0)));
}

#[test]
fn two_balls_on_one_block_strike_it_in_turn() {
    let mut world = World::new();
    let _other = world.entities.spawn(block_fields(500 * UNIT, 0, 3, 50, BlockType::Fragile));
    let block = world.entities.spawn(block_fields(0, 0, 3, 50, BlockType::Fragile));
    world.entities.spawn(ball_fields(30 * UNIT, 35 * UNIT, 1, -1, BallType::Special));
    world.entities.spawn(ball_fields(60 * UNIT, 35 * UNIT, 1, -1, BallType::Original));
    query_all_colliders(&mut world);
    system(&mut world);
    assert_eq!(world.entities.get(block).unwrap().lives, Some(Lives(-1)));
    assert_eq!(world.sounds, vec![Sound::HitBlock, Sound::HitBlock]);
}

#[test]
fn a_collider_that_is_gone_still_deflects_but_is_not_struck() {
    let mut world = World::new();
    let _other = world.entities.spawn(block_fields(500 * UNIT, 0, 3, 50, BlockType::Fragile));
    let block = world.entities.spawn(block_fields(0, 0, 3, 50, BlockType::Fragile));
    let ball = world.entities.spawn(ball_fields(30 * UNIT, 35 * UNIT, 1, -1, BallType::Original));
    query_all_colliders(&mut world);
    world.entities.despawn(block);
    let reused = world.entities.spawn(block_fields(700 * UNIT, 0, 3, 50, BlockType::Fragile));
    assert_eq!(reused.index, block.index);
    system(&mut world);
    assert_eq!(world.entities.get(ball).unwrap().velocity, Some(Velocity(Vec2 { x: 1, y: 1 })));
    assert_eq!(world.entities.get(reused).unwrap().lives, Some(Lives(3)));
    assert!(world.sounds.is_empty());
}

#[test]
fn a_collider_without_lives_makes_no_sound() {
    let mut world = World::new();
    let mut wall = Fields::new();
    wall.position = Some(Position(Vec2 { x: 0, y: 0 }));
    wall.aabb = Some(Aabb(Rect { x: 0, y: 0, w: BLOCK_WIDTH, h: BLOCK_HEIGHT }));
    world.entities.spawn(wall);
    world.entities.spawn(block_fields(500 * UNIT, 0, 3, 50, BlockType::Fragile));
    let ball = world.entities.spawn(ball_fields(30 * UNIT, 35 * UNIT, 1, -1, BallType::Original));
    query_all_colliders(&mut world);
    system(&mut world);
    assert_eq!(world.entities.get(ball).unwrap().velocity, Some(Velocity(Vec2 { x: 1, y: 1 })));
    assert!(world.sounds.is_empty());
}

#[test]
fn a_ball_bounces_off_the_paddle_without_taking_a_life() {
    let mut world = World::new();
    let paddle = world.entities.spawn(paddle_fields());
    world.entities.spawn(block_fields(500 * UNIT, 0, 3, 50, BlockType::Fragile));
    let ball = world.entities.spawn(ball_fields(
        150 * UNIT,
        500 * UNIT - BALL_SIZE + UNIT,
        1,
        1,
        BallType::Special,
    ));
    query_all_colliders(&mut world);
    system(&mut world);
    assert_eq!(
        world.entities.get(ball).unwrap().position,
        Some(Position(Vec2 { x: 150 * UNIT, y: 500 * UNIT - BALL_SIZE }))
    );
    assert_eq!(world.entities.get(ball).unwrap().velocity, Some(Velocity(Vec2 { x: 1, y: -1 })));
    assert_eq!(world.entities.get(paddle).unwrap().lives, Some(Lives(3)));
    assert!(world.sounds.is_empty());
}

#[test]
fn the_round_restarts_when_only_the_paddle_is_left() {
    let mut world = World::new();
    world.entities.spawn(paddle_fields());
    world.entities.spawn(ball_fields(0, 0, 1, 1, BallType::Original));
    world.state = States::Playing;
    query_all_colliders(&mut world);
    assert_eq!(world.colliders.0.len(), 1);
    system(&mut world);
    assert_eq!(world.state, States::Restarting);
}

#[test]
fn the_round_goes_on_while_a_block_is_left() {
    let mut world = World::new();
    world.entities.spawn(paddle_fields());
    world.entities.spawn(block_fields(0, 0, 3, 50, BlockType::Fragile));
    world.state = States::Playing;
    query_all_colliders(&mut world);
    assert_eq!(world.colliders.0.len(), 2);
    system(&mut world);
    assert_eq!(world.state, States::Playing);
}

#[test]
fn an_empty_snapshot_restarts_the_round_too() {
    let mut world = World::new();
    world.state = States::Paused;
    system(&mut world);
    assert_eq!(world.state, States::Restarting);
}
