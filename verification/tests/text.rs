use breaker::component::resource::{Input, Score};
use breaker::component::trigger::{AddPlayerLives, Command};
use breaker::component::{
    BallBundle, BallType, Color, ColorComponent, FontComponent, GameOverTag, Lives, LivesTag,
    PlayerBundle, Position, ScoreTag, Tags, Text, TextBundle, TextScoreBundle, Texture,
};
use breaker::game::States;
use breaker::geometry::{Vec2, UNIT};
use breaker::store::{Entity, Fields};
use breaker::system::block::block_at;
use breaker::system::text::{
    anchor, gameover_system, labelled, lives_system, relabel, score_system, system, Label,
};
use breaker::world::World;

fn text_of(world: &World, e: Entity) -> String {
    world.entities.get(e).unwrap().text.as_ref().unwrap().text.clone()
}

fn score_label(world: &mut World) -> Entity {
    let b = TextScoreBundle::new(
        String::from("Score"),
        false,
        Vec2 { x: 25 * UNIT, y: 40 * UNIT },
        Color::White,
        30,
    );
    world.entities.spawn(b.fields())
}

fn lives_label(world: &mut World) -> Entity {
    let mut f = TextBundle::new(
        String::from("Lives"),
        false,
        Vec2 { x: 600 * UNIT, y: 40 * UNIT },
        Color::White,
        30,
    )
    .fields();
    f.lives_tag = Some(LivesTag);
    world.entities.spawn(f)
}

fn game_over_label(world: &mut World) -> Entity {
    let mut f = TextBundle::new(
        String::from("?"),
        true,
        Vec2 { x: 500 * UNIT, y: 40 * UNIT },
        Color::White,
        30,
    )
    .fields();
    f.game_over_tag = Some(GameOverTag);
    world.entities.spawn(f)
}

fn player(world: &mut World, lives: i32) -> Entity {
    let mut f =
        PlayerBundle::new(Vec2 { x: 120 * UNIT, y: 500 * UNIT }, Color::White, Texture::Player)
            .fields();
    f.lives = Some(Lives(lives));
    world.entities.spawn(f)
}

#[test]
fn numbers_are_written_in_decimal() {
    assert_eq!(labelled("Score: ", 0), "Score: 0");
    assert_eq!(labelled("Score: ", 7), "Score: 7");
    assert_eq!(labelled("Score: ", 10), "Score: 10");
    assert_eq!(labelled("Score: ", 1050), "Score: 1050");
    assert_eq!(labelled("Lives: ", 3), "Lives: 3");
    assert_eq!(labelled("", 2147483647), "2147483647");
}

#[test]
fn negative_numbers_carry_a_minus_sign() {
    assert_eq!(labelled("Score: ", -100), "Score: -100");
    assert_eq!(labelled("Score: ", -1), "Score: -1");
    assert_eq!(labelled("", i32::MIN), "-2147483648");
}

#[test]
fn text_bundles_hold_what_they_are_given() {
    let b = TextBundle::new(String::from("abc"), true, Vec2 { x: 1, y: 2 }, Color::Pink, 12);
    assert_eq!(b.text.text, "abc");
    assert!(b.text.center);
    assert_eq!(b.rect, Position(Vec2 { x: 1, y: 2 }));
    assert_eq!(b.color, ColorComponent(Color::Pink));
    assert_eq!(b.font, FontComponent { size: 12 });
    let f = b.fields();
    assert_eq!(f.position, Some(Position(Vec2 { x: 1, y: 2 })));
    assert!(f.score_tag.is_none() && f.lives.is_none() && f.tags.is_none());
    let s = TextScoreBundle::new(String::from("s"), false, Vec2 { x: 0, y: 0 }, Color::White, 30);
    assert_eq!(s.tag, ScoreTag);
    let f = s.fields();
    assert_eq!(f.score_tag, Some(ScoreTag));
    assert_eq!(f.text.unwrap().text, "s");
}

#[test]
fn the_score_text_follows_the_score() {
    let mut world = World::new();
    let score = score_label(&mut world);
    let lives = lives_label(&mut world);
    world.score = Score(150);
    score_system(&mut world);
    assert_eq!(text_of(&world, score), "Score: 150");
    assert_eq!(text_of(&world, lives), "Lives");
    world.score = Score(-50);
    world.state = States::Paused;
    score_system(&mut world);
    assert_eq!(text_of(&world, score), "Score: -50");
    assert!(!world.entities.get(score).unwrap().text.as_ref().unwrap().center);
}

#[test]
fn the_lives_text_follows_the_player() {
    let mut world = World::new();
    let score = score_label(&mut world);
    let lives = lives_label(&mut world);
    let p = player(&mut world, 3);
    lives_system(&mut world);
    assert_eq!(text_of(&world, lives), "Lives: 3");
    assert_eq!(text_of(&world, score), "Score");
    world.entities.set_lives(p, Lives(0));
    lives_system(&mut world);
    assert_eq!(text_of(&world, lives), "Lives: 0");
}

#[test]
fn without_exactly_one_player_the_lives_text_stays() {
    let mut world = World::new();
    let lives = lives_label(&mut world);
    lives_system(&mut world);
    assert_eq!(text_of(&world, lives), "Lives");
    player(&mut world, 3);
    player(&mut world, 2);
    lives_system(&mut world);
    assert_eq!(text_of(&world, lives), "Lives");
}

#[test]
fn relabel_puts_a_missing_announcement_back() {
    let mut world = World::new();
    let mut f = Fields::new();
    f.game_over_tag = Some(GameOverTag);
    let bare = world.entities.spawn(f);
    let mut g = Fields::new();
    g.score_tag = Some(ScoreTag);
    let no_text = world.entities.spawn(g);
    relabel(&mut world, Label::GameOver, "over");
    relabel(&mut world, Label::Score, "points");
    assert_eq!(text_of(&world, bare), "over");
    assert!(world.entities.get(bare).unwrap().text.as_ref().unwrap().center);
    assert!(world.entities.get(no_text).unwrap().text.is_none());
}

#[test]
fn the_announcement_always_reads_game_over() {
    let mut world = World::new();
    let over = game_over_label(&mut world);
    world.score = Score(40);
    world.state = States::GameOver;
    gameover_system(&mut world);
    assert_eq!(text_of(&world, over), "Game Over!");
    assert_eq!(world.score, Score(40));
    assert_eq!(world.state, States::GameOver);
    assert!(world.commands.is_empty());
}

#[test]
fn confirm_clears_the_board_for_a_new_game() {
    let mut world = World::new();
    let score = score_label(&mut world);
    let p = player(&mut world, 0);
    let block = world.entities.spawn(block_at(0, 0).fields());
    let ball = world.entities.spawn(
        BallBundle::with_roll(Vec2 { x: 0, y: 0 }, Color::White, Texture::Ball, BallType::Clone, 0)
            .fields(),
    );
    let over = game_over_label(&mut world);
    let block2 = world.entities.spawn(block_at(1, 85).fields());
    world.score = Score(730);
    world.state = States::GameOver;
    world.input = Input { left: false, right: false, pause: false, confirm: true };
    gameover_system(&mut world);
    assert_eq!(world.score, Score(0));
    assert_eq!(world.state, States::Reviving);
    assert_eq!(
        world.commands,
        vec![
            Command::Despawn(over),
            Command::Despawn(block),
            Command::Despawn(ball),
            Command::Despawn(block2),
            Command::AddPlayerLives(AddPlayerLives(3)),
        ]
    );
    world.flush();
    assert!(!world.entities.contains(over));
    assert!(!world.entities.contains(block));
    assert!(!world.entities.contains(block2));
    assert!(!world.entities.contains(ball));
    assert!(world.entities.contains(score));
    assert_eq!(world.entities.get(p).unwrap().lives, Some(Lives(3)));
    for i in 0..world.entities.slot_count() {
        if let Some(f) = world.entities.fields_at(i) {
            assert!(f.tags.is_none());
            assert!(f.game_over_tag.is_none());
        }
    }
}

#[test]
fn confirm_resets_the_lives_on_an_empty_board_too() {
    let mut world = World::new();
    let p = player(&mut world, -1);
    game_over_label(&mut world);
    world.input = Input { left: false, right: false, pause: false, confirm: true };
    world.score = Score(-300);
    gameover_system(&mut world);
    world.flush();
    assert_eq!(world.entities.get(p).unwrap().lives, Some(Lives(3)));
    assert_eq!(world.score, Score(0));
    assert_eq!(world.state, States::Reviving);
}

#[test]
fn confirm_without_an_announcement_does_nothing() {
    let mut world = World::new();
    let p = player(&mut world, 1);
    let block = world.entities.spawn(block_at(0, 0).fields());
    world.score = Score(50);
    world.state = States::Playing;
    world.input = Input { left: false, right: false, pause: false, confirm: true };
    gameover_system(&mut world);
    assert!(world.commands.is_empty());
    assert_eq!(world.score, Score(50));
    assert_eq!(world.state, States::Playing);
    assert!(world.entities.contains(block));
    assert_eq!(world.entities.get(p).unwrap().lives, Some(Lives(1)));
}

#[test]
fn texts_are_listed_for_drawing_in_the_order_of_the_slots() {
    let mut world = World::new();
    score_label(&mut world);
    player(&mut world, 3);
    game_over_label(&mut world);
    let mut incomplete = Fields::new();
    incomplete.text = Some(Text { text: String::from("x"), center: false });
    world.entities.spawn(incomplete);
    system(&mut world);
    assert_eq!(world.texts.len(), 2);
    assert_eq!(world.texts[0].text, "Score");
    assert_eq!(world.texts[0].position, Vec2 { x: 25 * UNIT, y: 40 * UNIT });
    assert!(!world.texts[0].center);
    assert_eq!(world.texts[0].size, 30);
    assert_eq!(world.texts[0].color, Color::White);
    assert_eq!(world.texts[1].text, "?");
    assert!(world.texts[1].center);
    system(&mut world);
    assert_eq!(world.texts.len(), 4);
}

#[test]
fn a_centered_text_starts_left_of_its_position() {
    assert_eq!(anchor(500, true, 120), 380);
    assert_eq!(anchor(500, false, 120), 500);
    assert_eq!(anchor(i64::MIN, true, 1), i64::MIN);
}

#[test]
fn tags_of_blocks_and_balls_are_swept() {
    let mut world = World::new();
    game_over_label(&mut world);
    let mut odd = Fields::new();
    odd.tags = Some(Tags::Ball(BallType::Special));
    let odd = world.entities.spawn(odd);
    world.input = Input { left: false, right: false, pause: false, confirm: true };
    gameover_system(&mut world);
    world.flush();
    assert!(!world.entities.contains(odd));
}
