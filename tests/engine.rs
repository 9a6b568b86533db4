use curvefever::clock::{Clock, GameState, START_DELAY, UPDATE_TIME};
use curvefever::effect::{
    apply_player_item, attribute, expire_effects, gap, gap_effect, no_gap, player_effect,
    Attribute, Effect, PlayerEffect, WorldEffect, BASE_SPEED, MIN_SPEED, MIN_THICKNESS,
    MIN_TURNING_RADIUS, NANOS_PER_SEC,
};
use curvefever::item::{ItemKind, SUM_OF_ITEM_SPAWN_RATES};
use curvefever::player::{
    starts_new_section, DirectionExt, Player, PlayerColor, SectionShape, TurnDirection,
};
use curvefever::protocol::Direction;
use curvefever::world::{roll_succeeds, spawn_kind, CrashMessage, World, GAP_RATE, MAX_ITEMS};

fn world() -> World<u32> {
    World::with_color_rolls(1_000, 10, 20, 0, 0)
}

#[test]
fn item_spawn_rates_and_names() {
    assert_eq!(ItemKind::Speedup.spawn_rate(), 4);
    assert_eq!(ItemKind::Ghosting.spawn_rate(), 1);
    assert_eq!(ItemKind::NoGap.spawn_rate(), 3);
    assert_eq!(ItemKind::Clear.spawn_rate(), 2);
    let total: u32 = (0..10).map(|i| ItemKind::from_index(i).spawn_rate() as u32).sum();
    assert_eq!(total, SUM_OF_ITEM_SPAWN_RATES as u32);
    assert_eq!(ItemKind::FastTurning.name(), "Fast turning");
    assert_eq!(ItemKind::Clear.name(), "Clear trails");
    assert_eq!(ItemKind::Expand.rgb(), (245, 210, 22));
}

#[test]
fn item_roll_boundaries() {
    assert_eq!(ItemKind::from_roll(0), ItemKind::Speedup);
    assert_eq!(ItemKind::from_roll(3), ItemKind::Speedup);
    assert_eq!(ItemKind::from_roll(4), ItemKind::Slowdown);
    assert_eq!(ItemKind::from_roll(23), ItemKind::Shrink);
    assert_eq!(ItemKind::from_roll(24), ItemKind::Ghosting);
    assert_eq!(ItemKind::from_roll(25), ItemKind::NoGap);
    assert_eq!(ItemKind::from_roll(27), ItemKind::NoGap);
    assert_eq!(ItemKind::from_roll(28), ItemKind::WallTeleporting);
    assert_eq!(ItemKind::from_roll(32), ItemKind::Clear);
    assert_eq!(ItemKind::from_roll(33), ItemKind::Clear);
}

#[test]
fn spawn_needs_room_and_a_hit() {
    assert_eq!(spawn_kind(UPDATE_TIME, 0, 0, 4), Some(ItemKind::Slowdown));
    assert_eq!(spawn_kind(UPDATE_TIME, MAX_ITEMS, 0, 4), None);
    assert_eq!(spawn_kind(0, 0, 0, 4), None);
    assert!(roll_succeeds(10, GAP_RATE, 3_999));
    assert!(!roll_succeeds(10, GAP_RATE, 4_000));
}

#[test]
fn colors_wrap_around() {
    let mut c = PlayerColor::Orange;
    c.prev();
    assert_eq!(c, PlayerColor::Blue);
    c.next();
    assert_eq!(c, PlayerColor::Orange);
    c.next();
    assert_eq!(c, PlayerColor::Green);
    assert_eq!(PlayerColor::Cyan.rgb(), (30, 200, 200));
}

#[test]
fn directions() {
    assert_eq!(Direction::from_left_right_down(true, true), Direction::Straight);
    assert_eq!(Direction::from_left_right_down(false, false), Direction::Straight);
    assert_eq!(Direction::from_left_right_down(true, false), Direction::Left);
    assert_eq!(Direction::from_left_right_down(false, true), Direction::Right);
    assert_eq!(Direction::Straight.turning_direction(), None);
    assert_eq!(Direction::Left.turning_direction(), Some(TurnDirection::Left));
    assert_eq!(TurnDirection::Right.angle_sign(), 1);
    assert_eq!(TurnDirection::Left.angle_sign(), -1);
}

#[test]
fn clock_stands_still_unless_playing() {
    let mut c = Clock::new(100);
    c.update(&GameState::Paused(0));
    assert_eq!((c.now, c.frame_delta), (100, 0));
    c.update(&GameState::Stopped(0));
    assert_eq!((c.now, c.frame_delta), (100, 0));
    c.update(&GameState::Running(0));
    assert_eq!((c.now, c.frame_delta), (100 + UPDATE_TIME, UPDATE_TIME));
    c.update(&GameState::Starting(0));
    assert_eq!(c.now, 100 + 2 * UPDATE_TIME);
    let mut end = Clock::new(u64::MAX);
    end.update(&GameState::Paused(0));
    assert_eq!((end.now, end.frame_delta), (u64::MAX, 0));
}

#[test]
fn effect_present_until_its_time_is_up() {
    let e = Effect { start: 0, duration: NANOS_PER_SEC, kind: PlayerEffect::Gap };
    let mut at_999 = vec![e];
    expire_effects(&mut at_999, 999_000_000);
    assert_eq!(at_999, vec![e]);
    let mut at_1001 = vec![e];
    expire_effects(&mut at_1001, 1_001_000_000);
    assert!(at_1001.is_empty());
    let mut at_end = vec![e];
    expire_effects(&mut at_end, NANOS_PER_SEC);
    assert!(at_end.is_empty());
}

#[test]
fn expiry_keeps_order_of_survivors() {
    let a = Effect { start: 0, duration: 10, kind: WorldEffect::WallTeleporting };
    let b = Effect { start: 5, duration: 1, kind: WorldEffect::WallTeleporting };
    let c = Effect { start: 3, duration: 20, kind: WorldEffect::WallTeleporting };
    let mut v = vec![a, b, c];
    expire_effects(&mut v, 6);
    assert_eq!(v, vec![a, c]);
}

#[test]
fn attributes_sum_deltas_and_clamp() {
    let mut effects = Vec::new();
    assert_eq!(attribute(&effects, Attribute::Speed), BASE_SPEED as i128);
    apply_player_item(&mut effects, ItemKind::Speedup, 0, false);
    apply_player_item(&mut effects, ItemKind::Speedup, 0, true);
    assert_eq!(attribute(&effects, Attribute::Speed), 250);
    assert_eq!(effects[0].duration, 5 * NANOS_PER_SEC);
    assert_eq!(effects[1].duration, 6 * NANOS_PER_SEC);
    for _ in 0..5 {
        apply_player_item(&mut effects, ItemKind::Slowdown, 0, false);
    }
    assert_eq!(attribute(&effects, Attribute::Speed), MIN_SPEED as i128);
    apply_player_item(&mut effects, ItemKind::Expand, 0, false);
    assert_eq!(attribute(&effects, Attribute::Size), 8);
    for _ in 0..6 {
        apply_player_item(&mut effects, ItemKind::Shrink, 0, false);
    }
    assert_eq!(attribute(&effects, Attribute::Size), MIN_THICKNESS as i128);
    apply_player_item(&mut effects, ItemKind::SlowTurning, 0, false);
    assert_eq!(attribute(&effects, Attribute::Turning), 70);
    for _ in 0..3 {
        apply_player_item(&mut effects, ItemKind::FastTurning, 0, false);
    }
    assert_eq!(attribute(&effects, Attribute::Turning), MIN_TURNING_RADIUS as i128);
}

#[test]
fn ghosting_and_no_gap_exclude_each_other() {
    let mut effects = vec![gap_effect(0, false)];
    assert!(gap(&effects));
    assert_eq!(effects[0].duration, 150_000_000);
    apply_player_item(&mut effects, ItemKind::NoGap, 7, false);
    assert!(!gap(&effects));
    assert!(no_gap(&effects));
    assert_eq!(effects, vec![player_effect(7, PlayerEffect::NoGap, false)]);
    apply_player_item(&mut effects, ItemKind::Ghosting, 9, true);
    assert!(!no_gap(&effects));
    assert!(gap(&effects));
    assert_eq!(effects, vec![player_effect(9, PlayerEffect::Ghosting, true)]);
}

#[test]
fn effects_name_their_items() {
    assert_eq!(PlayerEffect::Size(-2).item_kind(), Some(ItemKind::Shrink));
    assert_eq!(PlayerEffect::Size(4).item_kind(), Some(ItemKind::Expand));
    assert_eq!(PlayerEffect::Speed(-50).item_kind(), Some(ItemKind::Slowdown));
    assert_eq!(PlayerEffect::Turning(-20).item_kind(), Some(ItemKind::FastTurning));
    assert_eq!(PlayerEffect::Turning(20).item_kind(), Some(ItemKind::SlowTurning));
    assert_eq!(PlayerEffect::Gap.item_kind(), None);
}

#[test]
fn section_changes() {
    let s = SectionShape { dir: Direction::Straight, gap: false, thickness: 4, radius: 50 };
    assert!(starts_new_section(None, s));
    assert!(!starts_new_section(Some(s), s));
    assert!(!starts_new_section(Some(s), SectionShape { radius: 30, ..s }));
    assert!(starts_new_section(Some(s), SectionShape { thickness: 8, ..s }));
    assert!(starts_new_section(Some(s), SectionShape { gap: true, ..s }));
    let arc = SectionShape { dir: Direction::Left, ..s };
    assert!(starts_new_section(Some(s), arc));
    assert!(starts_new_section(Some(arc), SectionShape { radius: 30, ..arc }));
}

#[test]
fn player_direction_prefers_local_keys() {
    let mut p = Player::new(3, "a".to_string(), PlayerColor::Red, ());
    p.remote_direction = Direction::Right;
    assert_eq!(p.direction(), Direction::Right);
    p.local_direction = Direction::Left;
    assert_eq!(p.direction(), Direction::Left);
    let shape = p.section_shape();
    assert_eq!(shape, SectionShape { dir: Direction::Left, gap: false, thickness: 4, radius: 50 });
}

#[test]
fn new_world_has_two_players() {
    let w = world();
    assert_eq!(w.players.len(), 2);
    assert_eq!(w.players[0].name, "Player1");
    assert_eq!(w.players[1].name, "Player2");
    assert_eq!(w.players[0].color, PlayerColor::Orange);
    assert_eq!(w.players[1].color, PlayerColor::Green);
    assert_eq!((w.players[0].id, w.players[1].id, w.next_id), (0, 1, 2));
    assert_eq!(w.state, GameState::Stopped(1_000));
    assert_eq!((w.clock.now, w.clock.frame_delta), (1_000, 0));
    assert!(w.effects.is_empty() && w.crash_feed.is_empty() && w.is_running);
    let r = World::new(5, (), ());
    assert_eq!((r.players[0].name.as_str(), r.players[1].name.as_str()), ("Player1", "Player2"));
    assert_eq!((r.players[0].id, r.players[1].id, r.next_id), (0, 1, 2));
    assert_eq!(r.players.len(), 2);
    assert_ne!(r.players[0].color, r.players[1].color);
}

#[test]
fn players_up_to_the_palette() {
    let mut w = world();
    assert_eq!(w.free_colors().len(), 6);
    assert_eq!(w.add_player_with(30, 1), Some(2));
    assert_eq!(w.players[2].name, "Player3");
    assert_eq!(w.players[2].color, PlayerColor::Cyan);
    assert_eq!(w.add_player_with(40, 9), None);
    assert_eq!(w.players.len(), 3);
    while w.players.len() < 8 {
        assert!(w.add_player(50).is_some());
    }
    assert_eq!(w.players[7].name, "Player8");
    let last = &w.players[7];
    assert_eq!((last.score, last.crashed, last.body), (0, false, 50));
    assert!(last.effects.is_empty());
    let mut tens = world();
    for _ in 0..8 {
        tens.add_player(1);
    }
    assert_eq!(tens.players.len(), 8);
    assert!(w.free_colors().is_empty());
    assert_eq!(w.add_player(60), None);
    let mut colors: Vec<usize> = w.players.iter().map(|p| p.color.to_index()).collect();
    colors.sort();
    assert_eq!(colors, (0..8).collect::<Vec<usize>>());
}

#[test]
fn two_players_stay() {
    let mut w = world();
    w.remove_player(0);
    assert_eq!(w.players.len(), 2);
    w.add_player_with(30, 0);
    w.remove_player(0);
    assert_eq!(w.players.len(), 2);
    assert_eq!(w.players[0].body, 20);
    w.add_player_with(40, 0);
    w.remove_player(3);
    assert_eq!(w.players.len(), 3);
    w.remove_player(2);
    assert_eq!(w.players.len(), 2);
}

#[test]
fn pause_keeps_start_time() {
    let mut w = world();
    w.toggle_pause();
    assert_eq!(w.state, GameState::Stopped(1_000));
    w.state = GameState::Running(42);
    w.toggle_pause();
    assert_eq!(w.state, GameState::Paused(42));
    w.toggle_pause();
    assert_eq!(w.state, GameState::Running(42));
}

#[test]
fn restart_only_when_stopped() {
    let mut w = world();
    w.players[0].crashed = true;
    w.players[0].just_crashed = true;
    w.players[0].score = 3;
    w.players[1].effects.push(gap_effect(0, false));
    assert!(w.restart(vec![11, 21]));
    assert_eq!(w.state, GameState::Starting(1_000));
    assert!(!w.players[0].crashed && !w.players[0].just_crashed);
    assert_eq!(w.players[0].score, 3);
    assert!(w.players[1].effects.is_empty());
    assert_eq!((w.players[0].body, w.players[1].body), (11, 21));
    assert!(!w.restart(vec![0, 0]));
    assert_eq!(w.players[0].body, 11);
}

#[test]
fn start_delay() {
    let mut w = world();
    w.state = GameState::Starting(1_000);
    w.clock.now = 999 + START_DELAY;
    w.advance_start();
    assert_eq!(w.state, GameState::Starting(1_000));
    w.clock.now += 1;
    w.advance_start();
    assert_eq!(w.state, GameState::Running(1_000 + START_DELAY));
}

#[test]
fn survivor_scores_and_round_stops() {
    let mut w = world();
    w.state = GameState::Running(7);
    w.players[1].just_crashed = true;
    w.finish_tick();
    assert!(w.players[1].crashed);
    assert_eq!(w.players[0].score, 1);
    assert_eq!(w.players[1].score, 0);
    assert_eq!(w.state, GameState::Stopped(7));
}

#[test]
fn round_goes_on_with_two_alive() {
    let mut w = world();
    w.add_player_with(30, 0);
    w.state = GameState::Running(7);
    w.players[2].just_crashed = true;
    w.finish_tick();
    assert!(w.players[2].crashed);
    assert_eq!(w.state, GameState::Running(7));
    assert!(w.players.iter().all(|p| p.score == 0));
}

#[test]
fn simultaneous_crash_scores_nobody() {
    let mut w = world();
    w.state = GameState::Running(7);
    w.players[0].just_crashed = true;
    w.players[1].just_crashed = true;
    w.finish_tick();
    assert!(w.players.iter().all(|p| p.crashed && p.score == 0));
    assert_eq!(w.state, GameState::Stopped(7));
}

#[test]
fn crash_feed_entries() {
    let mut w = world();
    w.register_hits(0, true, true, Some(1));
    assert_eq!(w.crash_feed.len(), 3);
    assert!(w.players[0].just_crashed);
    assert!(!w.players[1].just_crashed);
    assert!(matches!(&w.crash_feed[0].message, CrashMessage::Wall { name, .. } if name == "Player1"));
    assert!(matches!(&w.crash_feed[1].message, CrashMessage::Own { .. }));
    match &w.crash_feed[2].message {
        CrashMessage::Other { crashed_name, other_name, other_color, .. } => {
            assert_eq!(crashed_name, "Player1");
            assert_eq!(other_name, "Player2");
            assert_eq!(*other_color, PlayerColor::Green);
        }
        _ => panic!("expected a crash into another trail"),
    }
    assert_eq!(w.crash_feed[2].time, 1_000);
    w.register_hits(1, false, false, None);
    assert!(!w.players[1].just_crashed);
    assert_eq!(w.crash_feed.len(), 3);
}

#[test]
fn gaps_and_crashed_players_do_not_collide() {
    let mut w = world();
    w.players[1].effects.push(gap_effect(1_000, false));
    w.register_hits(1, false, true, Some(0));
    assert!(w.crash_feed.is_empty());
    assert!(!w.players[1].just_crashed);
    w.register_hits(1, true, false, None);
    assert_eq!(w.crash_feed.len(), 1);
    w.players[0].crashed = true;
    w.register_hits(0, true, true, Some(1));
    assert_eq!(w.crash_feed.len(), 1);
}

#[test]
fn random_gaps() {
    let mut w = world();
    w.clock.frame_delta = UPDATE_TIME;
    w.maybe_add_gap(0, UPDATE_TIME * GAP_RATE, false);
    assert!(w.players[0].effects.is_empty());
    w.maybe_add_gap(0, 0, true);
    assert_eq!(w.players[0].effects, vec![gap_effect(1_000, true)]);
    w.maybe_add_gap(0, 0, false);
    assert_eq!(w.players[0].effects.len(), 1);
    w.players[1].effects.push(player_effect(0, PlayerEffect::NoGap, false));
    w.maybe_add_gap(1, 0, false);
    assert_eq!(w.players[1].effects.len(), 1);
    w.roll_gap(1);
    assert_eq!(w.players[1].effects.len(), 1);
}

#[test]
fn items_act_on_player_or_arena() {
    let mut w = world();
    assert!(!w.collect_item(0, ItemKind::Speedup, false));
    assert_eq!(w.players[0].speed(), 200);
    assert!(!w.wall_teleporting());
    assert!(!w.collect_item(1, ItemKind::WallTeleporting, true));
    assert!(w.wall_teleporting());
    assert_eq!(w.effects[0].duration, 13 * NANOS_PER_SEC);
    assert!(w.players[1].effects.is_empty());
    assert!(w.collect_item(1, ItemKind::Clear, false));
    assert!(w.pick_up(1, ItemKind::Expand) == false);
    assert_eq!(w.players[1].thickness(), 8);
}

#[test]
fn expire_everything_in_the_world() {
    let mut w = world();
    w.collect_item(0, ItemKind::Shrink, false);
    w.collect_item(0, ItemKind::WallTeleporting, false);
    w.clock.now = 1_000 + 5 * NANOS_PER_SEC;
    w.expire_effects();
    assert!(w.players[0].effects.is_empty());
    assert_eq!(w.effects.len(), 1);
    w.clock.now = 1_000 + 10 * NANOS_PER_SEC;
    w.expire_effects();
    assert!(w.effects.is_empty());
}

#[test]
fn crashed_players_are_not_obstacles() {
    let mut w = world();
    w.add_player_with(30, 0);
    assert_eq!(w.collidable_others(0), vec![1, 2]);
    w.players[1].crashed = true;
    assert_eq!(w.collidable_others(0), vec![2]);
    assert_eq!(w.collidable_others(2), vec![0]);
}

#[test]
fn no_chance_without_time() {
    let mut w = world();
    w.clock.frame_delta = 0;
    for _ in 0..100 {
        w.roll_gap(0);
        assert_eq!(curvefever::world::draw_spawn_kind(0, 0), None);
    }
    assert!(w.players[0].effects.is_empty());
}
