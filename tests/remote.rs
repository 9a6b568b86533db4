use curvefever::clock::GameState;
use curvefever::menu::{Menu, MenuState};
use curvefever::player::PlayerColor;
use curvefever::protocol::{ClientEvent, Direction, GameEvent};
use curvefever::events::{player_dto, EventAction};
use curvefever::world::World;

fn world() -> World<()> {
    World::with_color_rolls(0, (), (), 7, 0)
}

#[test]
fn steering_reaches_the_player_with_the_id() {
    let mut w = world();
    assert_eq!(w.find_player(1), Some(1));
    assert_eq!(w.find_player(9), None);
    let a = w.apply_event(ClientEvent::Input { player_id: 1, dir: Direction::Left });
    assert_eq!(a, EventAction::Nothing);
    assert_eq!(w.players[1].remote_direction, Direction::Left);
    assert_eq!(w.players[0].remote_direction, Direction::Straight);
    w.apply_event(ClientEvent::Input { player_id: 9, dir: Direction::Right });
    assert_eq!(w.players[0].remote_direction, Direction::Straight);
}

#[test]
fn colours_change_only_when_stopped() {
    let mut w = world();
    assert_eq!(w.players[0].color, PlayerColor::Blue);
    assert_eq!(w.apply_event(ClientEvent::NextColor { player_id: 0 }), EventAction::SyncPlayers);
    assert_eq!(w.players[0].color, PlayerColor::Orange);
    assert_eq!(w.apply_event(ClientEvent::PrevColor { player_id: 0 }), EventAction::SyncPlayers);
    assert_eq!(w.players[0].color, PlayerColor::Blue);
    assert_eq!(w.apply_event(ClientEvent::PrevColor { player_id: 5 }), EventAction::Nothing);
    w.state = GameState::Running(0);
    assert_eq!(w.apply_event(ClientEvent::PrevColor { player_id: 0 }), EventAction::Nothing);
    assert_eq!(w.players[0].color, PlayerColor::Blue);
    assert!(!w.cycle_color(0, false));
}

#[test]
fn renaming() {
    let mut w = world();
    let a = w.apply_event(ClientEvent::Rename { player_id: 0, name: "Ada".to_string() });
    assert_eq!(a, EventAction::SyncPlayers);
    assert_eq!(w.players[0].name, "Ada");
    assert!(!w.rename(4, "Bob".to_string()));
    assert_eq!(w.players[1].name, "Player2");
}

#[test]
fn screens_and_players_only_when_stopped() {
    let mut w = world();
    assert_eq!(w.apply_event(ClientEvent::Share), EventAction::ToggleShare);
    assert_eq!(w.apply_event(ClientEvent::Help), EventAction::ToggleHelp);
    assert_eq!(w.apply_event(ClientEvent::AddPlayer { request_id: 12 }), EventAction::AddPlayer(12));
    assert_eq!(w.apply_event(ClientEvent::SyncPlayers), EventAction::SyncPlayers);
    assert_eq!(w.apply_event(ClientEvent::Restart), EventAction::Restart);
    w.state = GameState::Running(3);
    assert_eq!(w.apply_event(ClientEvent::Share), EventAction::Nothing);
    assert_eq!(w.apply_event(ClientEvent::AddPlayer { request_id: 12 }), EventAction::Nothing);
    assert_eq!(w.apply_event(ClientEvent::Pause), EventAction::Nothing);
    assert_eq!(w.state, GameState::Paused(3));
    w.apply_event(ClientEvent::Pause);
    assert_eq!(w.state, GameState::Running(3));
}

#[test]
fn players_announced() {
    let w = world();
    let dto = player_dto(&w.players[1]);
    assert_eq!(dto.id, 1);
    assert_eq!(dto.color, [230, 100, 20, 255]);
    assert_eq!(dto.name, "Player2");
    match w.player_sync() {
        GameEvent::PlayerSync { players } => {
            assert_eq!(players.len(), 2);
            assert_eq!(players[0].color, [70, 90, 230, 255]);
            assert_eq!(players[0].name, "Player1");
        }
        _ => panic!("expected a player list"),
    }
}

#[test]
fn menu_screens_toggle() {
    let mut m = Menu::new();
    m.toggle(MenuState::Share);
    assert_eq!(m.state, MenuState::Share);
    m.toggle(MenuState::Help);
    assert_eq!(m.state, MenuState::Help);
    m.toggle(MenuState::Help);
    assert_eq!(m.state, MenuState::Home);
}
