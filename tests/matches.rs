use insane_livestock::elimination::{should_die, UPRIGHT_THRESHOLD};
use insane_livestock::game::{connect, control_players};
use insane_livestock::steering::TURN_STEP;
use insane_livestock::{
    ButtonAction, ConnectEvent, Game, GameState, Message, Player, Players, Point, UserJoined,
};

fn p(x: i32, y: i32, z: i32) -> Point {
    Point { x, y, z }
}

fn standing(name: &str, x: i32, z: i32) -> Player {
    Player {
        name: name.to_string(),
        position: p(x, 3000, z),
        right: p(1000, 0, 0),
        up_alignment: 1000,
    }
}

fn toppled(name: &str) -> Player {
    Player { up_alignment: 0, ..standing(name, 0, 0) }
}

fn joined(sender: &str) -> UserJoined {
    UserJoined(Message { sender: sender.to_string(), text: "!play".to_string() })
}

fn connected_game() -> Game {
    let mut g = Game::new();
    g.channel_name.0 = "somechannel".to_string();
    let e = g.press(ButtonAction::Connect);
    assert_eq!(e.map(|e| e.0), Some("somechannel".to_string()));
    assert_eq!(g.state, GameState::Connected);
    g
}

#[test]
fn registry_insert_remove() {
    let mut r = Players::new();
    assert!(r.insert("a".to_string()));
    assert!(!r.insert("a".to_string()));
    assert!(r.insert("b".to_string()));
    assert_eq!(r.len(), 2);
    assert!(r.remove(&"a".to_string()));
    assert!(!r.remove(&"a".to_string()));
    assert!(!r.contains(&"a".to_string()));
    assert!(r.contains(&"b".to_string()));
    assert_eq!(r.len(), 1);
    assert_eq!(r.winner(), Some("b".to_string()));
}

#[test]
fn no_winner_with_none_or_several() {
    let mut r = Players::new();
    assert_eq!(r.winner(), None);
    r.insert("a".to_string());
    r.insert("b".to_string());
    assert_eq!(r.winner(), None);
}

#[test]
fn death_conditions() {
    assert!(!should_die(1000, p(0, 3000, 0)));
    assert!(!should_die(UPRIGHT_THRESHOLD, p(0, 0, 0)));
    assert!(should_die(UPRIGHT_THRESHOLD - 1, p(0, 0, 0)));
    assert!(should_die(-1000, p(0, 0, 0)));
    assert!(!should_die(1000, p(300000, -300000, 300000)));
    assert!(should_die(1000, p(300001, 0, 0)));
    assert!(should_die(1000, p(0, -300001, 0)));
    assert!(should_die(1000, p(0, 0, 300001)));
}

#[test]
fn elimination_happens_once() {
    let mut r = Players::new();
    r.insert("a".to_string());
    r.insert("b".to_string());
    let agents = vec![toppled("a"), standing("b", 0, 0)];
    assert_eq!(r.eliminate(&agents), vec![0]);
    assert_eq!(r.len(), 1);
    assert_eq!(r.eliminate(&agents), Vec::<usize>::new());
    assert_eq!(r.len(), 1);
    assert!(r.contains(&"b".to_string()));
}

#[test]
fn elimination_outside_arena() {
    let mut r = Players::new();
    r.insert("far".to_string());
    let agents = vec![standing("far", 400000, 0)];
    assert_eq!(r.eliminate(&agents), vec![0]);
    assert_eq!(r.len(), 0);
}

#[test]
fn connect_takes_the_first_request() {
    assert_eq!(connect(&vec![]), None);
    let events = vec![ConnectEvent("one".to_string()), ConnectEvent("two".to_string())];
    assert_eq!(connect(&events), Some("one".to_string()));
}

#[test]
fn menu_flow() {
    let mut g = Game::new();
    assert_eq!(g.state, GameState::Start);
    assert!(g.press(ButtonAction::Start).is_none());
    assert_eq!(g.state, GameState::Start);
    g.press(ButtonAction::ToggleFilter);
    assert!(!g.settings.filter_joins);
    g.press(ButtonAction::ChangeGPP(true));
    assert_eq!(g.settings.goats_per_player, 2);
    assert!(g.press(ButtonAction::Connect).is_some());
    assert!(g.press(ButtonAction::Connect).is_none());
    assert_eq!(g.state, GameState::Connected);
    g.press(ButtonAction::Start);
    assert_eq!(g.state, GameState::Spectating);
    g.press(ButtonAction::ToggleFilter);
    g.press(ButtonAction::ChangeGPP(true));
    assert!(!g.settings.filter_joins);
    assert_eq!(g.settings.goats_per_player, 2);
}

#[test]
fn joins_only_while_connected() {
    let mut g = Game::new();
    assert!(g.read_user_event(&joined("early")).is_empty());
    assert!(g.debug_spawn().is_none());
    let mut g = connected_game();
    let s = g.read_user_event(&joined("alice"));
    assert_eq!(s.len(), 1);
    assert_eq!(s[0].name, "alice");
    let d = g.debug_spawn().unwrap();
    assert_eq!(d.name, "mrrow 2");
    g.press(ButtonAction::Start);
    assert!(g.read_user_event(&joined("late")).is_empty());
    assert!(g.debug_spawn().is_none());
    assert_eq!(g.players.len(), 2);
}

#[test]
fn filtered_message_spawns_nothing() {
    let mut g = connected_game();
    let m = UserJoined(Message { sender: "bob".to_string(), text: "gg".to_string() });
    assert!(g.read_user_event(&m).is_empty());
    assert_eq!(g.players.len(), 0);
}

#[test]
fn single_agent_is_not_a_win_until_elimination_leaves_none() {
    let mut g = connected_game();
    g.read_user_event(&joined("Alice"));
    assert_eq!(g.players.len(), 1);
    assert_eq!(g.end(), None);
    assert_eq!(g.state, GameState::Connected);
    g.press(ButtonAction::Start);
    assert_eq!(g.kill_players(&vec![toppled("Alice")]), vec![0]);
    assert_eq!(g.players.len(), 0);
    assert_eq!(g.end(), None);
    assert_eq!(g.state, GameState::Spectating);
}

#[test]
fn last_one_standing_wins() {
    let mut g = connected_game();
    for name in ["A", "B", "C"] {
        assert_eq!(g.read_user_event(&joined(name)).len(), 1);
    }
    g.press(ButtonAction::Start);
    assert_eq!(g.end(), None);
    let agents = vec![toppled("A"), toppled("B"), standing("C", 0, 0)];
    assert_eq!(g.kill_players(&agents), vec![0, 1]);
    assert_eq!(g.players.names(), vec!["C".to_string()]);
    assert_eq!(g.end(), Some("C".to_string()));
    assert_eq!(g.state, GameState::End);
    assert!(g.kill_players(&agents).is_empty());
}

#[test]
fn no_elimination_before_the_fight() {
    let mut g = connected_game();
    g.read_user_event(&joined("A"));
    assert!(g.kill_players(&vec![toppled("A")]).is_empty());
    assert_eq!(g.players.len(), 1);
}

#[test]
fn control_steers_each_agent() {
    // Three in a row along x, all facing -z (right is +x): the leftmost sees
    // the crowd on its right and turns left, the rightmost turns right, the
    // middle one is balanced.
    let agents = vec![standing("l", -10000, 0), standing("m", 0, 0), standing("r", 10000, 0)];
    assert_eq!(control_players(&agents), vec![TURN_STEP, 0, -TURN_STEP]);
}

#[test]
fn shooting_only_on_a_fresh_press_during_the_fight() {
    let mut g = connected_game();
    let eye = p(0, 10000, -300000);
    let ahead = p(0, 0, 1000);
    assert!(g.shoot(true, eye, ahead).is_none());
    g.press(ButtonAction::Start);
    assert!(g.shoot(false, eye, ahead).is_none());
    let shot = g.shoot(true, eye, ahead).unwrap();
    assert_eq!(shot.position, p(0, 10000, -299500));
}

#[test]
fn repeated_elimination_changes_nothing() {
    let mut g = connected_game();
    g.read_user_event(&joined("A"));
    g.read_user_event(&joined("B"));
    g.press(ButtonAction::Start);
    let agents = vec![toppled("A"), standing("B", 0, 0)];
    assert_eq!(g.kill_players(&agents), vec![0]);
    for _ in 0..3 {
        assert!(g.kill_players(&agents).is_empty());
    }
    assert_eq!(g.players.names(), vec!["B".to_string()]);
    assert_eq!(g.channel_name.0, "somechannel");
}

#[test]
fn agents_per_participant_follow_the_menu() {
    let mut g = Game::new();
    g.press(ButtonAction::ChangeGPP(false));
    assert_eq!(g.settings.goats_per_player, 1);
    for _ in 0..10 {
        g.press(ButtonAction::ChangeGPP(true));
    }
    assert_eq!(g.settings.goats_per_player, 20);
    g.press(ButtonAction::ChangeGPP(false));
    g.press(ButtonAction::ChangeGPP(false));
    assert_eq!(g.settings.goats_per_player, 9);
}

#[test]
fn several_agents_join_in_index_order() {
    let mut g = connected_game();
    g.settings.goats_per_player = 12;
    g.players.insert("bob 3".to_string());
    let names: Vec<String> = g.read_user_event(&joined("bob")).into_iter().map(|s| s.name).collect();
    let expected: Vec<String> =
        (0..12).filter(|i| *i != 3).map(|i| format!("bob {i}")).collect();
    assert_eq!(names, expected);
    assert_eq!(g.players.len(), 12);
}
