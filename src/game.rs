use vstd::prelude::*;
use crate::elimination::{Player, doomed_names};
use crate::registry::Players;
use crate::spawn::{Settings, Spawn, UserJoined, admits, candidates, debug_name, missing_names, next_count,
    place, well_placed, DEBUG_FIRST_INDEX, DEBUG_INDEX_END};
use crate::steering::{decide_angle, right_score, turn_for};
use crate::geometry::Point;
use crate::weapon::{Projectile, fire, fired, unit_direction};

verus! {

/// The phases of a match.
#[derive(Clone, Copy, Debug, PartialEq, Eq, Structural)]
pub enum GameState {
    /// Choosing the channel and the settings.
    Start,
    /// Listening to the chat; participants join.
    Connected,
    /// The agents fight it out.
    Spectating,
    /// One agent is left.
    End,
}

/// What a press of a menu button asks for.
#[derive(Clone, Copy, Debug, PartialEq, Eq, Structural)]
pub enum ButtonAction {
    Connect,
    Start,
    ToggleFilter,
    /// More (`true`) or fewer agents per participant.
    ChangeGPP(bool),
}

/// The chat channel to listen to.
pub struct ChannelName(pub String);

/// A request to listen to the named channel.
pub struct ConnectEvent(pub String);

/// The state of one match: its phase, its settings and the living agents.
pub struct Game {
    pub state: GameState,
    pub settings: Settings,
    pub players: Players,
    pub channel_name: ChannelName,
}

/// The channel of the first of a tick's connect requests; later ones in the
/// same tick are dropped.
pub fn connect(events: &Vec<ConnectEvent>) -> (r: Option<String>)
    ensures
        events@.len() == 0 ==> r.is_none(),
        events@.len() > 0 ==> (r matches Some(c) && c@ == events@[0].0@),
{
    if events.len() == 0 {
        None
    } else {
        Some(events[0].0.clone())
    }
}

/// The yaw correction of each agent for one tick, in the order of `agents`,
/// each steering among the positions of all of them.
pub fn control_players(agents: &Vec<Player>) -> (r: Vec<i32>)
    ensures
        r@.len() == agents@.len(),
        forall|i: int|
            0 <= i < agents@.len() ==> r@[i] == turn_for(
                right_score(
                    #[trigger] agents@[i].position,
                    agents@[i].right,
                    agents@.map_values(|p: Player| p.position),
                ),
            ),
{
    let mut positions: Vec<Point> = Vec::new();
    let mut i: usize = 0;
    while i < agents.len()
        invariant
            i <= agents@.len(),
            positions@ == agents@.subrange(0, i as int).map_values(|p: Player| p.position),
        decreases agents@.len() - i,
    {
        positions.push(agents[i].position);
        i = i + 1;
        assert(positions@ =~= agents@.subrange(0, i as int).map_values(|p: Player| p.position));
    }
    assert(agents@.subrange(0, i as int) == agents@);
    let mut r: Vec<i32> = Vec::new();
    let mut j: usize = 0;
    while j < agents.len()
        invariant
            j <= agents@.len(),
            positions@ == agents@.map_values(|p: Player| p.position),
            r@.len() == j,
            forall|k: int|
                0 <= k < j ==> r@[k] == turn_for(
                    right_score(
                        #[trigger] agents@[k].position,
                        agents@[k].right,
                        agents@.map_values(|p: Player| p.position),
                    ),
                ),
        decreases agents@.len() - j,
    {
        r.push(decide_angle(agents[j].position, agents[j].right, &positions));
        j = j + 1;
    }
    r
}

impl Game {
    pub open spec fn wf(&self) -> bool {
        self.players.wf()
    }

    /// A match waiting in the menu, with no agents, the default settings and
    /// no channel chosen.
    pub fn new() -> (r: Game)
        ensures
            r.wf(),
            r.state == GameState::Start,
            r.players@ == Set::<Seq<char>>::empty(),
            r.settings.filter_joins,
            r.settings.goats_per_player == 1,
            r.channel_name.0@ == Seq::<char>::empty(),
    {
        Game {
            state: GameState::Start,
            settings: Settings { filter_joins: true, goats_per_player: 1 },
            players: Players::new(),
            channel_name: ChannelName(String::new()),
        }
    }

    /// Acts on a menu button. Connecting (from the start menu) moves to
    /// `Connected` and asks to listen to the channel; starting (once connected)
    /// moves to `Spectating`; the settings change only before the fight. Any
    /// other press does nothing.
    pub fn press(&mut self, action: ButtonAction) -> (r: Option<ConnectEvent>)
        requires
            old(self).wf(),
        ensures
            final(self).wf(),
            final(self).players == old(self).players,
            final(self).channel_name == old(self).channel_name,
            r matches Some(e) ==> e.0@ == old(self).channel_name.0@,
            r.is_some() <==> (action == ButtonAction::Connect && old(self).state == GameState::Start),
            (action == ButtonAction::Connect && old(self).state == GameState::Start) ==> final(self).state
                == GameState::Connected && final(self).settings == old(self).settings,
            (action == ButtonAction::Start && old(self).state == GameState::Connected) ==> final(self).state
                == GameState::Spectating && final(self).settings == old(self).settings,
            (action == ButtonAction::ToggleFilter && (old(self).state == GameState::Start || old(self).state
                == GameState::Connected)) ==> final(self).state == old(self).state
                && final(self).settings.filter_joins == !old(self).settings.filter_joins
                && final(self).settings.goats_per_player == old(self).settings.goats_per_player,
            forall|up: bool|
                (action == ButtonAction::ChangeGPP(up) && (old(self).state == GameState::Start
                    || old(self).state == GameState::Connected)) ==> final(self).state == old(self).state
                    && final(self).settings.filter_joins == old(self).settings.filter_joins
                    && final(self).settings.goats_per_player == next_count(
                    old(self).settings.goats_per_player as nat,
                    up,
                ),
            !(action == ButtonAction::Connect && old(self).state == GameState::Start) && !(action
                == ButtonAction::Start && old(self).state == GameState::Connected) && !((action
                == ButtonAction::ToggleFilter || action is ChangeGPP) && (old(self).state == GameState::Start
                || old(self).state == GameState::Connected)) ==> final(self).state == old(self).state
                && final(self).settings == old(self).settings,
    {
        let configuring = self.state == GameState::Start || self.state == GameState::Connected;
        match action {
            ButtonAction::Connect => {
                if self.state == GameState::Start {
                    self.state = GameState::Connected;
                    return Some(ConnectEvent(self.channel_name.0.clone()));
                }
            },
            ButtonAction::Start => {
                if self.state == GameState::Connected {
                    self.state = GameState::Spectating;
                }
            },
            ButtonAction::ToggleFilter => {
                if configuring {
                    self.settings.toggle_filter();
                }
            },
            ButtonAction::ChangeGPP(up) => {
                if configuring {
                    self.settings.change_goats_per_player(up);
                }
            },
        }
        None
    }

    /// While connected, lets the sender of a chat message join: each agent
    /// that `Players::join` registers is placed at random in the arena.
    /// Outside that phase nothing happens.
    pub fn read_user_event(&mut self, event: &UserJoined) -> (r: Vec<Spawn>)
        requires
            old(self).wf(),
        ensures
            final(self).wf(),
            final(self).state == old(self).state,
            final(self).settings == old(self).settings,
            final(self).channel_name == old(self).channel_name,
            old(self).state != GameState::Connected ==> final(self).players@ == old(self).players@
                && r@.len() == 0,
            old(self).state == GameState::Connected && admits(old(self).settings, event.0.text@)
                ==> r@.map_values(|s: Spawn| s.name@) == missing_names(
                old(self).players@,
                event.0.sender@,
                old(self).settings.goats_per_player as nat,
                old(self).settings.goats_per_player as nat,
            ),
            old(self).state == GameState::Connected && !admits(old(self).settings, event.0.text@)
                ==> final(self).players@ == old(self).players@ && r@.len() == 0,
            old(self).state == GameState::Connected && admits(old(self).settings, event.0.text@)
                ==> final(self).players@ == old(self).players@.union(
                candidates(event.0.sender@, old(self).settings.goats_per_player as nat),
            ),
            r@.len() <= old(self).settings.goats_per_player,
            forall|k: int| 0 <= k < r@.len() ==> well_placed(#[trigger] r@[k]),
            forall|a: int, b: int| 0 <= a < b < r@.len() ==> #[trigger] r@[a].name@ != #[trigger] r@[b].name@,
            forall|k: int|
                0 <= k < r@.len() ==> candidates(event.0.sender@, old(self).settings.goats_per_player as nat).contains(
                    #[trigger] r@[k].name@,
                ) && !old(self).players@.contains(r@[k].name@),
            forall|n: Seq<char>|
                old(self).state == GameState::Connected && admits(old(self).settings, event.0.text@)
                    && #[trigger] candidates(event.0.sender@, old(self).settings.goats_per_player as nat).contains(n)
                    && !old(self).players@.contains(n) ==> exists|k: int| 0 <= k < r@.len() && r@[k].name@ == n,
    {
        let mut r: Vec<Spawn> = Vec::new();
        if self.state != GameState::Connected {
            return r;
        }
        let names = self.players.join(&self.settings, &event.0);
        let mut i: usize = 0;
        while i < names.len()
            invariant
                i <= names@.len(),
                r@.len() == i,
                forall|k: int| 0 <= k < i ==> well_placed(#[trigger] r@[k]) && r@[k].name@ == names@[k]@,
            decreases names@.len() - i,
        {
            r.push(place(names[i].clone()));
            i = i + 1;
        }
        assert(r@.map_values(|s: Spawn| s.name@) =~= names@.map_values(|s: String| s@));
        assert forall|a: int, b: int| 0 <= a < b < r@.len() implies #[trigger] r@[a].name@ != #[trigger] r@[b].name@ by {
            assert(names@[a]@ != names@[b]@);
        }
        assert forall|n: Seq<char>|
            admits(old(self).settings, event.0.text@)
                && #[trigger] candidates(event.0.sender@, old(self).settings.goats_per_player as nat).contains(n)
                && !old(self).players@.contains(n) implies exists|k: int| 0 <= k < r@.len() && r@[k].name@ == n by {
            let k = choose|k: int| 0 <= k < names@.len() && names@[k]@ == n;
            assert(r@[k].name@ == n);
        }
        r
    }

    /// While connected, brings in one synthetic agent under the first free name
    /// `mrrow <i>` (see `Players::debug_join`), placed at random.
    pub fn debug_spawn(&mut self) -> (r: Option<Spawn>)
        requires
            old(self).wf(),
        ensures
            final(self).wf(),
            final(self).state == old(self).state,
            final(self).settings == old(self).settings,
            final(self).channel_name == old(self).channel_name,
            old(self).state != GameState::Connected ==> r.is_none() && final(self).players@ == old(self).players@,
            r matches Some(s) ==> well_placed(s) && !old(self).players@.contains(s.name@)
                && final(self).players@ == old(self).players@.insert(s.name@) && exists|i: nat|
                DEBUG_FIRST_INDEX <= i < DEBUG_INDEX_END && s.name@ == debug_name(i) && forall|j: nat|
                DEBUG_FIRST_INDEX <= j < i ==> old(self).players@.contains(#[trigger] debug_name(j)),
            r.is_none() ==> final(self).players@ == old(self).players@,
            old(self).state == GameState::Connected && r.is_none() ==> forall|j: nat|
                DEBUG_FIRST_INDEX <= j < DEBUG_INDEX_END ==> old(self).players@.contains(#[trigger] debug_name(j)),
    {
        if self.state != GameState::Connected {
            return None;
        }
        match self.players.debug_join() {
            Some(name) => Some(place(name)),
            None => None,
        }
    }

    /// During the fight, eliminates the agents among `agents` that toppled
    /// over or left the arena (see `Players::eliminate`) and returns their
    /// indices. Outside the fight nothing happens.
    pub fn kill_players(&mut self, agents: &Vec<Player>) -> (r: Vec<usize>)
        requires
            old(self).wf(),
        ensures
            final(self).wf(),
            final(self).state == old(self).state,
            final(self).settings == old(self).settings,
            final(self).channel_name == old(self).channel_name,
            old(self).state != GameState::Spectating ==> final(self).players@ == old(self).players@ && r@.len() == 0,
            old(self).players@.intersect(doomed_names(agents@)).is_empty() ==> final(self).players@
                == old(self).players@ && r@.len() == 0,
            old(self).state == GameState::Spectating ==> final(self).players@ == old(self).players@.difference(
                doomed_names(agents@),
            ),
            forall|k: int|
                0 <= k < r@.len() ==> #[trigger] r@[k] < agents@.len() && old(self).players@.contains(
                    agents@[r@[k] as int].name@,
                ) && doomed_names(agents@).contains(agents@[r@[k] as int].name@),
            forall|a: int, b: int|
                0 <= a < b < r@.len() ==> #[trigger] r@[a] < #[trigger] r@[b] && agents@[r@[a] as int].name@
                    != agents@[r@[b] as int].name@,
            forall|n: Seq<char>|
                old(self).state == GameState::Spectating && old(self).players@.contains(n)
                    && #[trigger] doomed_names(agents@).contains(n) ==> exists|k: int|
                    0 <= k < r@.len() && agents@[r@[k] as int].name@ == n,
    {
        if self.state != GameState::Spectating {
            return Vec::new();
        }
        let r = self.players.eliminate(agents);
        assert forall|k: int| 0 <= k < r@.len() implies #[trigger] r@[k] < agents@.len() && old(self).players@.contains(
            agents@[r@[k] as int].name@,
        ) && doomed_names(agents@).contains(agents@[r@[k] as int].name@) by {
            let j = r@[k] as int;
            assert(0 <= j < agents@.len());
        }
        r
    }

    /// Fires one projectile from the viewpoint `eye` looking along `forward`
    /// when the trigger has just been pressed (not while it is held) during the
    /// fight.
    pub fn shoot(&self, just_pressed: bool, eye: Point, forward: Point) -> (r: Option<Projectile>)
        requires
            unit_direction(forward),
            i32::MIN + 500 <= eye.x <= i32::MAX - 500,
            i32::MIN + 500 <= eye.y <= i32::MAX - 500,
            i32::MIN + 500 <= eye.z <= i32::MAX - 500,
        ensures
            r.is_some() <==> just_pressed && self.state == GameState::Spectating,
            r matches Some(p) ==> p == fired(eye, forward),
    {
        if just_pressed && self.state == GameState::Spectating {
            Some(fire(eye, forward))
        } else {
            None
        }
    }

    /// Ends the fight once exactly one agent is alive, and names it. Nothing
    /// happens in any other phase, nor with no agent or several alive.
    pub fn end(&mut self) -> (r: Option<String>)
        requires
            old(self).wf(),
        ensures
            final(self).wf(),
            final(self).players == old(self).players,
            final(self).settings == old(self).settings,
            final(self).channel_name == old(self).channel_name,
            r.is_some() <==> old(self).state == GameState::Spectating && old(self).players@.len() == 1,
            r.is_some() ==> final(self).state == GameState::End,
            r.is_none() ==> final(self).state == old(self).state,
            r matches Some(w) ==> old(self).players@ == set![w@],
    {
        if self.state != GameState::Spectating {
            return None;
        }
        let w = self.players.winner();
        if w.is_some() {
            self.state = GameState::End;
        }
        w
    }
}

} // verus!
