use vstd::prelude::*;
use crate::geometry::Point;
use crate::registry::Players;
use vstd::string::StringExecFns;

verus! {

/// Half the side of the arena's cube, centred on the origin, in thousandths of
/// a unit.
pub const ARENA_HALF_EXTENT: i32 = 300000;

/// Height at which agents are dropped in, in thousandths of a unit.
pub const SPAWN_HEIGHT: i32 = 3000;

/// A full turn, in thousandths of a radian (rounded down).
pub const FULL_TURN: i32 = 6283;

/// Bounds of an agent's top speed, in thousandths of a unit per second.
pub const MIN_TOP_SPEED: i32 = 40000;
pub const MAX_TOP_SPEED: i32 = 60000;

/// The first index tried for a synthetic agent's name.
pub const DEBUG_FIRST_INDEX: u32 = 2;

/// One past the last index tried for a synthetic agent's name.
pub const DEBUG_INDEX_END: u32 = 999999;

/// A chat message: who sent it and what it says.
pub struct Message {
    pub sender: String,
    pub text: String,
}

/// A chat message that may let its sender join.
pub struct UserJoined(pub Message);

/// Match settings chosen before the match starts.
pub struct Settings {
    /// Only messages that are exactly the join command spawn agents.
    pub filter_joins: bool,
    /// Agents spawned for each participant.
    pub goats_per_player: u32,
}

/// An agent to bring into the arena.
pub struct Spawn {
    pub name: String,
    /// Where it is dropped in.
    pub position: Point,
    /// Its heading, in thousandths of a radian.
    pub heading: i32,
    /// Its top speed, in thousandths of a unit per second.
    pub max_speed: i32,
}

/// The digit `d` as a character.
pub open spec fn digit_char(d: nat) -> char {
    if d == 0 { '0' }
    else if d == 1 { '1' }
    else if d == 2 { '2' }
    else if d == 3 { '3' }
    else if d == 4 { '4' }
    else if d == 5 { '5' }
    else if d == 6 { '6' }
    else if d == 7 { '7' }
    else if d == 8 { '8' }
    else { '9' }
}

/// `n` written in decimal.
pub open spec fn decimal_of(n: nat) -> Seq<char>
    decreases n,
{
    if n < 10 {
        seq![digit_char(n)]
    } else {
        decimal_of(n / 10).push(digit_char(n % 10))
    }
}

/// The chat command that lets a participant join when joins are filtered.
pub open spec fn join_command() -> Seq<char> {
    seq!['!', 'p', 'l', 'a', 'y']
}

/// Whether a message with `text` may spawn agents under `settings`.
pub open spec fn admits(settings: Settings, text: Seq<char>) -> bool {
    !settings.filter_joins || text == join_command()
}

/// The name of a participant's agent number `i` when each has `per` agents:
/// the sender's name alone for one agent, else the name, a space and `i`.
pub open spec fn agent_name(sender: Seq<char>, i: nat, per: nat) -> Seq<char> {
    if per == 1 {
        sender
    } else {
        sender + seq![' '] + decimal_of(i)
    }
}

/// The names that a participant's message asks for.
pub open spec fn candidates(sender: Seq<char>, per: nat) -> Set<Seq<char>> {
    Set::new(|n: Seq<char>| exists|i: nat| i < per && n == agent_name(sender, i, per))
}

/// The names of the participant's agents `0..k` (of `per`) that are not in
/// `alive`, in increasing index order.
pub open spec fn missing_names(alive: Set<Seq<char>>, sender: Seq<char>, per: nat, k: nat) -> Seq<Seq<char>>
    decreases k,
{
    if k == 0 {
        Seq::empty()
    } else {
        let before = missing_names(alive, sender, per, (k - 1) as nat);
        let n = agent_name(sender, (k - 1) as nat, per);
        if alive.contains(n) {
            before
        } else {
            before.push(n)
        }
    }
}

proof fn lemma_decimal_len(n: nat)
    ensures
        decimal_of(n).len() >= 1,
        n >= 10 ==> decimal_of(n).len() >= 2,
    decreases n,
{
    if n >= 10 {
        lemma_decimal_len(n / 10);
    }
}

/// Different numbers are written differently.
pub proof fn lemma_decimal_injective(n: nat, m: nat)
    requires
        decimal_of(n) == decimal_of(m),
    ensures
        n == m,
    decreases n,
{
    lemma_decimal_len(n);
    lemma_decimal_len(m);
    if n >= 10 && m >= 10 {
        let dn = decimal_of(n);
        assert(dn.drop_last() == decimal_of(n / 10));
        assert(decimal_of(m).drop_last() == decimal_of(m / 10));
        assert(dn.last() == digit_char(n % 10));
        assert(decimal_of(m).last() == digit_char(m % 10));
        lemma_decimal_injective(n / 10, m / 10);
        assert(n % 10 == m % 10);
    } else if n < 10 && m < 10 {
        assert(decimal_of(n)[0] == digit_char(n));
        assert(decimal_of(m)[0] == digit_char(m));
    }
}

/// A participant's agents with several per participant all have different
/// names.
pub proof fn lemma_agent_names_distinct(sender: Seq<char>, i: nat, j: nat, per: nat)
    requires
        per != 1,
        i != j,
    ensures
        agent_name(sender, i, per) != agent_name(sender, j, per),
{
    if agent_name(sender, i, per) == agent_name(sender, j, per) {
        let a = agent_name(sender, i, per);
        let b = agent_name(sender, j, per);
        let start = sender.len() + 1;
        assert(a.subrange(start as int, a.len() as int) =~= decimal_of(i));
        assert(b.subrange(start as int, b.len() as int) =~= decimal_of(j));
        lemma_decimal_injective(i, j);
    }
}

/// The name of synthetic agent number `i`.
pub open spec fn debug_name(i: nat) -> Seq<char> {
    seq!['m', 'r', 'r', 'o', 'w', ' '] + decimal_of(i)
}

fn digit_str(d: u32) -> (r: &'static str)
    requires
        d < 10,
    ensures
        r@ == seq![digit_char(d as nat)],
{
    proof {
        reveal_strlit("0");
        reveal_strlit("1");
        reveal_strlit("2");
        reveal_strlit("3");
        reveal_strlit("4");
        reveal_strlit("5");
        reveal_strlit("6");
        reveal_strlit("7");
        reveal_strlit("8");
        reveal_strlit("9");
    }
    if d == 0 { "0" }
    else if d == 1 { "1" }
    else if d == 2 { "2" }
    else if d == 3 { "3" }
    else if d == 4 { "4" }
    else if d == 5 { "5" }
    else if d == 6 { "6" }
    else if d == 7 { "7" }
    else if d == 8 { "8" }
    else { "9" }
}

/// `n` written in decimal.
pub fn decimal(n: u32) -> (r: String)
    ensures
        r@ == decimal_of(n as nat),
    decreases n,
{
    if n < 10 {
        String::from_str(digit_str(n))
    } else {
        let head = decimal(n / 10);
        head.concat(digit_str(n % 10))
    }
}

/// The name of a participant's agent number `i` when each has `per` agents.
pub fn name_for(sender: &String, i: u32, per: u32) -> (r: String)
    ensures
        r@ == agent_name(sender@, i as nat, per as nat),
{
    if per == 1 {
        sender.clone()
    } else {
        proof {
            reveal_strlit(" ");
        }
        let spaced = sender.clone().concat(" ");
        let num = decimal(i);
        spaced.concat(num.as_str())
    }
}

/// A value drawn uniformly from `lo..hi`.
///
/// Relies on `rand::random_range` (thread-local generator): for integers it
/// returns a value of the half-open range and panics only when the range is
/// empty.
#[verifier::external_body]
fn random_between(lo: i32, hi: i32) -> (r: i32)
    requires
        lo < hi,
    ensures
        lo <= r < hi,
{
    rand::random_range(lo..hi)
}

/// Whether a spawn is dropped in as the rules ask: above the arena floor at the
/// spawn height, facing some direction of a full turn, with a top speed in the
/// allowed range.
pub open spec fn well_placed(s: Spawn) -> bool {
    &&& -ARENA_HALF_EXTENT <= s.position.x < ARENA_HALF_EXTENT
    &&& s.position.y == SPAWN_HEIGHT
    &&& -ARENA_HALF_EXTENT <= s.position.z < ARENA_HALF_EXTENT
    &&& 0 <= s.heading < FULL_TURN
    &&& MIN_TOP_SPEED <= s.max_speed < MAX_TOP_SPEED
}

/// The spawn of agent `name` at `(x, SPAWN_HEIGHT, z)` with the given heading
/// and top speed.
pub fn place_at(name: String, x: i32, z: i32, heading: i32, max_speed: i32) -> (r: Spawn)
    ensures
        r.name@ == name@,
        r.position == (Point { x, y: SPAWN_HEIGHT, z }),
        r.heading == heading,
        r.max_speed == max_speed,
{
    Spawn { name, position: Point { x, y: SPAWN_HEIGHT, z }, heading, max_speed }
}

/// Places the agent `name` at random in the arena: `x`, `z`, heading and top
/// speed are drawn in that order, each uniformly from its range.
pub fn place(name: String) -> (r: Spawn)
    ensures
        r.name@ == name@,
        well_placed(r),
{
    let x = random_between(-ARENA_HALF_EXTENT, ARENA_HALF_EXTENT);
    let z = random_between(-ARENA_HALF_EXTENT, ARENA_HALF_EXTENT);
    let heading = random_between(0, FULL_TURN);
    let max_speed = random_between(MIN_TOP_SPEED, MAX_TOP_SPEED);
    place_at(name, x, z, heading, max_speed)
}

/// Whether `text` is the join command.
pub fn is_join_command(text: &String) -> (r: bool)
    ensures
        r == (text@ == join_command()),
{
    proof {
        reveal_strlit("!play");
    }
    let command = String::from_str("!play");
    assert(command@ =~= join_command());
    *text == command
}

impl Default for Settings {
    /// Joins filtered, one agent per participant.
    fn default() -> (r: Settings)
        ensures
            r.filter_joins,
            r.goats_per_player == 1,
    {
        Settings { filter_joins: true, goats_per_player: 1 }
    }
}

/// The agents per participant after one press: raising goes up by one below
/// ten and by ten from ten on (9, 10, 20); lowering comes down by one up to ten
/// and by ten above it (20, 10, 9). Lowering never goes below one, and raising
/// stops short of overflowing.
pub open spec fn next_count(n: nat, up: bool) -> nat {
    if up {
        let step: nat = if n < 10 { 1 } else { 10 };
        if n + step <= u32::MAX { n + step } else { n }
    } else if n <= 1 {
        n
    } else {
        let step: nat = if n <= 10 { 1 } else { 10 };
        (n - step) as nat
    }
}

impl Settings {
    /// Raises (`up`) or lowers the agents per participant by one step of
    /// `next_count`.
    pub fn change_goats_per_player(&mut self, up: bool)
        ensures
            final(self).filter_joins == old(self).filter_joins,
            final(self).goats_per_player == next_count(old(self).goats_per_player as nat, up),
            old(self).goats_per_player >= 1 ==> final(self).goats_per_player >= 1,
    {
        let n = self.goats_per_player;
        if up {
            let step: u32 = if n < 10 { 1 } else { 10 };
            if n <= u32::MAX - step {
                self.goats_per_player = n + step;
            }
        } else if n > 1 {
            let step: u32 = if n <= 10 { 1 } else { 10 };
            self.goats_per_player = n - step;
        }
    }

    /// Switches join filtering on or off.
    pub fn toggle_filter(&mut self)
        ensures
            final(self).filter_joins == !old(self).filter_joins,
            final(self).goats_per_player == old(self).goats_per_player,
    {
        self.filter_joins = !self.filter_joins;
    }
}

impl Players {
    /// Registers a synthetic agent under the first name `mrrow <i>`, for `i`
    /// from two on, that is not alive. `None`, and nothing registered, when
    /// every such name below the last index is taken.
    pub fn debug_join(&mut self) -> (r: Option<String>)
        requires
            old(self).wf(),
        ensures
            final(self).wf(),
            match r {
                Some(n) => exists|i: nat|
                    DEBUG_FIRST_INDEX <= i < DEBUG_INDEX_END && n@ == debug_name(i) && !old(
                        self,
                    )@.contains(n@) && (forall|j: nat|
                        DEBUG_FIRST_INDEX <= j < i ==> old(self)@.contains(#[trigger] debug_name(j)))
                        && final(self)@ == old(self)@.insert(n@),
                None => final(self)@ == old(self)@ && forall|j: nat|
                    DEBUG_FIRST_INDEX <= j < DEBUG_INDEX_END ==> old(self)@.contains(
                        #[trigger] debug_name(j),
                    ),
            },
    {
        let mut i: u32 = DEBUG_FIRST_INDEX;
        while i < DEBUG_INDEX_END
            invariant
                DEBUG_FIRST_INDEX <= i <= DEBUG_INDEX_END,
                self == old(self),
                self.wf(),
                forall|j: nat| DEBUG_FIRST_INDEX <= j < i ==> self@.contains(#[trigger] debug_name(j)),
            decreases DEBUG_INDEX_END - i,
        {
            proof {
                reveal_strlit("mrrow ");
            }
            let prefix = String::from_str("mrrow ");
            assert(prefix@ =~= seq!['m', 'r', 'r', 'o', 'w', ' ']);
            let digits = decimal(i);
            let name = prefix.concat(digits.as_str());
            assert(name@ =~= debug_name(i as nat));
            if !self.contains(&name) {
                self.insert(name.clone());
                return Some(name);
            }
            i = i + 1;
        }
        None
    }

    /// Registers the agents that the message `msg` asks for under `settings`
    /// and returns the names that were new, in index order. A name already
    /// alive is skipped, the others still join.
    #[verifier::rlimit(40)]
    pub fn join(&mut self, settings: &Settings, msg: &Message) -> (r: Vec<String>)
        requires
            old(self).wf(),
        ensures
            final(self).wf(),
            !admits(*settings, msg.text@) ==> final(self)@ == old(self)@ && r@.len() == 0,
            admits(*settings, msg.text@) ==> r@.map_values(|s: String| s@) == missing_names(
                old(self)@,
                msg.sender@,
                settings.goats_per_player as nat,
                settings.goats_per_player as nat,
            ),
            admits(*settings, msg.text@) ==> final(self)@ == old(self)@.union(
                candidates(msg.sender@, settings.goats_per_player as nat),
            ),
            r@.len() <= settings.goats_per_player,
            forall|a: int, b: int| 0 <= a < b < r@.len() ==> #[trigger] r@[a]@ != #[trigger] r@[b]@,
            forall|k: int|
                0 <= k < r@.len() ==> candidates(msg.sender@, settings.goats_per_player as nat).contains(
                    #[trigger] r@[k]@,
                ) && !old(self)@.contains(r@[k]@),
            forall|n: Seq<char>|
                admits(*settings, msg.text@) && #[trigger] candidates(
                    msg.sender@,
                    settings.goats_per_player as nat,
                ).contains(n) && !old(self)@.contains(n) ==> exists|k: int|
                    0 <= k < r@.len() && r@[k]@ == n,
    {
        let mut r: Vec<String> = Vec::new();
        let per = settings.goats_per_player;
        let ghost sender = msg.sender@;
        if settings.filter_joins && !is_join_command(&msg.text) {
            return r;
        }
        let mut i: u32 = 0;
        while i < per
            invariant
                old(self).wf(),
                self.wf(),
                i <= per,
                per == settings.goats_per_player,
                sender == msg.sender@,
                admits(*settings, msg.text@),
                self@ == old(self)@.union(
                    Set::new(|n: Seq<char>| exists|j: nat| j < i && n == agent_name(sender, j, per as nat)),
                ),
                r@.len() <= i,
                r@.map_values(|s: String| s@) == missing_names(old(self)@, sender, per as nat, i as nat),
                forall|a: int, b: int| 0 <= a < b < r@.len() ==> #[trigger] r@[a]@ != #[trigger] r@[b]@,
                forall|k: int|
                    0 <= k < r@.len() ==> self@.contains(#[trigger] r@[k]@) && !old(self)@.contains(r@[k]@)
                        && exists|j: nat| j < i && r@[k]@ == agent_name(sender, j, per as nat),
                forall|j: nat|
                    j < i && !old(self)@.contains(#[trigger] agent_name(sender, j, per as nat))
                        ==> exists|k: int| 0 <= k < r@.len() && r@[k]@ == agent_name(sender, j, per as nat),
            decreases per - i,
        {
            let name = name_for(&msg.sender, i, per);
            let ghost nm = name@;
            let ghost before = self@;
            let ghost r_before = r@;
            proof {
                assert(!self@.contains(nm) <==> !old(self)@.contains(nm)) by {
                    if self@.contains(nm) && !old(self)@.contains(nm) {
                        let j0 = choose|j: nat| j < i && nm == agent_name(sender, j, per as nat);
                        if per != 1 {
                            lemma_agent_names_distinct(sender, j0, i as nat, per as nat);
                        }
                    }
                }
            }
            let fresh = self.insert(name.clone());
            proof {
                assert(missing_names(old(self)@, sender, per as nat, (i + 1) as nat) == if old(self)@.contains(nm) {
                    missing_names(old(self)@, sender, per as nat, i as nat)
                } else {
                    missing_names(old(self)@, sender, per as nat, i as nat).push(nm)
                });
            }
            if fresh {
                r.push(name);
                proof {
                    assert(r@.map_values(|s: String| s@) =~= r_before.map_values(|s: String| s@).push(nm));
                    assert(r@[r@.len() - 1]@ == nm);
                    assert forall|a: int, b: int|
                        0 <= a < b < r@.len() implies #[trigger] r@[a]@ != #[trigger] r@[b]@ by {
                        if b == r@.len() - 1 {
                            assert(r@[a] == r_before[a]);
                            assert(before.contains(r_before[a]@));
                        } else {
                            assert(r@[a] == r_before[a]);
                            assert(r@[b] == r_before[b]);
                        }
                    }
                }
            }
            proof {
                assert forall|k: int|
                    0 <= k < r@.len() implies self@.contains(#[trigger] r@[k]@) && !old(self)@.contains(r@[k]@)
                        && exists|j: nat| j < i + 1 && r@[k]@ == agent_name(sender, j, per as nat) by {
                    if k < r_before.len() {
                        assert(r@[k] == r_before[k]);
                        let j0 = choose|j: nat| j < i && r_before[k]@ == agent_name(sender, j, per as nat);
                        assert(j0 < i + 1);
                    } else {
                        assert(r@[k]@ == nm);
                        assert(nm == agent_name(sender, i as nat, per as nat));
                    }
                }
                assert forall|j: nat|
                    j < i + 1 && !old(self)@.contains(#[trigger] agent_name(sender, j, per as nat))
                        implies exists|k: int| 0 <= k < r@.len() && r@[k]@ == agent_name(sender, j, per as nat) by {
                    if j < i {
                        let k0 = choose|k: int| 0 <= k < r_before.len() && r_before[k]@ == agent_name(sender, j, per as nat);
                        assert(r@[k0] == r_before[k0]);
                    } else {
                        assert(j == i);
                        if !fresh {
                            assert(before.contains(nm));
                            assert(!old(self)@.contains(nm));
                            let k0 = choose|k: int| 0 <= k < r_before.len() && r_before[k]@ == nm;
                            assert(r@[k0] == r_before[k0]);
                        } else {
                            assert(r@[r@.len() - 1]@ == nm);
                        }
                    }
                }
                assert(self@ == old(self)@.union(
                    Set::new(|n: Seq<char>| exists|j: nat| j < i + 1 && n == agent_name(sender, j, per as nat)),
                )) by {
                    assert forall|n: Seq<char>| #[trigger] self@.contains(n) <==> old(self)@.union(
                        Set::new(|n: Seq<char>| exists|j: nat| j < i + 1 && n == agent_name(sender, j, per as nat)),
                    ).contains(n) by {
                        if exists|j: nat| j < i + 1 && n == agent_name(sender, j, per as nat) {
                            let j0 = choose|j: nat| j < i + 1 && n == agent_name(sender, j, per as nat);
                            if j0 < i {
                                assert(before.contains(n) || old(self)@.contains(n));
                            }
                        }
                        if before.contains(n) && !old(self)@.contains(n) {
                            let j0 = choose|j: nat| j < i && n == agent_name(sender, j, per as nat);
                            assert(j0 < i + 1);
                        }
                    }
                }
            }
            i = i + 1;
        }
        assert(Set::new(|n: Seq<char>| exists|j: nat| j < i && n == agent_name(sender, j, per as nat))
            == candidates(sender, per as nat));
        r
    }
}

} // verus!
