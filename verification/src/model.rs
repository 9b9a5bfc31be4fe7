//! The game's state, its actions and the lucky-level table.
use vstd::prelude::*;

verus! {

/// Highest shield count the game lets a player hold.
pub const SHIELD_CAP: i32 = 4;

/// Highest boost count the game lets a player hold.
pub const BOOST_CAP: i32 = 2;

/// What the runner knows of one sprint: the meter reached, the resources left,
/// and which one-time rewards have already been granted.
#[derive(Debug, Clone, Copy, PartialEq, Eq, Hash, Structural)]
pub struct GameState {
    pub pos: i32,
    pub shield: i32,
    pub boost: i32,
    pub lucky: i32,
    pub got100: bool,
    pub got200: bool,
    pub got_lucky_refill: bool,
}

/// One of the four buttons a player can press on the main page.
#[derive(Debug, Clone, Copy, PartialEq, Eq, Hash, Structural)]
pub enum Action {
    Normal,
    Shield,
    Boost,
    Lucky,
}

/// The lucky resource of one lucky level: how many a round starts with, the cap,
/// and the meter at which one more is granted (0: never).
#[derive(Debug, Clone, Copy, PartialEq, Eq, Structural)]
pub struct LuckyLevelConfig {
    pub start: i32,
    pub max: i32,
    pub refill_meter: i32,
}

/// The lucky table of the game, LV0 to LV5; every other level reads as LV5.
pub open spec fn lucky_table(level: int) -> LuckyLevelConfig {
    if level == 0 {
        LuckyLevelConfig { start: 0, max: 0, refill_meter: 0 }
    } else if level == 1 {
        LuckyLevelConfig { start: 1, max: 1, refill_meter: 200 }
    } else if level == 2 {
        LuckyLevelConfig { start: 1, max: 1, refill_meter: 180 }
    } else if level == 3 {
        LuckyLevelConfig { start: 1, max: 2, refill_meter: 180 }
    } else if level == 4 {
        LuckyLevelConfig { start: 1, max: 2, refill_meter: 150 }
    } else {
        LuckyLevelConfig { start: 2, max: 2, refill_meter: 150 }
    }
}

/// Returns the lucky configuration of a lucky level.
pub fn lucky_config(level: i32) -> (c: LuckyLevelConfig)
    ensures
        c == lucky_table(level as int),
{
    match level {
        0 => LuckyLevelConfig { start: 0, max: 0, refill_meter: 0 },
        1 => LuckyLevelConfig { start: 1, max: 1, refill_meter: 200 },
        2 => LuckyLevelConfig { start: 1, max: 1, refill_meter: 180 },
        3 => LuckyLevelConfig { start: 1, max: 2, refill_meter: 180 },
        4 => LuckyLevelConfig { start: 1, max: 2, refill_meter: 150 },
        _ => LuckyLevelConfig { start: 2, max: 2, refill_meter: 150 },
    }
}

/// `x` limited to the range `lo ..= hi`.
pub open spec fn clamp_int(x: int, lo: int, hi: int) -> int {
    if x < lo {
        lo
    } else if x > hi {
        hi
    } else {
        x
    }
}

/// The smaller of two integers.
pub open spec fn min_int(a: int, b: int) -> int {
    if a <= b {
        a
    } else {
        b
    }
}

/// The larger of two integers.
pub open spec fn max_int(a: int, b: int) -> int {
    if a >= b {
        a
    } else {
        b
    }
}

fn clamp_i32(x: i32, lo: i32, hi: i32) -> (r: i32)
    requires
        lo <= hi,
    ensures
        r == clamp_int(x as int, lo as int, hi as int),
{
    if x < lo {
        lo
    } else if x > hi {
        hi
    } else {
        x
    }
}

/// The resources of a state lie within the game's caps for the given lucky level.
pub open spec fn resources_in_range(s: GameState, level: int) -> bool {
    &&& 0 <= s.shield <= SHIELD_CAP
    &&& 0 <= s.boost <= BOOST_CAP
    &&& 0 <= s.lucky <= lucky_table(level).max
}

/// The state a takeover in the middle of a round starts from: the entered counts,
/// each limited to what the game allows, and every milestone already passed
/// counted as granted.
pub open spec fn manual_state(pos: int, shield: int, boost: int, lucky: int, level: int) -> GameState {
    let cfg = lucky_table(level);
    GameState {
        pos: pos as i32,
        shield: clamp_int(shield, 0, SHIELD_CAP as int) as i32,
        boost: clamp_int(boost, 0, BOOST_CAP as int) as i32,
        lucky: clamp_int(lucky, 0, cfg.max as int) as i32,
        got100: pos >= 100,
        got200: pos >= 200,
        got_lucky_refill: cfg.refill_meter > 0 && pos >= cfg.refill_meter,
    }
}

impl GameState {
    /// Builds the state of a round taken over by hand.
    pub fn manual(pos: i32, shield: i32, boost: i32, lucky: i32, lucky_level: i32) -> (s: Self)
        ensures
            s == manual_state(pos as int, shield as int, boost as int, lucky as int, lucky_level as int),
            resources_in_range(s, lucky_level as int),
    {
        let cfg = lucky_config(lucky_level);
        let refill = cfg.refill_meter;
        GameState {
            pos,
            shield: clamp_i32(shield, 0, SHIELD_CAP),
            boost: clamp_i32(boost, 0, BOOST_CAP),
            lucky: clamp_i32(lucky, 0, cfg.max),
            got100: pos >= 100,
            got200: pos >= 200,
            got_lucky_refill: refill > 0 && pos >= refill,
        }
    }
}

/// The key an action goes by in the recognition regions and templates.
pub open spec fn action_key(a: Action) -> Seq<char> {
    match a {
        Action::Normal => "normal"@,
        Action::Shield => "shield"@,
        Action::Boost => "boost"@,
        Action::Lucky => "lucky"@,
    }
}

/// The name an action is shown under.
pub open spec fn action_display(a: Action) -> Seq<char> {
    match a {
        Action::Normal => "普通奔跑"@,
        Action::Shield => "防护"@,
        Action::Boost => "助跑"@,
        Action::Lucky => "超级幸运"@,
    }
}

/// The cost of an action, in presses: a lucky move weighs three, every other one.
pub open spec fn action_cost(a: Action) -> nat {
    match a {
        Action::Lucky => 3,
        _ => 1,
    }
}

impl Action {
    /// The action's key.
    pub fn key(self) -> (k: &'static str)
        ensures
            k@ == action_key(self),
    {
        match self {
            Action::Normal => "normal",
            Action::Shield => "shield",
            Action::Boost => "boost",
            Action::Lucky => "lucky",
        }
    }

    /// The action's display name.
    pub fn display(self) -> (d: &'static str)
        ensures
            d@ == action_display(self),
    {
        match self {
            Action::Normal => "普通奔跑",
            Action::Shield => "防护",
            Action::Boost => "助跑",
            Action::Lucky => "超级幸运",
        }
    }

    /// The action's cost, as a whole number of presses.
    pub fn cost(self) -> (c: u32)
        ensures
            c == action_cost(self),
    {
        match self {
            Action::Lucky => 3,
            _ => 1,
        }
    }
}

/// Every lucky level starts a round with no more lucky moves than its cap, the cap is
/// at most two, and a level outside 0 to 5 behaves as LV5.
pub proof fn lemma_lucky_table_shape(level: int)
    ensures
        0 <= lucky_table(level).start <= lucky_table(level).max <= 2,
        (level < 0 || level > 5) ==> lucky_table(level) == lucky_table(5),
        lucky_table(level).refill_meter == 0 <==> level == 0,
{
}


/// A takeover keeps every count entered that the game allows, whatever the lucky level
/// (up to four shields, two boosts, and the level's cap of lucky moves), and cuts any
/// other count to the nearest allowed one. The meter is kept as entered, and a
/// milestone counts as granted exactly when the meter has reached it.
pub proof fn lemma_manual_keeps_allowed_counts(pos: int, shield: int, boost: int, lucky: int, level: int)
    requires
        i32::MIN <= pos <= i32::MAX,
        i32::MIN <= shield <= i32::MAX,
        i32::MIN <= boost <= i32::MAX,
        i32::MIN <= lucky <= i32::MAX,
    ensures
        manual_state(pos, shield, boost, lucky, level).pos == pos,
        0 <= shield <= 4 ==> manual_state(pos, shield, boost, lucky, level).shield == shield,
        shield < 0 ==> manual_state(pos, shield, boost, lucky, level).shield == 0,
        shield > 4 ==> manual_state(pos, shield, boost, lucky, level).shield == 4,
        0 <= boost <= 2 ==> manual_state(pos, shield, boost, lucky, level).boost == boost,
        boost < 0 ==> manual_state(pos, shield, boost, lucky, level).boost == 0,
        boost > 2 ==> manual_state(pos, shield, boost, lucky, level).boost == 2,
        0 <= lucky <= lucky_table(level).max ==> manual_state(pos, shield, boost, lucky, level).lucky == lucky,
        lucky < 0 ==> manual_state(pos, shield, boost, lucky, level).lucky == 0,
        lucky > lucky_table(level).max ==> manual_state(pos, shield, boost, lucky, level).lucky == lucky_table(level).max,
        manual_state(pos, shield, boost, lucky, level).got100 <==> pos >= 100,
        manual_state(pos, shield, boost, lucky, level).got200 <==> pos >= 200,
{
}

} // verus!
