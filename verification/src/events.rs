//! What the runner reports to the user interface: log lines and its status.
use vstd::prelude::*;

use crate::config::StrategyMode;
use crate::model::GameState;

verus! {

/// One line of the runner's log.
#[derive(Debug, Clone)]
pub struct LogEntry {
    pub timestamp: String,
    pub level: String,
    pub scope: String,
    pub message: String,
}

/// What `str::to_uppercase` makes of a text: each character replaced by its Unicode
/// upper case.
pub uninterp spec fn upper_case(s: Seq<char>) -> Seq<char>;

/// Calls `str::to_uppercase`. Trusted: the result is the named upper case of the text,
/// a function of the text alone.
#[verifier::external_body]
fn to_upper(s: &str) -> (r: String)
    ensures
        r@ == upper_case(s@),
{
    s.to_uppercase()
}

impl LogEntry {
    /// A log line at `timestamp`: the level in upper case, the scope and the message as
    /// given.
    pub fn new(timestamp: String, level: &str, scope: &str, message: String) -> (e: Self)
        ensures
            e.timestamp@ == timestamp@,
            e.level@ == upper_case(level@),
            e.scope@ == scope@,
            e.message@ == message@,
    {
        LogEntry { timestamp, level: to_upper(level), scope: String::from_str(scope), message }
    }
}

/// What the user interface shows of the runner.
#[derive(Debug, Clone)]
pub struct RuntimeStatus {
    pub running: bool,
    pub connected: bool,
    pub device: String,
    pub backend: String,
    pub phase: String,
    pub pos: Option<i32>,
    pub shield: Option<i32>,
    pub boost: Option<i32>,
    pub lucky: Option<i32>,
    pub lucky_level: Option<i32>,
    pub strategy: StrategyMode,
}

impl Default for RuntimeStatus {
    /// Not running, not connected, ready, nothing known of a round, the equipment-score
    /// strategy.
    fn default() -> (s: Self)
        ensures
            !s.running,
            !s.connected,
            s.device@ == Seq::<char>::empty(),
            s.backend@ == Seq::<char>::empty(),
            s.phase@ == "就绪"@,
            s.pos is None,
            s.shield is None,
            s.boost is None,
            s.lucky is None,
            s.lucky_level is None,
            s.strategy == StrategyMode::EquipmentScore,
    {
        RuntimeStatus {
            running: false,
            connected: false,
            device: String::new(),
            backend: String::new(),
            phase: String::from_str("就绪"),
            pos: None,
            shield: None,
            boost: None,
            lucky: None,
            lucky_level: None,
            strategy: StrategyMode::EquipmentScore,
        }
    }
}

impl RuntimeStatus {
    /// Shows a round in progress: running, in `phase`, with the state's meter and
    /// resources, the lucky level and the strategy.
    pub fn show_game(&mut self, state: &GameState, level: i32, phase: &str, strategy: StrategyMode)
        ensures
            final(self).running,
            final(self).phase@ == phase@,
            final(self).pos == Some(state.pos),
            final(self).shield == Some(state.shield),
            final(self).boost == Some(state.boost),
            final(self).lucky == Some(state.lucky),
            final(self).lucky_level == Some(level),
            final(self).strategy == strategy,
            final(self).connected == old(self).connected,
            final(self).device@ == old(self).device@,
            final(self).backend@ == old(self).backend@,
    {
        self.running = true;
        self.phase = String::from_str(phase);
        self.pos = Some(state.pos);
        self.shield = Some(state.shield);
        self.boost = Some(state.boost);
        self.lucky = Some(state.lucky);
        self.lucky_level = Some(level);
        self.strategy = strategy;
    }

    /// Shows the runner in `phase`, leaving everything else as it was.
    pub fn set_phase(&mut self, phase: &str)
        ensures
            final(self).phase@ == phase@,
            final(self).running == old(self).running,
            final(self).connected == old(self).connected,
            final(self).device@ == old(self).device@,
            final(self).backend@ == old(self).backend@,
            final(self).pos == old(self).pos,
            final(self).shield == old(self).shield,
            final(self).boost == old(self).boost,
            final(self).lucky == old(self).lucky,
            final(self).lucky_level == old(self).lucky_level,
            final(self).strategy == old(self).strategy,
    {
        self.phase = String::from_str(phase);
    }
}

} // verus!
