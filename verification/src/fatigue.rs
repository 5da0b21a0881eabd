use vstd::prelude::*;

verus! {

/// The counting half of the fatigue model: turns and tool calls since
/// waking, and how many more turns the agent stays groggy. (The fatigue
/// level itself is a real number computed by the program.)
pub struct FatigueCounters {
    turns: u32,
    tool_calls: u32,
    groggy_turns: u32,
    groggy_turns_on_wake: u32,
}

pub struct CountersView {
    pub turns: nat,
    pub tool_calls: nat,
    pub groggy_turns: nat,
    pub groggy_turns_on_wake: nat,
}

impl View for FatigueCounters {
    type V = CountersView;

    closed spec fn view(&self) -> CountersView {
        CountersView {
            turns: self.turns as nat,
            tool_calls: self.tool_calls as nat,
            groggy_turns: self.groggy_turns as nat,
            groggy_turns_on_wake: self.groggy_turns_on_wake as nat,
        }
    }
}

/// The groggy turns left after `k` more turns.
pub open spec fn groggy_after(g: nat, k: nat) -> nat {
    if g >= k { (g - k) as nat } else { 0 }
}

/// How fatigue reads, from the level (which the program works out from the
/// fatigue value).
#[derive(Debug, Clone, Copy, PartialEq, Eq, Structural)]
pub enum FatigueBand {
    /// Below 0.3.
    Fresh,
    /// Below 0.6.
    Normal,
    /// Below 0.8.
    Weary,
    /// Below 0.95.
    Tired,
    /// From 0.95 on.
    Exhausted,
}

pub const GROGGY_DESC: &'static str = "刚醒来，还有点迷糊。休息过了。";

pub open spec fn band_text(b: FatigueBand) -> Seq<char> {
    match b {
        FatigueBand::Fresh => "精神饱满。"@,
        FatigueBand::Normal => "正常。"@,
        FatigueBand::Weary => "微微疲惫。"@,
        FatigueBand::Tired => "很累了。"@,
        FatigueBand::Exhausted => "困倦，撑不住了。"@,
    }
}

impl FatigueCounters {
    /// Fresh counters; waking up makes the agent groggy for `groggy_turns_on_wake` turns.
    pub fn new(groggy_turns_on_wake: u32) -> (r: Self)
        ensures
            r@ == (CountersView { turns: 0, tool_calls: 0, groggy_turns: 0, groggy_turns_on_wake: groggy_turns_on_wake as nat }),
    {
        FatigueCounters { turns: 0, tool_calls: 0, groggy_turns: 0, groggy_turns_on_wake }
    }

    /// Counters restored from a saved state.
    pub fn with_persisted(self, turns: u32, tool_calls: u32) -> (r: Self)
        ensures
            r@ == (CountersView { turns: turns as nat, tool_calls: tool_calls as nat, ..self@ }),
    {
        FatigueCounters { turns, tool_calls, ..self }
    }

    /// A turn ends: one more turn, one groggy turn fewer.
    pub fn on_turn(&mut self)
        requires
            old(self)@.turns < u32::MAX,
        ensures
            final(self)@ == (CountersView {
                turns: old(self)@.turns + 1,
                groggy_turns: groggy_after(old(self)@.groggy_turns, 1),
                ..old(self)@
            }),
    {
        self.turns = self.turns + 1;
        if self.groggy_turns > 0 {
            self.groggy_turns = self.groggy_turns - 1;
        }
    }

    pub fn add_tool_calls(&mut self, count: u32)
        requires
            old(self)@.tool_calls + count <= u32::MAX,
        ensures
            final(self)@ == (CountersView { tool_calls: old(self)@.tool_calls + count as nat, ..old(self)@ }),
    {
        self.tool_calls = self.tool_calls + count;
    }

    /// Waking up: the counts start over, and the agent is groggy for a while.
    pub fn on_wake(&mut self)
        ensures
            final(self)@ == (CountersView {
                turns: 0,
                tool_calls: 0,
                groggy_turns: old(self)@.groggy_turns_on_wake,
                ..old(self)@
            }),
    {
        self.turns = 0;
        self.tool_calls = 0;
        self.groggy_turns = self.groggy_turns_on_wake;
    }

    pub fn is_groggy(&self) -> (r: bool)
        ensures
            r == (self@.groggy_turns > 0),
    {
        self.groggy_turns > 0
    }

    pub fn turns(&self) -> (r: u32)
        ensures
            r == self@.turns,
    {
        self.turns
    }

    pub fn tool_calls(&self) -> (r: u32)
        ensures
            r == self@.tool_calls,
    {
        self.tool_calls
    }

    pub fn groggy_turns(&self) -> (r: u32)
        ensures
            r == self@.groggy_turns,
    {
        self.groggy_turns
    }

    /// How the agent feels: groggy after waking, else by the fatigue band.
    pub fn describe(&self, band: FatigueBand) -> (r: &'static str)
        ensures
            r@ == if self@.groggy_turns > 0 { GROGGY_DESC@ } else { band_text(band) },
    {
        if self.groggy_turns > 0 {
            return GROGGY_DESC;
        }
        match band {
            FatigueBand::Fresh => "精神饱满。",
            FatigueBand::Normal => "正常。",
            FatigueBand::Weary => "微微疲惫。",
            FatigueBand::Tired => "很累了。",
            FatigueBand::Exhausted => "困倦，撑不住了。",
        }
    }
}

/// After waking, the agent is groggy for exactly as many turns as the
/// configuration says: `k` turns later it is groggy if and only if `k` is
/// below that number.
pub proof fn lemma_groggy_countdown(on_wake: nat, k: nat)
    ensures
        groggy_after(on_wake, k) > 0 <==> k < on_wake,
        k > 0 ==> groggy_after(groggy_after(on_wake, (k - 1) as nat), 1) == groggy_after(on_wake, k),
{
}

/// A waking turn ends: it is counted, and once the grogginess has passed
/// the dream the agent woke from fades.
pub fn on_turn_complete(counters: &mut FatigueCounters, dream: &mut Option<String>)
    requires
        old(counters)@.turns < u32::MAX,
    ensures
        final(counters)@ == (CountersView {
            turns: old(counters)@.turns + 1,
            groggy_turns: groggy_after(old(counters)@.groggy_turns, 1),
            ..old(counters)@
        }),
        *final(dream) == if final(counters)@.groggy_turns == 0 { None } else { *old(dream) },
{
    counters.on_turn();
    if !counters.is_groggy() && dream.is_some() {
        *dream = None;
    }
}

} // verus!
