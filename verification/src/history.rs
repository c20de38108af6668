//! The debugger's history of machine states, kept by clock cycle.
use vstd::prelude::*;
use crate::cpu::{CPU, CpuView, MEMORY_SIZE};

verus! {

/// A snapshot of the machine: its integer registers, the memory cells that
/// hold a value (with their addresses), and its registers and flags.
pub struct ModCPU {
    pub int_reg: Vec<u16>,
    pub memory: Vec<(u16, u16)>,
    pub pc: u16,
    pub ir: i16,
    pub running: bool,
    pub zflag: bool,
    pub oflag: bool,
    pub rflag: bool,
    pub sflag: bool,
    pub sp: u16,
    pub bp: u16,
}

/// The mathematical model of a `ModCPU`.
pub struct ModView {
    pub int_reg: Seq<u16>,
    pub memory: Seq<(u16, u16)>,
    pub pc: u16,
    pub ir: i16,
    pub running: bool,
    pub zflag: bool,
    pub oflag: bool,
    pub rflag: bool,
    pub sflag: bool,
    pub sp: u16,
    pub bp: u16,
}

impl View for ModCPU {
    type V = ModView;

    open spec fn view(&self) -> ModView {
        ModView {
            int_reg: self.int_reg@,
            memory: self.memory@,
            pc: self.pc,
            ir: self.ir,
            running: self.running,
            zflag: self.zflag,
            oflag: self.oflag,
            rflag: self.rflag,
            sflag: self.sflag,
            sp: self.sp,
            bp: self.bp,
        }
    }
}

/// The cells among the first `n` of `memory` that hold a value, in address
/// order, each with its address.
pub open spec fn occupied(memory: Seq<Option<u16>>, n: int) -> Seq<(u16, u16)>
    decreases n,
{
    if n <= 0 {
        Seq::empty()
    } else {
        let rest = occupied(memory, n - 1);
        match memory[n - 1] {
            Some(v) => rest.push(((n - 1) as u16, v)),
            None => rest,
        }
    }
}

/// The snapshot of a machine state.
pub open spec fn snapshot(s: CpuView) -> ModView {
    ModView {
        int_reg: s.int_reg,
        memory: occupied(s.memory, s.memory.len() as int),
        pc: s.pc,
        ir: s.ir,
        running: s.running,
        zflag: s.zflag,
        oflag: s.oflag,
        rflag: s.rflag,
        sflag: s.sflag,
        sp: s.sp,
        bp: s.bp,
    }
}

impl ModCPU {
    /// The snapshot of `origin` (see `snapshot`).
    pub fn modcpu_from_cpu(origin: &CPU) -> (m: ModCPU)
        requires
            origin.wf(),
        ensures
            m@ == snapshot(origin@),
    {
        let mut memory: Vec<(u16, u16)> = Vec::new();
        let mut a: usize = 0;
        while a < origin.memory.len()
            invariant
                a <= origin.memory@.len(),
                origin.memory@.len() == MEMORY_SIZE,
                memory@ == occupied(origin.memory@, a as int),
            decreases origin.memory@.len() - a,
        {
            if let Some(v) = origin.memory[a] {
                memory.push((a as u16, v));
            }
            a = a + 1;
        }
        ModCPU {
            int_reg: origin.int_reg.clone(),
            memory,
            pc: origin.pc,
            ir: origin.ir,
            running: origin.running,
            zflag: origin.zflag,
            oflag: origin.oflag,
            rflag: origin.rflag,
            sflag: origin.sflag,
            sp: origin.sp,
            bp: origin.bp,
        }
    }
}

/// The most states the history holds before it drops one: 128 MiB at
/// 16 × 24 bytes a state.
pub const MAX_STATES: usize = 349525;

/// The index of the first of `clocks`, from `i` on, equal to `c`.
pub open spec fn first_clock(clocks: Seq<u32>, c: u32, i: int) -> Option<int>
    decreases clocks.len() - i,
{
    if i < 0 || i >= clocks.len() {
        None
    } else if clocks[i] == c {
        Some(i)
    } else {
        first_clock(clocks, c, i + 1)
    }
}

/// The clocks of a history.
pub open spec fn clocks_of(states: Seq<(u32, ModView)>) -> Seq<u32> {
    states.map_values(|e: (u32, ModView)| e.0)
}

/// The state recorded at clock `c`: the first entry for `c`.
pub open spec fn state_at(states: Seq<(u32, ModView)>, c: u32) -> Option<ModView> {
    match first_clock(clocks_of(states), c, 0) {
        Some(i) => Some(states[i].1),
        None => None,
    }
}

proof fn lemma_first_clock_bounds(clocks: Seq<u32>, c: u32, i: int)
    ensures
        first_clock(clocks, c, i) matches Some(k) ==> i <= k < clocks.len() && clocks[k] == c,
    decreases clocks.len() - i,
{
    if 0 <= i < clocks.len() && clocks[i] != c {
        lemma_first_clock_bounds(clocks, c, i + 1);
    }
}

proof fn lemma_first_clock_push(clocks: Seq<u32>, x: u32, c: u32, i: int)
    requires
        0 <= i,
    ensures
        first_clock(clocks.push(x), c, i) == if first_clock(clocks, c, i) is Some {
            first_clock(clocks, c, i)
        } else if x == c && i <= clocks.len() {
            Some(clocks.len() as int)
        } else {
            None
        },
    decreases clocks.len() + 1 - i,
{
    if i < clocks.len() {
        assert(clocks.push(x)[i] == clocks[i]);
        if clocks[i] != c {
            lemma_first_clock_push(clocks, x, c, i + 1);
        }
    } else if i == clocks.len() {
        assert(clocks.push(x)[i] == x);
        assert(first_clock(clocks.push(x), c, i + 1) is None);
    }
}

/// The machine states that the debugger recorded, by clock cycle.
pub struct StateHistory {
    pub states: Vec<(u32, ModCPU)>,
}

/// The mathematical model of a history.
pub open spec fn history_view(h: StateHistory) -> Seq<(u32, ModView)> {
    h.states@.map_values(|e: (u32, ModCPU)| (e.0, e.1@))
}

impl StateHistory {
    /// An empty history.
    pub fn new() -> (h: StateHistory)
        ensures
            history_view(h).len() == 0,
    {
        StateHistory { states: Vec::new() }
    }

    /// Records the state of `cpu` at clock `clock`, replacing what was
    /// recorded at that clock. A history that holds more than `MAX_STATES`
    /// states drops its oldest one instead and records nothing.
    pub fn record_state(&mut self, clock: u32, cpu: &CPU)
        requires
            cpu.wf(),
        ensures
            history_view(*old(self)).len() > MAX_STATES ==> history_view(*final(self)) == history_view(
                *old(self),
            ).drop_first(),
            history_view(*old(self)).len() <= MAX_STATES ==> forall|c: u32|
                #[trigger] state_at(history_view(*final(self)), c) == if c == clock {
                    Some(snapshot(cpu@))
                } else {
                    state_at(history_view(*old(self)), c)
                },
    {
        let ghost old_h = history_view(*self);
        if self.states.len() > MAX_STATES {
            self.states.remove(0);
            assert(history_view(*self) =~= old_h.drop_first());
            return;
        }
        let snap = ModCPU::modcpu_from_cpu(cpu);
        let ghost sv = snap@;
        assert(sv == snapshot(cpu@));
        let mut i: usize = 0;
        while i < self.states.len()
            invariant
                i <= self.states@.len(),
                old_h == history_view(*self),
                old_h == history_view(*old(self)),
                old_h.len() <= MAX_STATES,
                snap@ == sv,
                sv == snapshot(cpu@),
                first_clock(clocks_of(old_h), clock, 0) == first_clock(clocks_of(old_h), clock, i as int),
            decreases self.states@.len() - i,
        {
            assert(old_h[i as int] == (self.states@[i as int].0, self.states@[i as int].1@));
            assert(clocks_of(old_h)[i as int] == self.states@[i as int].0);
            if self.states[i].0 == clock {
                let ghost before = self.states@;
                let entry = (clock, snap);
                let ghost entry_g = entry;
                assert(entry_g.0 == clock);
                assert(entry_g.1@ == snapshot(cpu@));
                self.states.set(i, entry);
                assert(self.states@ == before.update(i as int, entry_g));
                proof {
                    let nh = history_view(*self);
                    assert(self.states@ == before.update(i as int, self.states@[i as int]));
                    assert(self.states@[i as int].0 == clock);
                    assert(self.states@[i as int].1@ == sv);
                    assert forall|k: int| 0 <= k < nh.len() implies nh[k] == old_h.update(i as int, (clock, sv))[k] by {
                        if k != i {
                            assert(self.states@[k] == before[k]);
                        }
                    }
                    assert(nh =~= old_h.update(i as int, (clock, sv)));
                    assert(clocks_of(nh) =~= clocks_of(old_h));
                    assert forall|c: u32| #[trigger] state_at(nh, c) == if c == clock {
                        Some(sv)
                    } else {
                        state_at(old_h, c)
                    } by {
                        lemma_first_clock_bounds(clocks_of(old_h), c, 0);
                    }
                }
                return;
            }
            i = i + 1;
        }
        let entry = (clock, snap);
        let ghost entry_g = entry;
        self.states.push(entry);
        assert(self.states@[self.states@.len() - 1] == entry_g);
        proof {
            let nh = history_view(*self);
            assert(nh =~= old_h.push((clock, sv)));
            assert(clocks_of(nh) =~= clocks_of(old_h).push(clock));
            assert forall|c: u32| #[trigger] state_at(nh, c) == if c == clock {
                Some(sv)
            } else {
                state_at(old_h, c)
            } by {
                lemma_first_clock_push(clocks_of(old_h), clock, c, 0);
                lemma_first_clock_bounds(clocks_of(old_h), c, 0);
            }
        }
    }

    /// The state recorded at clock `clock`, if any.
    pub fn display_state(&self, clock: u32) -> (r: Option<&ModCPU>)
        ensures
            match r {
                Some(m) => state_at(history_view(*self), clock) == Some(m@),
                None => state_at(history_view(*self), clock) is None,
            },
    {
        let ghost h = history_view(*self);
        let mut i: usize = 0;
        while i < self.states.len()
            invariant
                i <= self.states@.len(),
                h == history_view(*self),
                first_clock(clocks_of(h), clock, 0) == first_clock(clocks_of(h), clock, i as int),
            decreases self.states@.len() - i,
        {
            assert(h[i as int] == (self.states@[i as int].0, self.states@[i as int].1@));
            assert(clocks_of(h)[i as int] == self.states@[i as int].0);
            if self.states[i].0 == clock {
                return Some(&self.states[i].1);
            }
            i = i + 1;
        }
        None
    }
}

} // verus!
