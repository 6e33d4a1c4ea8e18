use vstd::prelude::*;
use crate::errors::ErrorCode;
use crate::tick::{
    is_usable_tick, tick_of_update, Tick, TickUpdate, MAX_TICK_INDEX, MIN_TICK_INDEX,
    TICK_ARRAY_SIZE, TICK_ARRAY_SIZE_USIZE,
};
use crate::yevefi::AccountKey;

verus! {

/// Bound on the start index of a tick array, wide enough for any spacing.
pub const MAX_TICK_ARRAY_START: i32 = 0x100_0000;

/// A fixed run of `TICK_ARRAY_SIZE` ticks, spaced `tick_spacing` apart from
/// `start_tick_index`.
#[derive(Clone, Debug, PartialEq, Eq)]
pub struct TickArray {
    pub start_tick_index: i32,
    pub ticks: Vec<Tick>,
    pub yevefi: AccountKey,
}

/// Offset of `tick_index` within an array starting at `start`: the floor of
/// the distance over the spacing.
pub open spec fn offset_of(tick_index: int, start: int, tick_spacing: int) -> int {
    (tick_index - start) / tick_spacing
}

/// What the search and the swap read of a tick array: where it starts and
/// its ticks.
pub struct ArrayView {
    pub start: int,
    pub ticks: Seq<Tick>,
}

/// The first initialized tick met scanning from slot `offset` leftward
/// (`a_to_b`) or rightward; `None` when the scan leaves the array.
pub open spec fn scan_init(ticks: Seq<Tick>, start: int, tick_spacing: int, offset: int, a_to_b: bool) -> Option<i32>
    decreases (if a_to_b { offset + 1 } else { TICK_ARRAY_SIZE - offset }),
{
    if offset < 0 || offset >= TICK_ARRAY_SIZE {
        None
    } else if ticks[offset].initialized {
        Some((start + offset * tick_spacing) as i32)
    } else if a_to_b {
        scan_init(ticks, start, tick_spacing, offset - 1, a_to_b)
    } else {
        scan_init(ticks, start, tick_spacing, offset + 1, a_to_b)
    }
}

/// Outcome of `get_next_init_tick_index` on an array.
pub open spec fn array_next_init(a: ArrayView, tick_index: int, tick_spacing: int, a_to_b: bool) -> Result<Option<i32>, ErrorCode> {
    let shift = if !a_to_b { tick_spacing } else { 0 };
    if !(a.start - shift <= tick_index < a.start + TICK_ARRAY_SIZE * tick_spacing - shift) {
        Err(ErrorCode::InvalidTickArraySequence)
    } else if tick_spacing == 0 {
        Err(ErrorCode::InvalidTickSpacing)
    } else {
        let base = offset_of(tick_index, a.start, tick_spacing);
        Ok(scan_init(a.ticks, a.start, tick_spacing, if a_to_b { base } else { base + 1 }, a_to_b))
    }
}

/// Index into the ticks of a usable tick in the array, if it is one.
pub open spec fn view_slot(a: ArrayView, tick_index: int, tick_spacing: int) -> Option<int> {
    if a.start <= tick_index < a.start + TICK_ARRAY_SIZE * tick_spacing && is_usable_tick(tick_index, tick_spacing) {
        Some(offset_of(tick_index, a.start, tick_spacing))
    } else {
        None
    }
}

impl TickArray {
    /// The start and ticks of this array.
    pub open spec fn view_of(&self) -> ArrayView {
        ArrayView { start: self.start_tick_index as int, ticks: self.ticks@ }
    }

    /// Holds exactly `TICK_ARRAY_SIZE` ticks and starts within bounds.
    pub open spec fn wf(&self) -> bool {
        &&& self.ticks@.len() == TICK_ARRAY_SIZE
        &&& -MAX_TICK_ARRAY_START <= self.start_tick_index <= MAX_TICK_ARRAY_START
    }

    /// An array of uninitialized ticks.
    pub fn new(start_tick_index: i32, yevefi: AccountKey) -> (r: TickArray)
        requires
            -MAX_TICK_ARRAY_START <= start_tick_index <= MAX_TICK_ARRAY_START,
        ensures
            r.wf(),
            r.start_tick_index == start_tick_index,
            r.yevefi == yevefi,
            forall|i: int| 0 <= i < TICK_ARRAY_SIZE ==> r.ticks@[i] == Tick::default_spec(),
    {
        let mut ticks: Vec<Tick> = Vec::new();
        let mut i: usize = 0;
        while i < TICK_ARRAY_SIZE_USIZE
            invariant
                0 <= i <= TICK_ARRAY_SIZE,
                ticks@.len() == i,
                forall|j: int| 0 <= j < i ==> ticks@[j] == Tick::default_spec(),
            decreases TICK_ARRAY_SIZE - i,
        {
            ticks.push(Tick::zeroed());
            i = i + 1;
        }
        TickArray { start_tick_index, ticks, yevefi }
    }

    /// True when this array holds the lowest usable tick.
    pub fn is_min_tick_array(&self) -> (r: bool)
        ensures
            r == (self.start_tick_index <= MIN_TICK_INDEX),
    {
        self.start_tick_index <= MIN_TICK_INDEX
    }

    /// True when this array holds the highest usable tick.
    pub fn is_max_tick_array(&self, tick_spacing: u16) -> (r: bool)
        requires
            self.wf(),
        ensures
            r == (self.start_tick_index + TICK_ARRAY_SIZE * tick_spacing > MAX_TICK_INDEX),
    {
        assert(TICK_ARRAY_SIZE == 88);
        (self.start_tick_index as i64) + (TICK_ARRAY_SIZE as i64) * (tick_spacing as i64) > MAX_TICK_INDEX as i64
    }

    /// True when `tick_index` lies in the span this array searches; a shifted
    /// span starts one spacing lower.
    pub fn in_search_range(&self, tick_index: i32, tick_spacing: u16, shifted: bool) -> (r: bool)
        requires
            self.wf(),
        ensures
            ({
                let shift = if shifted { tick_spacing as int } else { 0 };
                r == (self.start_tick_index - shift <= tick_index < self.start_tick_index
                    + TICK_ARRAY_SIZE * tick_spacing - shift)
            }),
    {
        let mut lower = self.start_tick_index as i64;
        let mut upper = (self.start_tick_index as i64) + (TICK_ARRAY_SIZE as i64) * (tick_spacing as i64);
        if shifted {
            lower = lower - tick_spacing as i64;
            upper = upper - tick_spacing as i64;
        }
        tick_index as i64 >= lower && (tick_index as i64) < upper
    }

    /// True when `tick_index` lies in the span of this array.
    pub fn check_in_array_bounds(&self, tick_index: i32, tick_spacing: u16) -> (r: bool)
        requires
            self.wf(),
        ensures
            r == (self.start_tick_index <= tick_index < self.start_tick_index + TICK_ARRAY_SIZE
                * tick_spacing),
    {
        self.in_search_range(tick_index, tick_spacing, false)
    }

    /// Offset of `tick_index` within this array, rounded toward negative
    /// infinity; refused for a zero spacing.
    pub fn tick_offset(&self, tick_index: i32, tick_spacing: u16) -> (r: Result<i64, ErrorCode>)
        requires
            self.wf(),
        ensures
            tick_spacing == 0 ==> r == Err::<i64, ErrorCode>(ErrorCode::InvalidTickSpacing),
            tick_spacing > 0 ==> r is Ok && r->Ok_0 == offset_of(tick_index as int, self.start_tick_index as int, tick_spacing as int),
    {
        if tick_spacing == 0 {
            return Err(ErrorCode::InvalidTickSpacing);
        }
        Ok(get_offset(tick_index, self.start_tick_index, tick_spacing))
    }

    /// Index into `ticks` of a usable tick in this array, if it is one.
    pub open spec fn tick_slot(&self, tick_index: int, tick_spacing: int) -> Option<int> {
        view_slot(self.view_of(), tick_index, tick_spacing)
    }

    fn slot(&self, tick_index: i32, tick_spacing: u16) -> (r: Result<usize, ErrorCode>)
        requires
            self.wf(),
        ensures
            self.tick_slot(tick_index as int, tick_spacing as int) is None ==> r == Err::<usize, ErrorCode>(ErrorCode::TickNotFound),
            self.tick_slot(tick_index as int, tick_spacing as int) is Some ==> r is Ok && r->Ok_0
                == self.tick_slot(tick_index as int, tick_spacing as int)->Some_0 && r->Ok_0 < TICK_ARRAY_SIZE,
    {
        if !self.check_in_array_bounds(tick_index, tick_spacing) || !Tick::check_is_usable_tick(tick_index, tick_spacing) {
            return Err(ErrorCode::TickNotFound);
        }
        let offset = get_offset(tick_index, self.start_tick_index, tick_spacing);
        proof {
            let d = tick_index - self.start_tick_index;
            lemma_offset_bounds(d, tick_spacing as int, 0, TICK_ARRAY_SIZE as int);
        }
        Ok(offset as usize)
    }

    /// The tick at a usable index inside this array.
    pub fn get_tick(&self, tick_index: i32, tick_spacing: u16) -> (r: Result<Tick, ErrorCode>)
        requires
            self.wf(),
        ensures
            self.tick_slot(tick_index as int, tick_spacing as int) is None ==> r == Err::<Tick, ErrorCode>(ErrorCode::TickNotFound),
            self.tick_slot(tick_index as int, tick_spacing as int) is Some ==> r == Ok::<Tick, ErrorCode>(
                self.ticks@[self.tick_slot(tick_index as int, tick_spacing as int)->Some_0],
            ),
    {
        match self.slot(tick_index, tick_spacing) {
            Ok(i) => Ok(self.ticks[i]),
            Err(e) => Err(e),
        }
    }

    /// Overwrites the tick at a usable index inside this array.
    pub fn update_tick(&mut self, tick_index: i32, tick_spacing: u16, update: &TickUpdate) -> (r: Result<(), ErrorCode>)
        requires
            old(self).wf(),
        ensures
            final(self).wf(),
            final(self).start_tick_index == old(self).start_tick_index,
            final(self).yevefi == old(self).yevefi,
            old(self).tick_slot(tick_index as int, tick_spacing as int) is None ==> r == Err::<(), ErrorCode>(ErrorCode::TickNotFound)
                && *final(self) == *old(self),
            old(self).tick_slot(tick_index as int, tick_spacing as int) is Some ==> r is Ok && final(self).ticks@
                == old(self).ticks@.update(old(self).tick_slot(tick_index as int, tick_spacing as int)->Some_0, tick_of_update(*update)),
    {
        let i = match self.slot(tick_index, tick_spacing) {
            Ok(i) => i,
            Err(e) => return Err(e),
        };
        self.ticks[i].update(update);
        Ok(())
    }

    /// Index of the first initialized tick met when searching from
    /// `tick_index` leftward (`a_to_b`, the tick's own slot included) or
    /// rightward (the next slot on); `None` when the rest of the array holds
    /// none. Refused when `tick_index` is outside the span searched.
    pub fn get_next_init_tick_index(&self, tick_index: i32, tick_spacing: u16, a_to_b: bool) -> (r: Result<Option<i32>, ErrorCode>)
        requires
            self.wf(),
        ensures
            ({
                let shift = if !a_to_b { tick_spacing as int } else { 0 };
                let in_range = self.start_tick_index - shift <= tick_index < self.start_tick_index
                    + TICK_ARRAY_SIZE * tick_spacing - shift;
                &&& !in_range ==> r == Err::<Option<i32>, ErrorCode>(ErrorCode::InvalidTickArraySequence)
                &&& in_range && tick_spacing == 0 ==> r == Err::<Option<i32>, ErrorCode>(ErrorCode::InvalidTickSpacing)
                &&& r is Ok ==> in_range && tick_spacing > 0
                &&& in_range && tick_spacing > 0 ==> r is Ok
                &&& r == array_next_init(self.view_of(), tick_index as int, tick_spacing as int, a_to_b)
                &&& r matches Ok(Some(t)) ==> {
                    let o = offset_of(t as int, self.start_tick_index as int, tick_spacing as int);
                    &&& 0 <= o < TICK_ARRAY_SIZE
                    &&& t == self.start_tick_index + o * tick_spacing
                    &&& self.ticks@[o].initialized
                    &&& (a_to_b ==> t <= tick_index)
                    &&& (!a_to_b ==> t > tick_index)
                }
            }),
    {
        if !self.in_search_range(tick_index, tick_spacing, !a_to_b) {
            return Err(ErrorCode::InvalidTickArraySequence);
        }
        let base = match self.tick_offset(tick_index, tick_spacing) {
            Ok(v) => v,
            Err(e) => return Err(e),
        };
        let ghost s = tick_spacing as int;
        let ghost start = self.start_tick_index as int;
        proof {
            let d = tick_index - start;
            if a_to_b {
                lemma_offset_bounds(d, s, 0, TICK_ARRAY_SIZE as int);
            } else {
                lemma_offset_bounds(d, s, -1, TICK_ARRAY_SIZE - 1);
            }
        }
        let mut curr_offset: i64 = base;
        if !a_to_b {
            curr_offset = curr_offset + 1;
        }
        let ghost first = curr_offset as int;
        while curr_offset >= 0 && curr_offset < TICK_ARRAY_SIZE as i64
            invariant
                self.wf(),
                s == tick_spacing as int,
                s > 0,
                start == self.start_tick_index,
                start - (if !a_to_b { s } else { 0 }) <= tick_index < start + TICK_ARRAY_SIZE * s - (
                if !a_to_b {
                    s
                } else {
                    0
                }),
                -1 <= curr_offset <= TICK_ARRAY_SIZE,
                base * s <= tick_index - start < base * s + s,
                a_to_b ==> curr_offset <= base,
                !a_to_b ==> curr_offset > base,
                first == (if a_to_b { base as int } else { base + 1 }),
                base == offset_of(tick_index as int, start, s),
                array_next_init(self.view_of(), tick_index as int, s, a_to_b) == Ok::<Option<i32>, ErrorCode>(
                    scan_init(self.ticks@, start, s, first, a_to_b),
                ),
                scan_init(self.ticks@, start, s, curr_offset as int, a_to_b) == scan_init(self.ticks@, start, s, first, a_to_b),
            decreases if a_to_b { curr_offset + 1 } else { TICK_ARRAY_SIZE - curr_offset },
        {
            if self.ticks[curr_offset as usize].initialized {
                proof {
                    assert(0 <= curr_offset * s <= TICK_ARRAY_SIZE * 65535) by (nonlinear_arith)
                        requires 0 <= curr_offset < TICK_ARRAY_SIZE, 0 < s <= 65535;
                }
                let t = (curr_offset * tick_spacing as i64 + self.start_tick_index as i64) as i32;
                proof {
                    assert((t - start) == curr_offset * s);
                    vstd::arithmetic::div_mod::lemma_fundamental_div_mod_converse(t - start, s, curr_offset as int, 0);
                    if a_to_b {
                        assert(curr_offset * s <= base * s) by (nonlinear_arith)
                            requires curr_offset <= base, s > 0;
                    } else {
                        assert(curr_offset * s >= base * s + s) by (nonlinear_arith)
                            requires curr_offset >= base + 1, s > 0;
                    }
                }
                assert(scan_init(self.ticks@, start, s, curr_offset as int, a_to_b) == Some(t));
                return Ok(Some(t));
            }
            if a_to_b {
                curr_offset = curr_offset - 1;
            } else {
                curr_offset = curr_offset + 1;
            }
        }
        assert(scan_init(self.ticks@, start, s, curr_offset as int, a_to_b) is None);
        Ok(None)
    }
}

proof fn lemma_offset_bounds(d: int, s: int, lo: int, hi: int)
    requires
        s > 0,
        lo * s <= d < hi * s,
    ensures
        lo <= d / s < hi,
        (d / s) * s <= d < (d / s) * s + s,
{
    vstd::arithmetic::div_mod::lemma_fundamental_div_mod(d, s);
    let q = d / s;
    assert(d == q * s + d % s) by (nonlinear_arith)
        requires d == s * (d / s) + d % s, q == d / s;
    assert(lo <= q < hi) by (nonlinear_arith)
        requires d == q * s + d % s, 0 <= d % s < s, lo * s <= d < hi * s, s > 0;
}

/// A slot found in an array lies within it.
pub proof fn lemma_view_slot_bounds(a: ArrayView, tick_index: int, tick_spacing: int)
    ensures
        view_slot(a, tick_index, tick_spacing) matches Some(o) ==> 0 <= o < TICK_ARRAY_SIZE,
{
    if view_slot(a, tick_index, tick_spacing) is Some {
        lemma_offset_bounds(tick_index - a.start, tick_spacing, 0, TICK_ARRAY_SIZE as int);
    }
}

/// Floor of `(tick_index - start_tick_index) / tick_spacing`.
fn get_offset(tick_index: i32, start_tick_index: i32, tick_spacing: u16) -> (r: i64)
    requires
        tick_spacing > 0,
        -MAX_TICK_ARRAY_START <= start_tick_index <= MAX_TICK_ARRAY_START,
    ensures
        r == offset_of(tick_index as int, start_tick_index as int, tick_spacing as int),
{
    let lhs = tick_index as i64 - start_tick_index as i64;
    let rhs = tick_spacing as i64;
    if lhs >= 0 {
        lhs / rhs
    } else {
        let m = -lhs;
        let q = (m + rhs - 1) / rhs;
        proof {
            let l = lhs as int;
            let d = rhs as int;
            vstd::arithmetic::div_mod::lemma_fundamental_div_mod(l, d);
            vstd::arithmetic::div_mod::lemma_fundamental_div_mod(m + d - 1, d);
            let fq = l / d;
            let fr = l % d;
            assert(m + d - 1 == -fq * d - fr + d - 1) by (nonlinear_arith)
                requires l == d * (l / d) + l % d, fq == l / d, fr == l % d, m == -l;
            if fr == 0 {
                vstd::arithmetic::div_mod::lemma_fundamental_div_mod_converse(m + d - 1, d, -fq, d - 1);
            } else {
                vstd::arithmetic::div_mod::lemma_fundamental_div_mod_converse(m + d - 1, d, -fq, d - 1 - fr);
            }
        }
        -q
    }
}

} // verus!
