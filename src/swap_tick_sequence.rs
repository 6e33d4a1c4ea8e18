use vstd::prelude::*;
use crate::errors::ErrorCode;
use crate::tick::{tick_of_update, Tick, TickUpdate, MAX_TICK_INDEX, MIN_TICK_INDEX, TICK_ARRAY_SIZE};
use crate::tick_array::{array_next_init, offset_of, view_slot, ArrayView, TickArray};

verus! {

/// Outcome of `get_next_initialized_tick_index` over array views, searching
/// from `search_index` in array `array_index` on.
pub open spec fn seq_next_init(
    arrays: Seq<ArrayView>,
    tick_spacing: int,
    search_index: int,
    a_to_b: bool,
    array_index: int,
) -> Result<(usize, i32), ErrorCode>
    decreases arrays.len() - array_index,
{
    if array_index < 0 || array_index >= arrays.len() {
        Err(ErrorCode::TickArraySequenceInvalidIndex)
    } else {
        let a = arrays[array_index];
        let ticks_in_array = TICK_ARRAY_SIZE * tick_spacing;
        match array_next_init(a, search_index, tick_spacing, a_to_b) {
            Err(e) => Err(e),
            Ok(Some(t)) => Ok((array_index as usize, t)),
            Ok(None) => if a_to_b && a.start <= MIN_TICK_INDEX {
                Ok((array_index as usize, MIN_TICK_INDEX))
            } else if !a_to_b && a.start + ticks_in_array > MAX_TICK_INDEX {
                Ok((array_index as usize, MAX_TICK_INDEX))
            } else if array_index + 1 == arrays.len() {
                if a_to_b {
                    Ok((array_index as usize, a.start as i32))
                } else {
                    Ok((array_index as usize, (a.start + ticks_in_array - 1) as i32))
                }
            } else {
                seq_next_init(
                    arrays,
                    tick_spacing,
                    if a_to_b { a.start - 1 } else { a.start + ticks_in_array - 1 },
                    a_to_b,
                    array_index + 1,
                )
            },
        }
    }
}

/// Up to three consecutive tick arrays in the direction of a swap, held for
/// the duration of that swap and addressed by position in the sequence.
pub struct SwapTickSequence {
    pub arrays: Vec<TickArray>,
}

impl SwapTickSequence {
    /// The start and ticks of each array.
    pub open spec fn views(&self) -> Seq<ArrayView> {
        self.arrays@.map(|i: int, a: TickArray| a.view_of())
    }

    /// One to three well-formed arrays.
    pub open spec fn wf(&self) -> bool {
        &&& 1 <= self.arrays@.len() <= 3
        &&& forall|i: int| 0 <= i < self.arrays@.len() ==> #[trigger] self.arrays@[i].wf()
    }

    /// A sequence of the first array and whichever of the next two are given.
    pub fn new(ta0: TickArray, ta1: Option<TickArray>, ta2: Option<TickArray>) -> (r: SwapTickSequence)
        requires
            ta0.wf(),
            ta1 matches Some(a) ==> a.wf(),
            ta2 matches Some(a) ==> a.wf(),
        ensures
            r.wf(),
            r.arrays@[0] == ta0,
            r.arrays@.len() == 1 + (if ta1 is Some { 1int } else { 0 }) + (if ta2 is Some { 1int } else { 0 }),
    {
        let mut arrays: Vec<TickArray> = Vec::new();
        arrays.push(ta0);
        match ta1 {
            Some(a) => arrays.push(a),
            None => {},
        }
        match ta2 {
            Some(a) => arrays.push(a),
            None => {},
        }
        SwapTickSequence { arrays }
    }

    /// The tick at `tick_index` in array `array_index`.
    pub fn get_tick(&self, array_index: usize, tick_index: i32, tick_spacing: u16) -> (r: Result<Tick, ErrorCode>)
        requires
            self.wf(),
        ensures
            array_index >= self.arrays@.len() ==> r == Err::<Tick, ErrorCode>(ErrorCode::TickArraySequenceInvalidIndex),
            array_index < self.arrays@.len() ==> ({
                let a = self.arrays@[array_index as int];
                match a.tick_slot(tick_index as int, tick_spacing as int) {
                    Some(o) => r == Ok::<Tick, ErrorCode>(a.ticks@[o]),
                    None => r == Err::<Tick, ErrorCode>(ErrorCode::TickNotFound),
                }
            }),
    {
        if array_index >= self.arrays.len() {
            return Err(ErrorCode::TickArraySequenceInvalidIndex);
        }
        self.arrays[array_index].get_tick(tick_index, tick_spacing)
    }

    /// Overwrites the tick at `tick_index` in array `array_index`.
    pub fn update_tick(&mut self, array_index: usize, tick_index: i32, tick_spacing: u16, update: &TickUpdate) -> (r: Result<(), ErrorCode>)
        requires
            old(self).wf(),
        ensures
            final(self).wf(),
            final(self).arrays@.len() == old(self).arrays@.len(),
            r is Err ==> final(self).arrays@ == old(self).arrays@,
            forall|i: int| 0 <= i < old(self).arrays@.len() && i != array_index ==> #[trigger] final(self).arrays@[i] == old(self).arrays@[i],
            array_index < old(self).arrays@.len() ==> ({
                let a = old(self).arrays@[array_index as int];
                let b = final(self).arrays@[array_index as int];
                &&& b.start_tick_index == a.start_tick_index
                &&& match a.tick_slot(tick_index as int, tick_spacing as int) {
                    Some(o) => r is Ok && b.ticks@ == a.ticks@.update(o, tick_of_update(*update)),
                    None => r == Err::<(), ErrorCode>(ErrorCode::TickNotFound),
                }
            }),
            array_index >= old(self).arrays@.len() ==> r == Err::<(), ErrorCode>(ErrorCode::TickArraySequenceInvalidIndex),
            r is Err ==> final(self).views() == old(self).views(),
            r is Ok ==> final(self).views() == old(self).views().update(array_index as int, ArrayView {
                start: old(self).views()[array_index as int].start,
                ticks: old(self).views()[array_index as int].ticks.update(
                    view_slot(old(self).views()[array_index as int], tick_index as int, tick_spacing as int)->Some_0,
                    tick_of_update(*update),
                ),
            }),
    {
        if array_index >= self.arrays.len() {
            return Err(ErrorCode::TickArraySequenceInvalidIndex);
        }
        let r = self.arrays[array_index].update_tick(tick_index, tick_spacing, update);
        proof {
            if r is Err {
                assert(self.arrays@ =~= old(self).arrays@);
            } else {
                let a = old(self).views()[array_index as int];
                assert(self.views() =~= old(self).views().update(array_index as int, ArrayView {
                    start: a.start,
                    ticks: a.ticks.update(view_slot(a, tick_index as int, tick_spacing as int)->Some_0, tick_of_update(*update)),
                }));
            }
        }
        r
    }

    /// Offset of `tick_index` within array `array_index`.
    pub fn get_tick_offset(&self, array_index: usize, tick_index: i32, tick_spacing: u16) -> (r: Result<i64, ErrorCode>)
        requires
            self.wf(),
        ensures
            array_index >= self.arrays@.len() ==> r == Err::<i64, ErrorCode>(ErrorCode::TickArraySequenceInvalidIndex),
            array_index < self.arrays@.len() && tick_spacing == 0 ==> r == Err::<i64, ErrorCode>(ErrorCode::InvalidTickSpacing),
            array_index < self.arrays@.len() && tick_spacing > 0 ==> r is Ok && r->Ok_0 == offset_of(tick_index as int,
                self.arrays@[array_index as int].start_tick_index as int, tick_spacing as int),
    {
        if array_index >= self.arrays.len() {
            return Err(ErrorCode::TickArraySequenceInvalidIndex);
        }
        self.arrays[array_index].tick_offset(tick_index, tick_spacing)
    }

    /// The next initialized tick from `tick_index` in the direction of the
    /// trade, searching from array `start_array_index` on: leftward
    /// (`a_to_b`, the starting tick included) or rightward. When none is
    /// found it returns the lowest or highest usable tick if the array
    /// searched last reaches it, else the end of the last array. Refused when
    /// the search runs past the sequence or starts outside an array's span.
    pub fn get_next_initialized_tick_index(
        &self,
        tick_index: i32,
        tick_spacing: u16,
        a_to_b: bool,
        start_array_index: usize,
    ) -> (r: Result<(usize, i32), ErrorCode>)
        requires
            self.wf(),
        ensures
            r matches Ok((ai, t)) ==> {
                &&& start_array_index <= ai < self.arrays@.len()
                &&& (a_to_b ==> t <= tick_index || t == MIN_TICK_INDEX)
                &&& (!a_to_b ==> t > tick_index || t == MAX_TICK_INDEX)
            },
            start_array_index >= self.arrays@.len() ==> r == Err::<(usize, i32), ErrorCode>(ErrorCode::TickArraySequenceInvalidIndex),
            r == seq_next_init(self.views(), tick_spacing as int, tick_index as int, a_to_b, start_array_index as int),
    {
        let mut search_index: i32 = tick_index;
        let mut array_index: usize = start_array_index;
        while array_index < self.arrays.len()
            invariant
                self.wf(),
                start_array_index <= array_index,
                a_to_b ==> search_index <= tick_index,
                !a_to_b ==> search_index >= tick_index,
                seq_next_init(self.views(), tick_spacing as int, search_index as int, a_to_b, array_index as int)
                    == seq_next_init(self.views(), tick_spacing as int, tick_index as int, a_to_b, start_array_index as int),
            decreases self.arrays@.len() - array_index,
        {
            let next_array = &self.arrays[array_index];
            assert(self.views()[array_index as int] == next_array.view_of());
            let next_index = match next_array.get_next_init_tick_index(search_index, tick_spacing, a_to_b) {
                Ok(v) => v,
                Err(e) => return Err(e),
            };
            match next_index {
                Some(t) => {
                    return Ok((array_index, t));
                },
                None => {
                    if a_to_b && next_array.is_min_tick_array() {
                        return Ok((array_index, MIN_TICK_INDEX));
                    } else if !a_to_b && next_array.is_max_tick_array(tick_spacing) {
                        return Ok((array_index, MAX_TICK_INDEX));
                    }
                    let ticks_in_array = TICK_ARRAY_SIZE * (tick_spacing as i32);
                    if array_index + 1 == self.arrays.len() {
                        if a_to_b {
                            return Ok((array_index, next_array.start_tick_index));
                        } else {
                            return Ok((array_index, next_array.start_tick_index + ticks_in_array - 1));
                        }
                    }
                    search_index = if a_to_b {
                        next_array.start_tick_index - 1
                    } else {
                        next_array.start_tick_index + ticks_in_array - 1
                    };
                    array_index = array_index + 1;
                },
            }
        }
        Err(ErrorCode::TickArraySequenceInvalidIndex)
    }
}

} // verus!
