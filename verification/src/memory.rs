//! The tape: a fixed-length, zero-initialized byte buffer with a single
//! cursor. Moving off either end wraps around, and cell arithmetic wraps
//! modulo 256, so every tape operation is total.

use vstd::prelude::*;

verus! {

/// Smallest tape size the interpreter accepts.
pub const MIN_MEMORY_SIZE: usize = 8;

/// Construction-time failure: the requested tape is too small.
#[derive(Clone, Copy, Debug, PartialEq, Eq, Structural)]
pub enum ConfigError {
    SizeTooSmall,
}

/// Mathematical state of a tape: the cell contents and the cursor position.
#[verifier::ext_equal]
pub ghost struct MemState {
    pub cells: Seq<u8>,
    pub cursor: int,
}

/// Cursor position after one step left, wrapping from 0 to `size - 1`.
pub open spec fn wrap_left(cursor: int, size: int) -> int {
    if cursor == 0 {
        size - 1
    } else {
        cursor - 1
    }
}

/// Cursor position after one step right, wrapping from `size - 1` to 0.
pub open spec fn wrap_right(cursor: int, size: int) -> int {
    if cursor == size - 1 {
        0
    } else {
        cursor + 1
    }
}

/// A cell value plus one, modulo 256.
pub open spec fn wrap_inc(v: u8) -> u8 {
    if v == 255 {
        0
    } else {
        (v + 1) as u8
    }
}

/// A cell value minus one, modulo 256.
pub open spec fn wrap_dec(v: u8) -> u8 {
    if v == 0 {
        255
    } else {
        (v - 1) as u8
    }
}

/// The fixed-size byte tape with its cursor.
pub struct Memory {
    cells: Vec<u8>,
    ptr: usize,
}

impl View for Memory {
    type V = MemState;

    closed spec fn view(&self) -> MemState {
        MemState { cells: self.cells@, cursor: self.ptr as int }
    }
}

impl Memory {
    /// The cursor always stays inside the buffer, and the buffer is at least
    /// the minimum size. Every operation preserves this.
    pub open spec fn inv(&self) -> bool {
        &&& self@.cells.len() >= MIN_MEMORY_SIZE
        &&& 0 <= self@.cursor < self@.cells.len()
    }

    /// Allocates `size` zero-valued cells with the cursor at 0, or reports
    /// that the requested size is below the minimum.
    pub fn new(size: usize) -> (r: Result<Memory, ConfigError>)
        ensures
            size >= MIN_MEMORY_SIZE ==> (r matches Ok(m) && m.inv() && m@.cells == Seq::new(
                size as nat,
                |k: int| 0u8,
            ) && m@.cursor == 0),
            size < MIN_MEMORY_SIZE ==> r == Err::<Memory, ConfigError>(ConfigError::SizeTooSmall),
    {
        if size < MIN_MEMORY_SIZE {
            return Err(ConfigError::SizeTooSmall);
        }
        let mut cells: Vec<u8> = Vec::new();
        let mut i: usize = 0;
        while i < size
            invariant
                i <= size,
                cells@ == Seq::new(i as nat, |k: int| 0u8),
            decreases size - i,
        {
            cells.push(0);
            proof {
                assert(cells@ =~= Seq::new((i + 1) as nat, |k: int| 0u8));
            }
            i += 1;
        }
        Ok(Memory { cells, ptr: 0 })
    }

    /// Returns the value in the cell under the cursor.
    pub fn get(&self) -> (r: u8)
        requires
            self.inv(),
        ensures
            r == self@.cells[self@.cursor],
    {
        self.cells[self.ptr]
    }

    /// Overwrites the cell under the cursor.
    pub fn set(&mut self, value: u8)
        requires
            old(self).inv(),
        ensures
            final(self).inv(),
            final(self)@.cells == old(self)@.cells.update(old(self)@.cursor, value),
            final(self)@.cursor == old(self)@.cursor,
    {
        self.cells.set(self.ptr, value);
    }

    /// Moves the cursor one cell left, wrapping from 0 to the last cell.
    pub fn move_left(&mut self)
        requires
            old(self).inv(),
        ensures
            final(self).inv(),
            final(self)@.cells == old(self)@.cells,
            final(self)@.cursor == wrap_left(old(self)@.cursor, old(self)@.cells.len() as int),
    {
        if self.ptr == 0 {
            self.ptr = self.cells.len() - 1;
        } else {
            self.ptr = self.ptr - 1;
        }
    }

    /// Moves the cursor one cell right, wrapping from the last cell to 0.
    pub fn move_right(&mut self)
        requires
            old(self).inv(),
        ensures
            final(self).inv(),
            final(self)@.cells == old(self)@.cells,
            final(self)@.cursor == wrap_right(old(self)@.cursor, old(self)@.cells.len() as int),
    {
        if self.ptr == self.cells.len() - 1 {
            self.ptr = 0;
        } else {
            self.ptr = self.ptr + 1;
        }
    }

    /// Adds one to the cell under the cursor, wrapping 255 to 0.
    pub fn inc(&mut self)
        requires
            old(self).inv(),
        ensures
            final(self).inv(),
            final(self)@.cursor == old(self)@.cursor,
            final(self)@.cells == old(self)@.cells.update(
                old(self)@.cursor,
                wrap_inc(old(self)@.cells[old(self)@.cursor]),
            ),
    {
        let v = self.cells[self.ptr];
        let nv: u8 = if v == 255 {
            0
        } else {
            v + 1
        };
        self.cells.set(self.ptr, nv);
    }

    /// Subtracts one from the cell under the cursor, wrapping 0 to 255.
    pub fn dec(&mut self)
        requires
            old(self).inv(),
        ensures
            final(self).inv(),
            final(self)@.cursor == old(self)@.cursor,
            final(self)@.cells == old(self)@.cells.update(
                old(self)@.cursor,
                wrap_dec(old(self)@.cells[old(self)@.cursor]),
            ),
    {
        let v = self.cells[self.ptr];
        let nv: u8 = if v == 0 {
            255
        } else {
            v - 1
        };
        self.cells.set(self.ptr, nv);
    }

    /// Reads the cell at an arbitrary position, for inspection from outside;
    /// `None` when the position is off the tape.
    pub fn cell_at(&self, index: usize) -> (r: Option<u8>)
        ensures
            r == (if index < self@.cells.len() {
                Some(self@.cells[index as int])
            } else {
                None::<u8>
            }),
    {
        if index < self.cells.len() {
            Some(self.cells[index])
        } else {
            None
        }
    }

    /// The fixed number of cells.
    pub fn size(&self) -> (r: usize)
        ensures
            r == self@.cells.len(),
    {
        self.cells.len()
    }

    /// The current cursor position.
    pub fn cursor_pos(&self) -> (r: usize)
        ensures
            r == self@.cursor,
    {
        self.ptr
    }
}

/// One step left then one step right (or the other way round) restores the
/// cursor, and wrapping at the two boundaries lands where expected: left from
/// 0 gives `size - 1`, and right from `size - 1` gives 0 again.
pub proof fn lemma_move_round_trip(cursor: int, size: int)
    requires
        1 <= size,
        0 <= cursor < size,
    ensures
        wrap_right(wrap_left(cursor, size), size) == cursor,
        wrap_left(wrap_right(cursor, size), size) == cursor,
        wrap_left(0, size) == size - 1,
        wrap_right(size - 1, size) == 0,
{
}

/// The cell value reached from `v` by `n` consecutive increments.
pub open spec fn iter_inc(v: u8, n: nat) -> u8
    decreases n,
{
    if n == 0 {
        v
    } else {
        wrap_inc(iter_inc(v, (n - 1) as nat))
    }
}

proof fn lemma_iter_inc_mod(v: u8, n: nat)
    ensures
        iter_inc(v, n) == ((v + n) % 256) as u8,
    decreases n,
{
    if n > 0 {
        lemma_iter_inc_mod(v, (n - 1) as nat);
    }
}

/// 256 consecutive increments bring a cell back to the value it started
/// with, whatever that value was: cell arithmetic is a modulo-256 cycle.
pub proof fn lemma_inc_cycle(v: u8)
    ensures
        iter_inc(v, 256) == v,
{
    lemma_iter_inc_mod(v, 256);
}

} // verus!
