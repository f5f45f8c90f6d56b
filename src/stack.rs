use vstd::prelude::*;

verus! {

/// The value that marks a slot of the tape as empty.
pub const EMPTY_SLOT: i32 = i32::MIN;

/// A fixed-size tape of integers with a cursor. `push` and `pop` work at the
/// cursor; only `pop`, `increment_pointer` and `decrement_pointer` move it.
#[derive(Debug)]
pub struct Stack {
    sp: usize,
    data: Vec<i32>,
}

/// The slots of `tape` that are not empty, in tape order.
pub open spec fn occupied(tape: Seq<i32>) -> Seq<i32>
    decreases tape.len(),
{
    if tape.len() == 0 {
        Seq::empty()
    } else if tape.last() == EMPTY_SLOT {
        occupied(tape.drop_last())
    } else {
        occupied(tape.drop_last()).push(tape.last())
    }
}

/// The cursor one slot toward the start, staying at 0.
pub open spec fn cursor_down(c: int) -> int {
    if c > 0 {
        c - 1
    } else {
        0
    }
}

/// The cursor one slot toward the end, staying at the last slot.
pub open spec fn cursor_up(c: int, len: int) -> int {
    if c < len - 1 {
        c + 1
    } else {
        c
    }
}

impl Stack {
    /// The contents of the tape.
    pub closed spec fn tape(&self) -> Seq<i32> {
        self.data@
    }

    /// The slot the cursor designates.
    pub closed spec fn cursor(&self) -> int {
        self.sp as int
    }

    /// The cursor designates a slot of a non-empty tape.
    pub open spec fn wf(&self) -> bool {
        &&& 0 < self.tape().len()
        &&& 0 <= self.cursor() < self.tape().len()
    }

    /// A tape of `size` empty slots, with the cursor on the first.
    pub fn new(size: usize) -> (s: Self)
        requires
            size > 0,
        ensures
            s.wf(),
            s.tape() == Seq::new(size as nat, |i: int| EMPTY_SLOT),
            s.cursor() == 0,
    {
        let mut data: Vec<i32> = Vec::new();
        let mut i: usize = 0;
        while i < size
            invariant
                i <= size,
                data@ == Seq::new(i as nat, |j: int| EMPTY_SLOT),
            decreases size - i,
        {
            data.push(EMPTY_SLOT);
            i += 1;
            assert(data@ =~= Seq::new(i as nat, |j: int| EMPTY_SLOT));
        }
        Stack { sp: 0, data }
    }

    /// Writes `item` into the slot at the cursor, overwriting it.
    pub fn push(&mut self, item: i32)
        requires
            old(self).wf(),
        ensures
            final(self).wf(),
            final(self).tape() == old(self).tape().update(old(self).cursor(), item),
            final(self).cursor() == old(self).cursor(),
    {
        self.data.set(self.sp, item);
    }

    /// Takes the value at the cursor: the slot becomes empty and the cursor
    /// moves one slot toward the start.
    pub fn pop(&mut self) -> (r: i32)
        requires
            old(self).wf(),
        ensures
            final(self).wf(),
            r == old(self).tape()[old(self).cursor()],
            final(self).tape() == old(self).tape().update(old(self).cursor(), EMPTY_SLOT),
            final(self).cursor() == cursor_down(old(self).cursor()),
    {
        let res = self.data[self.sp];
        self.data.set(self.sp, EMPTY_SLOT);
        self.decrement_pointer();
        res
    }

    /// The value at the cursor.
    pub fn top(&self) -> (r: i32)
        requires
            self.wf(),
        ensures
            r == self.tape()[self.cursor()],
    {
        self.data[self.sp]
    }

    /// The value of slot `i`.
    pub fn slot(&self, i: usize) -> (r: i32)
        requires
            i < self.tape().len(),
        ensures
            r == self.tape()[i as int],
    {
        self.data[i]
    }

    /// The position of the cursor.
    pub fn pointer(&self) -> (r: usize)
        ensures
            r == self.cursor(),
    {
        self.sp
    }

    /// Moves the cursor one slot toward the end; at the last slot it stays.
    pub fn increment_pointer(&mut self)
        requires
            old(self).wf(),
        ensures
            final(self).wf(),
            final(self).tape() == old(self).tape(),
            final(self).cursor() == cursor_up(old(self).cursor(), old(self).tape().len() as int),
    {
        if self.sp < self.data.len() - 1 {
            self.sp += 1;
        }
    }

    /// Moves the cursor one slot toward the start; at the first slot it stays.
    pub fn decrement_pointer(&mut self)
        requires
            old(self).wf(),
        ensures
            final(self).wf(),
            final(self).tape() == old(self).tape(),
            final(self).cursor() == cursor_down(old(self).cursor()),
    {
        if self.sp > 0 {
            self.sp -= 1;
        }
    }

    /// The values of the slots that are not empty, in tape order.
    pub fn get_stack(&self) -> (r: Vec<i32>)
        ensures
            r@ == occupied(self.tape()),
    {
        let mut out: Vec<i32> = Vec::new();
        let mut i: usize = 0;
        while i < self.data.len()
            invariant
                i <= self.data@.len(),
                out@ == occupied(self.data@.subrange(0, i as int)),
            decreases self.data@.len() - i,
        {
            let v = self.data[i];
            proof {
                let next = self.data@.subrange(0, i + 1);
                assert(next.drop_last() =~= self.data@.subrange(0, i as int));
            }
            if v != EMPTY_SLOT {
                out.push(v);
            }
            i += 1;
        }
        assert(self.data@.subrange(0, self.data@.len() as int) =~= self.data@);
        out
    }
}

} // verus!
