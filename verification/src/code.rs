//! The program store: a ring of lines, a program counter and the search for
//! the next line that may run.

use vstd::prelude::*;
use crate::device::CondState;
use crate::op::LOC;

verus! {

/// Whether `line` may run under `cond`: it has an operation, and its guard,
/// if it has one, agrees with `cond`.
pub open spec fn runnable(line: LOC, cond: CondState) -> bool {
    line.op is Some && match line.cond {
        Some(guard) => match cond {
            CondState::All => true,
            CondState::Plus => guard.0,
            CondState::Minus => !guard.0,
            CondState::Neither => false,
        },
        None => true,
    }
}

/// The slot that lies `offset` slots after `pc` in a ring of `len` slots.
pub open spec fn ring(pc: int, offset: int, len: int) -> int {
    (pc + offset) % len
}

/// The first slot at or after the `tried`-th slot from `pc` whose line may
/// run, searching no further than once round the ring.
pub open spec fn scan(lines: Seq<LOC>, cond: CondState, pc: int, tried: int) -> Option<int>
    decreases lines.len() - tried,
{
    if tried >= lines.len() {
        None
    } else if runnable(lines[ring(pc, tried, lines.len() as int)], cond) {
        Some(ring(pc, tried, lines.len() as int))
    } else {
        scan(lines, cond, pc, tried + 1)
    }
}

/// The first slot at or after `pc`, going round the ring once, whose line
/// may run under `cond`; `None` where no line may run.
pub open spec fn next_runnable(lines: Seq<LOC>, cond: CondState, pc: int) -> Option<int> {
    scan(lines, cond, pc, 0)
}

/// Going round a ring: a slot and an offset of at most the length add up
/// with at most one turn.
pub proof fn lemma_ring(pc: int, offset: int, len: int)
    requires
        0 <= pc < len,
        0 <= offset <= len,
    ensures
        ring(pc, offset, len) == if pc + offset < len {
            pc + offset
        } else {
            pc + offset - len
        },
        0 <= ring(pc, offset, len) < len,
{
    if pc + offset < len {
        vstd::arithmetic::div_mod::lemma_small_mod((pc + offset) as nat, len as nat);
    } else {
        vstd::arithmetic::div_mod::lemma_small_mod((pc + offset - len) as nat, len as nat);
        vstd::arithmetic::div_mod::lemma_mod_sub_multiples_vanish(pc + offset, len);
    }
}

/// What `scan` finds is the first line that may run: no slot between the
/// `tried`-th and the found one holds such a line, and where nothing is
/// found no slot from the `tried`-th on holds one.
pub proof fn lemma_scan_finds_first(lines: Seq<LOC>, cond: CondState, pc: int, tried: int)
    requires
        0 <= pc < lines.len(),
        0 <= tried <= lines.len(),
    ensures
        match scan(lines, cond, pc, tried) {
            Some(at) => exists|k: int|
                tried <= k < lines.len() && at == ring(pc, k, lines.len() as int) && runnable(
                    lines[at],
                    cond,
                ) && forall|j: int|
                    tried <= j < k ==> !runnable(
                        #[trigger] lines[ring(pc, j, lines.len() as int)],
                        cond,
                    ),
            None => forall|j: int|
                tried <= j < lines.len() ==> !runnable(
                    #[trigger] lines[ring(pc, j, lines.len() as int)],
                    cond,
                ),
        },
    decreases lines.len() - tried,
{
    let len = lines.len() as int;
    if tried < len {
        if runnable(lines[ring(pc, tried, len)], cond) {
            assert(tried <= tried < len && ring(pc, tried, len) == ring(pc, tried, len));
        } else {
            lemma_scan_finds_first(lines, cond, pc, tried + 1);
            match scan(lines, cond, pc, tried + 1) {
                Some(at) => {
                    let k = choose|k: int|
                        tried + 1 <= k < len && at == ring(pc, k, len) && runnable(lines[at], cond)
                            && forall|j: int|
                            tried + 1 <= j < k ==> !runnable(
                                #[trigger] lines[ring(pc, j, len)],
                                cond,
                            );
                    assert(tried <= k < len && at == ring(pc, k, len) && runnable(lines[at], cond)
                        && forall|j: int|
                        tried <= j < k ==> !runnable(#[trigger] lines[ring(pc, j, len)], cond));
                },
                None => {},
            }
        }
    }
}

/// A fetch that is made again finds the same line: the search from the
/// slot that was found ends at that slot.
pub proof fn lemma_refetch(lines: Seq<LOC>, cond: CondState, pc: int)
    requires
        0 <= pc < lines.len(),
    ensures
        match next_runnable(lines, cond, pc) {
            Some(at) => 0 <= at < lines.len() && runnable(lines[at], cond) && next_runnable(
                lines,
                cond,
                at,
            ) == Some(at),
            None => true,
        },
{
    lemma_scan_finds_first(lines, cond, pc, 0);
    match next_runnable(lines, cond, pc) {
        Some(at) => {
            let k = choose|k: int|
                0 <= k < lines.len() && at == ring(pc, k, lines.len() as int) && runnable(
                    lines[at],
                    cond,
                ) && forall|j: int|
                    0 <= j < k ==> !runnable(
                        #[trigger] lines[ring(pc, j, lines.len() as int)],
                        cond,
                    );
            lemma_ring(pc, k, lines.len() as int);
            lemma_ring(at, 0, lines.len() as int);
        },
        None => {},
    }
}

/// Whether `line` may run under `cond`.
pub fn is_runnable(line: &LOC, cond: CondState) -> (r: bool)
    ensures
        r == runnable(*line, cond),
{
    if line.op.is_none() {
        return false;
    }
    match line.cond {
        Some(guard) => match cond {
            CondState::All => true,
            CondState::Plus => guard.0,
            CondState::Minus => !guard.0,
            CondState::Neither => false,
        },
        None => true,
    }
}

/// A program of `N` slots with its program counter and the outcome of the
/// last test.
pub struct Code<const N: usize> {
    code: [LOC; N],
    pc: u8,
    state: CondState,
}

impl<const N: usize> Code<N> {
    /// The lines of the program, slot by slot.
    pub closed spec fn lines(&self) -> Seq<LOC> {
        self.code@
    }

    /// The program counter.
    pub closed spec fn counter(&self) -> int {
        self.pc as int
    }

    /// The outcome of the last test.
    pub closed spec fn condition(&self) -> CondState {
        self.state
    }

    /// The program has between 1 and 255 slots and the program counter
    /// points at one of them.
    pub open spec fn wf(&self) -> bool {
        &&& 0 < N <= 255
        &&& 0 <= self.counter() < N
    }

    /// The program has exactly `N` slots.
    pub proof fn lemma_slots(&self)
        ensures
            self.lines().len() == N,
    {
    }

    /// A store that holds `code`, with the program counter at slot 0 and no
    /// test made.  `None` exactly where the number of slots is not between
    /// 1 and 255.
    pub fn new(code: [LOC; N]) -> (r: Option<Self>)
        ensures
            r is Some <==> 0 < N <= 255,
            r is Some ==> {
                &&& r.unwrap().wf()
                &&& r.unwrap().lines() == code@
                &&& r.unwrap().counter() == 0
                &&& r.unwrap().condition() == CondState::Neither
            },
    {
        if 0 < N && N <= 255 {
            Some(Code { code, pc: 0, state: CondState::Neither })
        } else {
            None
        }
    }

    /// The program counter.
    pub fn pc(&self) -> (r: u8)
        ensures
            r == self.counter(),
    {
        self.pc
    }

    /// The outcome of the last test.
    pub fn cnd(&self) -> (r: CondState)
        ensures
            r == self.condition(),
    {
        self.state
    }

    /// Sets the outcome of the last test.
    pub fn set_cnd(&mut self, cnd: CondState)
        ensures
            final(self).condition() == cnd,
            final(self).lines() == old(self).lines(),
            final(self).counter() == old(self).counter(),
    {
        self.state = cnd;
    }

    /// The line in slot `at`; `None` where the program has no such slot.
    pub fn line(&self, at: u8) -> (r: Option<LOC>)
        ensures
            r == if at < self.lines().len() {
                Some(self.lines()[at as int])
            } else {
                None
            },
    {
        if (at as usize) < N {
            Some(self.code[at as usize].clone())
        } else {
            None
        }
    }

    /// Fetches the next line that may run: moves the program counter to the
    /// first slot at or after it, going round once, whose line has an
    /// operation and a guard that agrees with the last test, and hands out
    /// that line.  Where no line may run, the program counter stays and
    /// `None` is returned.
    pub fn step(&mut self) -> (r: Option<LOC>)
        requires
            old(self).wf(),
        ensures
            final(self).wf(),
            final(self).lines() == old(self).lines(),
            final(self).condition() == old(self).condition(),
            match next_runnable(old(self).lines(), old(self).condition(), old(self).counter()) {
                Some(at) => final(self).counter() == at && r == Some(old(self).lines()[at]),
                None => final(self).counter() == old(self).counter() && r is None,
            },
    {
        let ghost lines = self.lines();
        let ghost cond = self.condition();
        let ghost start = self.counter();
        let mut tried: usize = 0;
        proof {
            lemma_ring(start, 0, N as int);
        }
        while tried < N
            invariant
                self.wf(),
                lines == old(self).lines(),
                cond == old(self).condition(),
                start == old(self).counter(),
                self.lines() == lines,
                self.condition() == cond,
                0 <= start < N,
                tried <= N,
                self.counter() == ring(start, tried as int, N as int) || tried == N,
                tried == N ==> self.counter() == start,
                scan(lines, cond, start, tried as int) == next_runnable(lines, cond, start),
            decreases N - tried,
        {
            let at = self.pc as usize;
            if is_runnable(&self.code[at], self.state) {
                return Some(self.code[at].clone());
            }
            proof {
                lemma_ring(start, tried as int, N as int);
                lemma_ring(start, tried as int + 1, N as int);
            }
            self.pc = if at + 1 < N {
                (at + 1) as u8
            } else {
                0
            };
            tried = tried + 1;
        }
        None
    }

    /// Moves the program counter to the next slot, from the last slot to
    /// slot 0.
    pub fn advance(&mut self)
        requires
            old(self).wf(),
        ensures
            final(self).wf(),
            final(self).lines() == old(self).lines(),
            final(self).condition() == old(self).condition(),
            final(self).counter() == ring(old(self).counter(), 1, N as int),
    {
        proof {
            lemma_ring(self.counter(), 1, N as int);
        }
        let at = self.pc as usize;
        self.pc = if at + 1 < N {
            (at + 1) as u8
        } else {
            0
        };
    }

    /// Moves the program counter to slot `addr`; `false`, and nothing
    /// changes, where the program has no such slot.
    pub fn jump(&mut self, addr: u8) -> (done: bool)
        requires
            old(self).wf(),
        ensures
            final(self).wf(),
            final(self).lines() == old(self).lines(),
            final(self).condition() == old(self).condition(),
            done == (addr < N),
            final(self).counter() == if done {
                addr as int
            } else {
                old(self).counter()
            },
    {
        if (addr as usize) < N {
            self.pc = addr;
            true
        } else {
            false
        }
    }
}

} // verus!
