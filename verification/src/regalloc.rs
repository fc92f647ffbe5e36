//! Register allocation for stack-based virtual machines.
//!
//! The allocator tracks, for every register of every kind, whether it is
//! reserved, free, holds a value of the virtual stack or caches a local
//! variable.  The register-resident part of the virtual stack is a chain of
//! registers: the top of stack is `tos`, every stack register names the one
//! below it (`Above`), and the lowest one is marked `Native` (everything below
//! it lives on the native stack).  Operations hand back the commands (`Cmd`)
//! that a code generator must emit to keep values where the allocator says.

use vstd::prelude::*;

verus! {

/// A register target: a register number within a register kind.
#[derive(Clone, Copy, PartialEq, Eq, Debug, Hash, Structural)]
pub struct Target {
    /// The register number.
    pub reg: u8,
    /// The kind of register (index of its frame, e.g. integer or float).
    pub kind: usize,
}

/// A stack element held in a register.
#[derive(Clone, Copy, PartialEq, Eq, Debug, Structural)]
pub enum StackElement {
    /// This element is above another stack element held in the given register.
    Above(Target),
    /// The element below this one lives on the native stack.
    Native,
}

/// The state of a register in a frame.
#[derive(Clone, Copy, PartialEq, Eq, Debug, Structural)]
pub enum RegAllocFrame {
    /// Register is reserved and cannot be used.
    Reserved,
    /// Register is empty and available.
    Empty,
    /// Register holds a stack element.
    Stack {
        /// The stack element.
        elem: StackElement,
    },
    /// Register holds a local variable.
    Local(u32),
}

/// A command emitted by the register allocator.
#[derive(Clone, Copy, PartialEq, Eq, Debug, Structural)]
pub enum Cmd {
    /// Push a register to the native stack.
    Push(Target),
    /// Pop from the native stack into a register.
    Pop(Target),
    /// Load a local variable into a register.
    GetLocal {
        /// Destination register.
        dest: Target,
        /// Local variable index.
        local: u32,
    },
    /// Store a register into a local variable.
    SetLocal {
        /// Source register.
        src: Target,
        /// Local variable index.
        local: u32,
    },
}

/// Types that have a length.
pub trait Length {
    /// Returns the number of elements.
    fn len(&self) -> usize;
}

impl<T> Length for Vec<T> {
    fn len(&self) -> (n: usize)
        ensures
            n == self@.len(),
    {
        Vec::len(self)
    }
}

/// The register allocator.
///
/// `frames[k][r]` is the state of register `r` of kind `k`; every kind has the
/// same number of registers, at most 256 (register numbers are bytes).
pub struct RegAlloc {
    frames: Vec<Vec<RegAllocFrame>>,
    tos: Option<Target>,
    /// The register-resident part of the virtual stack, bottom first.
    stack: Ghost<Seq<Target>>,
}

/// The frame a stack register holds at position `i` of a stack chain `s`.
pub open spec fn chain_frame(s: Seq<Target>, i: int) -> RegAllocFrame {
    RegAllocFrame::Stack {
        elem: if i == 0 {
            StackElement::Native
        } else {
            StackElement::Above(s[i - 1])
        },
    }
}

/// The frame a register takes when it is pushed on top of stack chain `s`.
pub open spec fn pushed_frame(s: Seq<Target>) -> RegAllocFrame {
    chain_frame(s.push(Target { reg: 0, kind: 0 }), s.len() as int)
}

/// `t` names register `r` of kind `k`.
pub open spec fn names(t: Target, k: int, r: int) -> bool {
    t.kind == k && t.reg == r
}

/// Updates one register of a frame table.
pub open spec fn table_update(
    f: Seq<Seq<RegAllocFrame>>,
    t: Target,
    v: RegAllocFrame,
) -> Seq<Seq<RegAllocFrame>> {
    f.update(t.kind as int, f[t.kind as int].update(t.reg as int, v))
}

impl RegAlloc {
    /// The frame table, kind by kind.
    pub closed spec fn table(self) -> Seq<Seq<RegAllocFrame>> {
        self.frames@.map_values(|row: Vec<RegAllocFrame>| row@)
    }

    /// The register-resident virtual stack, bottom first.
    pub closed spec fn stack(self) -> Seq<Target> {
        self.stack@
    }

    /// The current top of stack.
    pub closed spec fn top(self) -> Option<Target> {
        self.tos
    }

    /// Number of register kinds.
    pub open spec fn kinds(self) -> nat {
        self.table().len()
    }

    /// Number of registers of each kind.
    pub open spec fn regs(self) -> nat {
        self.table()[0].len()
    }

    /// The state of register `r` of kind `k`.
    pub open spec fn slot(self, k: int, r: int) -> RegAllocFrame {
        self.table()[k][r]
    }

    /// `t` names an existing register.
    pub open spec fn valid_target(self, t: Target) -> bool {
        t.kind < self.kinds() && t.reg < self.regs()
    }

    /// The frame table has a well-formed shape.
    pub open spec fn shape(self) -> bool {
        &&& 0 < self.kinds()
        &&& self.regs() <= 256
        &&& forall|k: int| 0 <= k < self.kinds() ==> #[trigger] self.table()[k].len() == self.regs()
    }

    /// The allocator's invariant: the stack registers form exactly one chain,
    /// from `tos` down to the single `Native` register.
    #[verifier::opaque]
    pub open spec fn wf(self) -> bool {
        let s = self.stack();
        &&& self.shape()
        &&& self.top() == (if s.len() == 0 {
            None::<Target>
        } else {
            Some(s.last())
        })
        &&& forall|i: int|
            0 <= i < s.len() ==> self.valid_target(#[trigger] s[i]) && self.slot(
                s[i].kind as int,
                s[i].reg as int,
            ) == chain_frame(s, i)
        &&& forall|i: int, j: int| 0 <= i < j < s.len() ==> s[i] != s[j]
        &&& forall|k: int, r: int|
            0 <= k < self.kinds() && 0 <= r < self.regs() && (#[trigger] self.slot(k, r) is Stack)
                ==> exists|i: int| 0 <= i < s.len() && names(s[i], k, r)
    }

    /// The shape and top-of-stack facts that the invariant gives.
    pub proof fn lemma_wf_basics(self)
        requires
            self.wf(),
        ensures
            self.shape(),
            self.top() == (if self.stack().len() == 0 {
                None::<Target>
            } else {
                Some(self.stack().last())
            }),
    {
        reveal(RegAlloc::wf);
    }

    /// Creates an allocator over the given frames, with an empty virtual stack.
    ///
    /// Every kind must have the same number of registers (at most 256), and no
    /// register may already hold a stack element.
    pub fn new(frames: Vec<Vec<RegAllocFrame>>) -> (ra: RegAlloc)
        requires
            0 < frames@.len(),
            frames@[0]@.len() <= 256,
            forall|k: int| 0 <= k < frames@.len() ==> #[trigger] frames@[k]@.len() == frames@[0]@.len(),
            forall|k: int, r: int|
                0 <= k < frames@.len() && 0 <= r < frames@[k]@.len() ==> !(
                #[trigger] frames@[k]@[r] is Stack),
        ensures
            ra.wf(),
            ra.table() == frames@.map_values(|row: Vec<RegAllocFrame>| row@),
            ra.stack() == Seq::<Target>::empty(),
    {
        reveal(RegAlloc::wf);
        let ra = RegAlloc { frames, tos: None, stack: Ghost(Seq::empty()) };
        assert forall|k: int| 0 <= k < ra.kinds() implies #[trigger] ra.table()[k].len() == ra.regs() by {
            assert(ra.table()[k] == ra.frames@[k]@);
        }
        assert forall|k: int, r: int|
            0 <= k < ra.kinds() && 0 <= r < ra.regs() && (#[trigger] ra.slot(k, r) is Stack) implies
            exists|i: int| 0 <= i < ra.stack().len() && names(ra.stack()[i], k, r) by {
            assert(ra.table()[k] == ra.frames@[k]@);
        }
        ra
    }

    /// The frames, kind by kind.
    pub fn frames(&self) -> (f: &Vec<Vec<RegAllocFrame>>)
        ensures
            f@.map_values(|row: Vec<RegAllocFrame>| row@) == self.table(),
    {
        &self.frames
    }

    /// The current top-of-stack register, if any.
    pub fn tos(&self) -> (t: Option<Target>)
        ensures
            t == self.top(),
    {
        self.tos
    }

    fn get(&self, k: usize, r: usize) -> (f: RegAllocFrame)
        requires
            self.shape(),
            k < self.kinds(),
            r < self.regs(),
        ensures
            f == self.slot(k as int, r as int),
    {
        assert(self.table()[k as int] == self.frames@[k as int]@);
        self.frames[k][r]
    }

    fn set(&mut self, t: Target, v: RegAllocFrame)
        requires
            old(self).shape(),
            old(self).valid_target(t),
        ensures
            final(self).table() == table_update(old(self).table(), t, v),
            final(self).tos == old(self).tos,
            final(self).stack == old(self).stack,
            final(self).shape(),
            final(self).kinds() == old(self).kinds(),
            final(self).regs() == old(self).regs(),
    {
        let ghost old_t = self.table();
        let k = t.kind;
        let r = t.reg as usize;
        assert(self.table()[k as int] == self.frames@[k as int]@);
        let mut row: Vec<RegAllocFrame> = Vec::new();
        std::mem::swap(&mut row, &mut self.frames[k]);
        row.set(r, v);
        self.frames.set(k, row);
        assert(self.table() =~= table_update(old_t, t, v));
        assert forall|k2: int| 0 <= k2 < self.kinds() implies #[trigger] self.table()[k2].len() == self.regs() by {
            assert(old_t[k2].len() == old_t[0].len());
        }
    }

    /// Index of the first register of kind `k` in state `Empty`, if any.
    fn find_empty(&self, k: usize) -> (res: Option<u8>)
        requires
            self.shape(),
            k < self.kinds(),
        ensures
            match res {
                Some(r) => r < self.regs() && self.slot(k as int, r as int) == RegAllocFrame::Empty
                    && forall|r2: int| 0 <= r2 < r ==> self.slot(k as int, r2) != RegAllocFrame::Empty,
                None => forall|r2: int|
                    0 <= r2 < self.regs() ==> self.slot(k as int, r2) != RegAllocFrame::Empty,
            },
    {
        let n = self.frames[0].len();
        assert(self.table()[0] == self.frames@[0]@);
        let mut i: usize = 0;
        while i < n
            invariant
                n == self.regs(),
                i <= n,
                self.shape(),
                k < self.kinds(),
                forall|r2: int| 0 <= r2 < i ==> self.slot(k as int, r2) != RegAllocFrame::Empty,
            decreases n - i,
        {
            if self.get(k, i) == RegAllocFrame::Empty {
                return Some(i as u8);
            }
            i = i + 1;
        }
        None
    }
}


/// `j` is the lowest position of stack chain `s` held in a register of kind `k`.
pub open spec fn first_of_kind(s: Seq<Target>, k: usize, j: int) -> bool {
    &&& 0 <= j < s.len()
    &&& s[j].kind == k
    &&& forall|i: int| 0 <= i < j ==> s[i].kind != k
}

/// Stack chain `s` holds a register of kind `k`.
pub open spec fn chain_has_kind(s: Seq<Target>, k: usize) -> bool {
    exists|j: int| 0 <= j < s.len() && s[j].kind == k
}

/// A register that [`RegAlloc::evict`] may hand out, for stack chain `s`: a
/// free one, one caching a local, or the lowest register of the stack when
/// it is not the top.
pub open spec fn evictable(f: RegAllocFrame, t: Target, s: Seq<Target>) -> bool {
    ||| f == RegAllocFrame::Empty
    ||| f is Local
    ||| (f == RegAllocFrame::Stack { elem: StackElement::Native } && s.len() > 0 && s.last() != t)
}

/// The commands, frame table and stack chain that evicting register `t`
/// produces: a free register needs nothing; a cached local is written back;
/// the lowest stack register is pushed to the native stack and the register
/// above it becomes the lowest.
pub open spec fn evicted(
    tab: Seq<Seq<RegAllocFrame>>,
    s: Seq<Target>,
    t: Target,
) -> (Seq<Cmd>, Seq<Seq<RegAllocFrame>>, Seq<Target>) {
    match tab[t.kind as int][t.reg as int] {
        RegAllocFrame::Empty => (Seq::empty(), tab, s),
        RegAllocFrame::Local(l) => (
            seq![Cmd::SetLocal { src: t, local: l }],
            table_update(tab, t, RegAllocFrame::Empty),
            s,
        ),
        _ => (
            seq![Cmd::Push(t)],
            table_update(
                table_update(tab, t, RegAllocFrame::Empty),
                s[1],
                RegAllocFrame::Stack { elem: StackElement::Native },
            ),
            s.drop_first(),
        ),
    }
}

/// The frame table once the lowest `n` registers of stack chain `s` have been
/// spilled to the native stack, lowest first: each is freed, and the register
/// above the last one spilled becomes the lowest.
pub open spec fn spilled(tab: Seq<Seq<RegAllocFrame>>, s: Seq<Target>, n: int) -> Seq<Seq<RegAllocFrame>>
    decreases n,
{
    if n <= 0 {
        tab
    } else {
        let freed = table_update(spilled(tab, s, n - 1), s[n - 1], RegAllocFrame::Empty);
        if n < s.len() {
            table_update(freed, s[n], RegAllocFrame::Stack { elem: StackElement::Native })
        } else {
            freed
        }
    }
}

/// Spilling one more register of a chain is spilling the lowest register of
/// what is left of it.
pub proof fn lemma_spilled_step(tab: Seq<Seq<RegAllocFrame>>, s: Seq<Target>, i: int)
    requires
        0 <= i < s.len(),
    ensures
        spilled(tab, s, i + 1) == spilled(spilled(tab, s, i), s.skip(i), 1),
{
    reveal_with_fuel(spilled, 2);
    assert(s.skip(i)[0] == s[i]);
    if i + 1 < s.len() {
        assert(s.skip(i)[1] == s[i + 1]);
    }
}

/// The `SetLocal` commands for registers `0..upto` of one frame row.
pub open spec fn row_stores(row: Seq<RegAllocFrame>, kind: usize, upto: int) -> Seq<Cmd>
    decreases upto,
{
    if upto <= 0 {
        Seq::empty()
    } else {
        let prev = row_stores(row, kind, upto - 1);
        match row[upto - 1] {
            RegAllocFrame::Local(l) => prev.push(
                Cmd::SetLocal { src: Target { reg: (upto - 1) as u8, kind }, local: l },
            ),
            _ => prev,
        }
    }
}

/// The `SetLocal` commands for every local cached in kinds `0..upto`, kind by
/// kind and register by register.
pub open spec fn table_stores(tab: Seq<Seq<RegAllocFrame>>, upto: int) -> Seq<Cmd>
    decreases upto,
{
    if upto <= 0 {
        Seq::empty()
    } else {
        table_stores(tab, upto - 1) + row_stores(tab[upto - 1], (upto - 1) as usize, tab[upto - 1].len() as int)
    }
}

/// What a flush leaves in a register: stack values and locals are written
/// back and the register is freed; reserved and free registers stay as they are.
pub open spec fn flushed(f: RegAllocFrame) -> RegAllocFrame {
    match f {
        RegAllocFrame::Stack { .. } => RegAllocFrame::Empty,
        RegAllocFrame::Local(_) => RegAllocFrame::Empty,
        _ => f,
    }
}

impl RegAlloc {
    /// First register of kind `k` holding local `l`, if any.
    fn find_local(&self, k: usize, l: u32) -> (res: Option<u8>)
        requires
            self.shape(),
            k < self.kinds(),
        ensures
            match res {
                Some(r) => r < self.regs() && self.slot(k as int, r as int) == RegAllocFrame::Local(l)
                    && forall|r2: int| 0 <= r2 < r ==> self.slot(k as int, r2) != RegAllocFrame::Local(l),
                None => forall|r2: int|
                    0 <= r2 < self.regs() ==> self.slot(k as int, r2) != RegAllocFrame::Local(l),
            },
    {
        let n = self.frames[0].len();
        assert(self.table()[0] == self.frames@[0]@);
        let mut i: usize = 0;
        while i < n
            invariant
                n == self.regs(),
                i <= n,
                self.shape(),
                k < self.kinds(),
                forall|r2: int| 0 <= r2 < i ==> self.slot(k as int, r2) != RegAllocFrame::Local(l),
            decreases n - i,
        {
            if self.get(k, i) == RegAllocFrame::Local(l) {
                return Some(i as u8);
            }
            i = i + 1;
        }
        None
    }

    /// A register that is not on the stack chain is free to change.
    proof fn lemma_off_chain(self, t: Target)
        requires
            self.wf(),
            self.valid_target(t),
            !(self.slot(t.kind as int, t.reg as int) is Stack),
        ensures
            forall|i: int| 0 <= i < self.stack().len() ==> self.stack()[i] != t,
    {
        reveal(RegAlloc::wf);
        let s = self.stack();
        assert forall|i: int| 0 <= i < s.len() implies s[i] != t by {
            if s[i] == t {
                assert(self.slot(s[i].kind as int, s[i].reg as int) == chain_frame(s, i));
            }
        }
    }

    /// Marks the free register `t` as the new top of stack.
    #[verifier::rlimit(60)]
    fn stack_onto(&mut self, t: Target)
        requires
            old(self).wf(),
            old(self).valid_target(t),
            !(old(self).slot(t.kind as int, t.reg as int) is Stack),
        ensures
            final(self).wf(),
            final(self).table() == table_update(old(self).table(), t, pushed_frame(old(self).stack())),
            final(self).stack() == old(self).stack().push(t),
    {
        reveal(RegAlloc::wf);
        proof { self.lemma_off_chain(t); }
        let ghost s = self.stack@;
        let ghost old_self = *self;
        let elem = match self.tos {
            None => StackElement::Native,
            Some(a) => StackElement::Above(a),
        };
        let f = RegAllocFrame::Stack { elem };
        assert(f == pushed_frame(s));
        self.set(t, f);
        self.tos = Some(t);
        self.stack = Ghost(s.push(t));
        let ghost s2 = s.push(t);
        assert forall|i: int| 0 <= i < s2.len() implies self.valid_target(#[trigger] s2[i])
            && self.slot(s2[i].kind as int, s2[i].reg as int) == chain_frame(s2, i) by {
            if i < s.len() {
                assert(s2[i] == s[i]);
                assert(old_self.slot(s[i].kind as int, s[i].reg as int) == chain_frame(s, i));
            }
        }
        assert forall|k: int, r: int|
            0 <= k < self.kinds() && 0 <= r < self.regs() && (#[trigger] self.slot(k, r) is Stack) implies
            exists|i: int| 0 <= i < s2.len() && names(s2[i], k, r) by {
            if names(t, k, r) {
                assert(names(s2[s.len() as int], k, r));
            } else {
                assert(old_self.slot(k, r) is Stack);
                let i = choose|i: int| 0 <= i < s.len() && names(s[i], k, r);
                assert(names(s2[i], k, r));
            }
        }
    }

    /// Pushes an existing register onto the virtual stack.
    ///
    /// The register must be free; it becomes the new top of stack.  No
    /// command is needed.
    pub fn push_existing(&mut self, a: Target) -> (cmds: Vec<Cmd>)
        requires
            old(self).wf(),
            old(self).valid_target(a),
            old(self).slot(a.kind as int, a.reg as int) == RegAllocFrame::Empty,
        ensures
            final(self).wf(),
            cmds@ == Seq::<Cmd>::empty(),
            final(self).table() == table_update(old(self).table(), a, pushed_frame(old(self).stack())),
            final(self).stack() == old(self).stack().push(a),
    {
        self.stack_onto(a);
        Vec::new()
    }
}


/// What [`RegAlloc::push`] does: going from `pre` to `post` for kind `k`, with result `res`.
pub open spec fn push_post(pre: RegAlloc, post: RegAlloc, k: usize, res: Result<(u8, Seq<Cmd>), ()>) -> bool {
    match res {
        Ok((r, cmds)) => {
            let (t, c, tab, s) = pre.room(k);
            &&& pre.can_make_room(k)
            &&& t == (Target { reg: r, kind: k })
            &&& (k as int) < tab.len()
            &&& (r as int) < tab[k as int].len()
            &&& tab[k as int][r as int] == RegAllocFrame::Empty
            &&& cmds == c
            &&& post.table() == table_update(tab, t, pushed_frame(s))
            &&& post.stack() == s.push(t)
        },
        Err(()) => {
            &&& !pre.can_make_room(k)
            &&& post.table() == pre.table()
            &&& post.stack() == pre.stack()
        },
    }
}
/// What [`RegAlloc::pop`] does: going from `pre` to `post` for `kind`, returning `res`.
pub open spec fn pop_post(pre: RegAlloc, post: RegAlloc, kind: usize, res: (Target, Seq<Cmd>)) -> bool {
    &&& pre.stack().len() > 0 ==> {
        &&& res.0 == pre.stack().last()
        &&& res.1 == Seq::<Cmd>::empty()
        &&& post.table() == table_update(pre.table(), res.0, RegAllocFrame::Empty)
        &&& post.stack() == pre.stack().drop_last()
    }
    &&& pre.stack().len() == 0 ==> {
        &&& res.0.kind == kind
        &&& pre.first_empty(kind as int, res.0.reg as int)
        &&& res.1 == seq![Cmd::Pop(res.0)]
        &&& post.table() == pre.table()
        &&& post.stack() == pre.stack()
    }
}

/// What [`RegAlloc::pop_local`] does: going from `pre` to `post` for `kind`
/// and local `target`, with commands `cmds`.
pub open spec fn pop_local_post(pre: RegAlloc, post: RegAlloc, kind: usize, target: u32, cmds: Seq<Cmd>) -> bool {
    &&& pre.stack().len() > 0 ==> {
        &&& cmds == Seq::<Cmd>::empty()
        &&& post.table() == table_update(pre.table(), pre.stack().last(), RegAllocFrame::Local(target))
        &&& post.stack() == pre.stack().drop_last()
    }
    &&& pre.stack().len() == 0 ==> exists|r: int|
        {
            &&& pre.first_empty(kind as int, r)
            &&& cmds == seq![Cmd::Pop(Target { reg: r as u8, kind })]
            &&& post.table() == table_update(pre.table(), Target { reg: r as u8, kind }, RegAllocFrame::Local(target))
            &&& post.stack() == pre.stack()
        }
}

/// Popping the top of stack into a local that no register of its kind
/// caches, then pushing that local back, needs no command and restores the
/// frame table and the virtual stack: the register that now caches the local
/// becomes the top again, linked to the register below it as before.
pub proof fn law_pop_local_then_push_local(
    a: RegAlloc,
    b: RegAlloc,
    c: RegAlloc,
    l: u32,
    cmds1: Seq<Cmd>,
    cmds2: Seq<Cmd>,
)
    requires
        a.wf(),
        b.wf(),
        a.stack().len() > 0,
        !a.has_local(a.stack().last().kind as int, l),
        pop_local_post(a, b, a.stack().last().kind, l, cmds1),
        b.push_local_outcome(c, a.stack().last().kind, l, c.stack().last().reg as int, cmds2),
    ensures
        cmds1 == Seq::<Cmd>::empty(),
        cmds2 == Seq::<Cmd>::empty(),
        c.table() == a.table(),
        c.stack() == a.stack(),
{
    reveal(RegAlloc::wf);
    reveal(RegAlloc::push_local_outcome);
    let s = a.stack();
    let n = s.len() - 1;
    let t = s[n];
    let k = t.kind;
    assert(a.valid_target(t));
    assert(a.slot(t.kind as int, t.reg as int) == chain_frame(s, n));
    assert(b.slot(k as int, t.reg as int) == RegAllocFrame::Local(l));
    assert(b.has_local(k as int, l));
    let r = c.stack().last().reg as int;
    assert(b.first_local(k as int, r, l));
    assert(r == t.reg as int) by {
        if r != t.reg as int {
            assert(b.slot(k as int, r) == a.slot(k as int, r));
        }
    }
    assert(Target { reg: r as u8, kind: k } == t);
    assert(pushed_frame(s.drop_last()) == chain_frame(s, n));
    assert(c.table()[k as int] =~= a.table()[k as int]);
    assert(c.table() =~= a.table());
    assert(c.stack() =~= s);
}

/// Popping right after a successful push hands back the register that the
/// push allocated, whatever kind the pop names, and leaves the frame table
/// and virtual stack as the push found them once room was made; when the push
/// took a free register, that is exactly the state before the push.
pub proof fn law_push_then_pop(
    a: RegAlloc,
    b: RegAlloc,
    c: RegAlloc,
    k: usize,
    r: u8,
    cmds: Seq<Cmd>,
    k2: usize,
    popped: Target,
    cmds2: Seq<Cmd>,
)
    requires
        a.wf(),
        push_post(a, b, k, Ok((r, cmds))),
        pop_post(b, c, k2, (popped, cmds2)),
    ensures
        popped == (Target { reg: r, kind: k }),
        cmds2 == Seq::<Cmd>::empty(),
        c.table() == a.room(k).2,
        c.stack() == a.room(k).3,
        a.has_empty(k as int) ==> c.table() == a.table() && c.stack() == a.stack(),
{
    let (t, cc, tab, s) = a.room(k);
    assert(b.stack().len() > 0);
    assert(b.stack().drop_last() =~= s);
    assert(tab[k as int].update(r as int, pushed_frame(s)).update(r as int, RegAllocFrame::Empty) =~= tab[k as int]);
    assert(c.table() =~= tab);
}
impl RegAlloc {
    /// `r` is the first free register of kind `k`.
    pub open spec fn first_empty(self, k: int, r: int) -> bool {
        &&& 0 <= r < self.regs()
        &&& self.slot(k, r) == RegAllocFrame::Empty
        &&& forall|r2: int| 0 <= r2 < r ==> self.slot(k, r2) != RegAllocFrame::Empty
    }

    /// Kind `k` has a free register.
    pub open spec fn has_empty(self, k: int) -> bool {
        exists|r: int| 0 <= r < self.regs() && self.slot(k, r) == RegAllocFrame::Empty
    }

    /// `r` is the first register of kind `k` caching a local.
    pub open spec fn first_cached(self, k: int, r: int) -> bool {
        &&& 0 <= r < self.regs()
        &&& self.slot(k, r) is Local
        &&& forall|r2: int| 0 <= r2 < r ==> !(self.slot(k, r2) is Local)
    }

    /// Kind `k` has a register caching a local.
    pub open spec fn has_cached(self, k: int) -> bool {
        exists|r: int| 0 <= r < self.regs() && self.slot(k, r) is Local
    }

    /// A register of kind `k` can be had for a new value: a free one, one
    /// caching a local, or one holding part of the register-resident stack.
    pub open spec fn can_make_room(self, k: usize) -> bool {
        ||| self.has_empty(k as int)
        ||| self.has_cached(k as int)
        ||| chain_has_kind(self.stack(), k)
    }

    /// How room is made in kind `k`: the register handed out, the commands
    /// that save what it and the registers spilled with it held, and the frame
    /// table and stack chain afterwards.  The first free register of the kind
    /// needs nothing; else the first one caching a local writes it back
    /// (`SetLocal`); else the stack chain is spilled from its lowest register
    /// up to and including its lowest register of the kind (`Push` each,
    /// across kinds, lowest first).
    pub open spec fn room(self, k: usize) -> (Target, Seq<Cmd>, Seq<Seq<RegAllocFrame>>, Seq<Target>) {
        if self.has_empty(k as int) {
            let r = choose|r: int| self.first_empty(k as int, r);
            (Target { reg: r as u8, kind: k }, Seq::empty(), self.table(), self.stack())
        } else if self.has_cached(k as int) {
            let r = choose|r: int| self.first_cached(k as int, r);
            let t = Target { reg: r as u8, kind: k };
            let l = match self.slot(k as int, r) {
                RegAllocFrame::Local(l) => l,
                _ => 0,
            };
            (t, seq![Cmd::SetLocal { src: t, local: l }], table_update(self.table(), t, RegAllocFrame::Empty), self.stack())
        } else {
            let s = self.stack();
            let j = choose|j: int| first_of_kind(s, k, j);
            (s[j], pushes(s.take(j + 1)), spilled(self.table(), s, j + 1), s.skip(j + 1))
        }
    }
    /// `r` is the first register of kind `k` caching local `l`.
    pub open spec fn first_local(self, k: int, r: int, l: u32) -> bool {
        &&& 0 <= r < self.regs()
        &&& self.slot(k, r) == RegAllocFrame::Local(l)
        &&& forall|r2: int| 0 <= r2 < r ==> self.slot(k, r2) != RegAllocFrame::Local(l)
    }

    /// Kind `k` caches local `l`.
    pub open spec fn has_local(self, k: int, l: u32) -> bool {
        exists|r: int| 0 <= r < self.regs() && self.slot(k, r) == RegAllocFrame::Local(l)
    }

    /// Removes the top of stack, leaving `v` in its register.
    #[verifier::rlimit(60)]
    fn unstack_top(&mut self, v: RegAllocFrame) -> (t: Target)
        requires
            old(self).wf(),
            old(self).stack().len() > 0,
            !(v is Stack),
        ensures
            final(self).wf(),
            t == old(self).stack().last(),
            final(self).table() == table_update(old(self).table(), t, v),
            final(self).stack() == old(self).stack().drop_last(),
    {
        reveal(RegAlloc::wf);
        let ghost s = self.stack@;
        let ghost old_self = *self;
        let ghost n = s.len() - 1;
        let t = match self.tos {
            Some(t) => t,
            None => {
                assert(false);
                Target { reg: 0, kind: 0 }
            },
        };
        assert(t == s[n]);
        let f = self.get(t.kind, t.reg as usize);
        assert(f == chain_frame(s, n));
        let below = match f {
            RegAllocFrame::Stack { elem: StackElement::Above(b) } => Some(b),
            _ => None,
        };
        self.set(t, v);
        self.tos = below;
        self.stack = Ghost(s.drop_last());
        let ghost s2 = s.drop_last();
        assert forall|i: int| 0 <= i < s2.len() implies self.valid_target(#[trigger] s2[i])
            && self.slot(s2[i].kind as int, s2[i].reg as int) == chain_frame(s2, i) by {
            assert(s2[i] == s[i]);
            assert(s[i] != s[n]);
            assert(old_self.slot(s[i].kind as int, s[i].reg as int) == chain_frame(s, i));
        }
        assert forall|k: int, r: int|
            0 <= k < self.kinds() && 0 <= r < self.regs() && (#[trigger] self.slot(k, r) is Stack) implies
            exists|i: int| 0 <= i < s2.len() && names(s2[i], k, r) by {
            assert(!names(t, k, r));
            assert(old_self.slot(k, r) is Stack);
            let i = choose|i: int| 0 <= i < s.len() && names(s[i], k, r);
            assert(i != n);
            assert(names(s2[i], k, r));
        }
        t
    }

    /// Pops a value from the virtual stack.
    ///
    /// When the top of stack is in a register, that register is freed and
    /// returned with no command.  When the register part of the stack is empty,
    /// the first free register of `kind` is loaded from the native stack
    /// (`Pop`) and returned.
    pub fn pop(&mut self, kind: usize) -> (res: (Target, Vec<Cmd>))
        requires
            old(self).wf(),
            old(self).stack().len() > 0 || (kind < old(self).kinds() && old(self).has_empty(kind as int)),
        ensures
            final(self).wf(),
            pop_post(*old(self), *final(self), kind, (res.0, res.1@)),
    {
        proof { self.lemma_wf_basics(); }
        if self.tos.is_some() {
            let t = self.unstack_top(RegAllocFrame::Empty);
            (t, Vec::new())
        } else {
            match self.find_empty(kind) {
                Some(r) => {
                    let t = Target { reg: r, kind };
                    let mut c = Vec::new();
                    c.push(Cmd::Pop(t));
                    (t, c)
                },
                None => {
                    assert(false);
                    (Target { reg: 0, kind }, Vec::new())
                },
            }
        }
    }

    /// Pops a value from the virtual stack into a local variable slot.
    ///
    /// The register holding the value now caches local `target`.  When the
    /// register part of the stack is empty, the value is first loaded from the
    /// native stack into the first free register of `kind` (`Pop`).
    pub fn pop_local(&mut self, kind: usize, target: u32) -> (cmds: Vec<Cmd>)
        requires
            old(self).wf(),
            old(self).stack().len() > 0 || (kind < old(self).kinds() && old(self).has_empty(kind as int)),
        ensures
            final(self).wf(),
            pop_local_post(*old(self), *final(self), kind, target, cmds@),
    {
        reveal(RegAlloc::wf);
        proof { self.lemma_wf_basics(); }
        if self.tos.is_some() {
            self.unstack_top(RegAllocFrame::Local(target));
            Vec::new()
        } else {
            match self.find_empty(kind) {
                Some(r) => {
                    let t = Target { reg: r, kind };
                    let ghost old_self = *self;
                    self.set(t, RegAllocFrame::Local(target));
                    assert forall|k: int, r2: int|
                        0 <= k < self.kinds() && 0 <= r2 < self.regs() && (#[trigger] self.slot(k, r2) is Stack) implies
                        exists|i: int| 0 <= i < self.stack().len() && names(self.stack()[i], k, r2) by {
                        assert(old_self.slot(k, r2) is Stack);
                    }
                    let mut c = Vec::new();
                    c.push(Cmd::Pop(t));
                    assert(old_self.first_empty(kind as int, r as int));
                    c
                },
                None => {
                    assert(false);
                    Vec::new()
                },
            }
        }
    }

    /// The stack register directly above the lowest one.
    fn find_above(&self, t0: Target) -> (t: Target)
        requires
            self.wf(),
            self.stack().len() >= 2,
            t0 == self.stack()[0],
        ensures
            t == self.stack()[1],
    {
        reveal(RegAlloc::wf);
        let ghost s = self.stack@;
        let mut cur = match self.tos {
            Some(t) => t,
            None => {
                assert(false);
                t0
            },
        };
        let ghost mut j: int = s.len() - 1;
        loop
            invariant
                self.wf(),
                s == self.stack(),
                s.len() >= 2,
                t0 == s[0],
                1 <= j < s.len(),
                cur == s[j],
            decreases j,
        {
            reveal(RegAlloc::wf);
            let f = self.get(cur.kind, cur.reg as usize);
            assert(f == chain_frame(s, j));
            match f {
                RegAllocFrame::Stack { elem: StackElement::Above(v) } => {
                    if v == t0 {
                        assert(j == 1) by {
                            if j != 1 {
                                assert(s[j - 1] != s[0]);
                            }
                        }
                        return cur;
                    }
                    proof {
                        j = j - 1;
                    }
                    cur = v;
                },
                _ => {
                    assert(false);
                    return cur;
                },
            }
        }
    }

    /// Frees a register that caches a local.
    #[verifier::rlimit(60)]
    fn free_local(&mut self, t: Target)
        requires
            old(self).wf(),
            old(self).valid_target(t),
            old(self).slot(t.kind as int, t.reg as int) is Local,
        ensures
            final(self).slot(t.kind as int, t.reg as int) == RegAllocFrame::Empty,
            final(self).kinds() == old(self).kinds(),
            final(self).regs() == old(self).regs(),
            final(self).wf(),
            final(self).table() == table_update(old(self).table(), t, RegAllocFrame::Empty),
            final(self).stack() == old(self).stack(),
    {
        reveal(RegAlloc::wf);
        let ghost s = self.stack@;
        let ghost old_self = *self;
        proof { self.lemma_off_chain(t); }
        self.set(t, RegAllocFrame::Empty);
        assert forall|k2: int, r2: int|
            0 <= k2 < self.kinds() && 0 <= r2 < self.regs() && (#[trigger] self.slot(k2, r2) is Stack) implies
            exists|j: int| 0 <= j < s.len() && names(s[j], k2, r2) by {
            assert(old_self.slot(k2, r2) is Stack);
        }
    }

    /// Spills the lowest register-resident stack element `t` (not the top):
    /// it is freed and the element above it becomes the lowest.
    #[verifier::rlimit(60)]
    fn spill_bottom(&mut self, t: Target)
        requires
            old(self).wf(),
            old(self).valid_target(t),
            old(self).slot(t.kind as int, t.reg as int) == (RegAllocFrame::Stack { elem: StackElement::Native }),
            old(self).top() != Some(t),
        ensures
            final(self).slot(t.kind as int, t.reg as int) == RegAllocFrame::Empty,
            final(self).kinds() == old(self).kinds(),
            final(self).regs() == old(self).regs(),
            final(self).wf(),
            old(self).stack().len() >= 2,
            t == old(self).stack()[0],
            final(self).table() == table_update(
                table_update(old(self).table(), t, RegAllocFrame::Empty),
                old(self).stack()[1],
                RegAllocFrame::Stack { elem: StackElement::Native },
            ),
            final(self).stack() == old(self).stack().drop_first(),
    {
        reveal(RegAlloc::wf);
        let ghost s = self.stack@;
        let ghost old_self = *self;
        let ghost i0 = choose|j: int| 0 <= j < s.len() && names(s[j], t.kind as int, t.reg as int);
        assert(s[i0] == t);
        assert(old_self.slot(t.kind as int, t.reg as int) == chain_frame(s, i0));
        assert(i0 == 0);
        assert(s.len() >= 2);
        let above = self.find_above(t);
        self.set(t, RegAllocFrame::Empty);
        self.set(above, RegAllocFrame::Stack { elem: StackElement::Native });
        self.stack = Ghost(s.drop_first());
        let ghost s2 = s.drop_first();
        assert forall|j: int| 0 <= j < s2.len() implies self.valid_target(#[trigger] s2[j])
            && self.slot(s2[j].kind as int, s2[j].reg as int) == chain_frame(s2, j) by {
            assert(s2[j] == s[j + 1]);
            assert(s[j + 1] != s[0]);
            if j > 0 {
                assert(s[j + 1] != s[1]);
                assert(old_self.slot(s[j + 1].kind as int, s[j + 1].reg as int) == chain_frame(s, j + 1));
            }
        }
        assert forall|a: int, b: int| 0 <= a < b < s2.len() implies s2[a] != s2[b] by {
            assert(s2[a] == s[a + 1] && s2[b] == s[b + 1]);
        }
        assert forall|k2: int, r2: int|
            0 <= k2 < self.kinds() && 0 <= r2 < self.regs() && (#[trigger] self.slot(k2, r2) is Stack) implies
            exists|j: int| 0 <= j < s2.len() && names(s2[j], k2, r2) by {
            if names(above, k2, r2) {
                assert(names(s2[0], k2, r2));
            } else {
                assert(!names(t, k2, r2));
                assert(old_self.slot(k2, r2) is Stack);
                let j = choose|j: int| 0 <= j < s.len() && names(s[j], k2, r2);
                assert(j != 0);
                assert(names(s2[j - 1], k2, r2));
            }
        }
    }

    /// `evictable` holds of register `r` of kind `k`.
    pub open spec fn evictable_at(self, k: int, r: int) -> bool {
        evictable(self.slot(k, r), Target { reg: r as u8, kind: k as usize }, self.stack())
    }

    /// Register `r` of kind `k` is the first one that [`RegAlloc::evict`]
    /// may hand out, registers taken by number and, for one number, kind by
    /// kind.
    pub open spec fn first_evictable(self, k: int, r: int) -> bool {
        &&& 0 <= k < self.kinds()
        &&& 0 <= r < self.regs()
        &&& self.evictable_at(k, r)
        &&& forall|r2: int, k2: int|
            0 <= r2 < self.regs() && 0 <= k2 < self.kinds() && (r2 < r || (r2 == r && k2 < k))
                ==> !#[trigger] self.evictable_at(k2, r2)
    }

    /// Some register of some kind may be handed out by [`RegAlloc::evict`].
    pub open spec fn has_evictable(self) -> bool {
        exists|k: int, r: int| 0 <= k < self.kinds() && 0 <= r < self.regs() && #[trigger] self.evictable_at(k, r)
    }

    /// Frees one register, of any kind, as in a spill: the first free
    /// register needs no command; a register caching a local writes it back
    /// (`SetLocal`); the lowest register of the stack, when it is not the
    /// top, is pushed to the native stack (`Push`) and the register above it
    /// becomes the lowest.  Registers are searched by number and, for one
    /// number, kind by kind; the top of stack and reserved registers are never
    /// taken.  Returns `None`, with no change, when no register can be freed.
    #[verifier::rlimit(60)]
    pub fn evict(&mut self) -> (res: Option<(Target, Vec<Cmd>)>)
        requires
            old(self).wf(),
        ensures
            final(self).wf(),
            res is Some <==> old(self).has_evictable(),
            match res {
                Some((t, cmds)) => {
                    &&& old(self).first_evictable(t.kind as int, t.reg as int)
                    &&& (cmds@, final(self).table(), final(self).stack()) == evicted(
                        old(self).table(),
                        old(self).stack(),
                        t,
                    )
                },
                None => {
                    &&& final(self).table() == old(self).table()
                    &&& final(self).stack() == old(self).stack()
                },
            },
    {
        proof { self.lemma_wf_basics(); }
        let ghost pre = *self;
        let nk = self.frames.len();
        let n = self.frames[0].len();
        assert(self.table()[0] == self.frames@[0]@);
        let mut r: usize = 0;
        while r < n
            invariant
                *self == pre,
                pre == *old(self),
                pre.wf(),
                nk == pre.kinds(),
                n == pre.regs(),
                pre.shape(),
                r <= n,
                forall|r2: int, k2: int|
                    0 <= r2 < r && 0 <= k2 < nk ==> !#[trigger] pre.evictable_at(k2, r2),
            decreases n - r,
        {
            let mut k: usize = 0;
            while k < nk
                invariant
                    *self == pre,
                    pre == *old(self),
                    pre.wf(),
                    nk == pre.kinds(),
                    n == pre.regs(),
                    pre.shape(),
                    r < n,
                    k <= nk,
                    forall|r2: int, k2: int|
                        0 <= r2 < self.regs() && 0 <= k2 < nk && (r2 < r || (r2 == r && k2 < k))
                            ==> !#[trigger] pre.evictable_at(k2, r2),
                decreases nk - k,
            {
                let t = Target { reg: r as u8, kind: k };
                let f = self.get(k, r);
                let is_top = match self.tos {
                    Some(a) => a == t,
                    None => false,
                };
                proof {
                    reveal(RegAlloc::wf);
                    assert(pre.top() == if pre.stack().len() == 0 { None::<Target> } else { Some(pre.stack().last()) });
                    assert(t.reg as int == r as int);
                    assert(pre.first_evictable(k as int, r as int) <== pre.evictable_at(k as int, r as int));
                }
                match f {
                    RegAllocFrame::Empty => {
                        assert(pre.evictable_at(k as int, r as int));
                        assert(pre.has_evictable());
                        let cmds: Vec<Cmd> = Vec::new();
                        assert(cmds@ =~= Seq::<Cmd>::empty());
                        return Some((t, cmds));
                    },
                    RegAllocFrame::Local(l) => {
                        assert(pre.evictable_at(k as int, r as int));
                        assert(pre.has_evictable());
                        self.free_local(t);
                        let mut cmds: Vec<Cmd> = Vec::new();
                        cmds.push(Cmd::SetLocal { src: t, local: l });
                        assert(cmds@ =~= seq![Cmd::SetLocal { src: t, local: l }]);
                        return Some((t, cmds));
                    },
                    RegAllocFrame::Stack { elem: StackElement::Native } => {
                        if !is_top {
                            assert(pre.evictable_at(k as int, r as int));
                            assert(pre.has_evictable());
                            self.spill_bottom(t);
                            let mut cmds: Vec<Cmd> = Vec::new();
                            cmds.push(Cmd::Push(t));
                            assert(cmds@ =~= seq![Cmd::Push(t)]);
                            return Some((t, cmds));
                        }
                    },
                    _ => {},
                }
                k = k + 1;
            }
            r = r + 1;
        }
        None
    }

    /// Makes room for a new value in kind `k`, as [`RegAlloc::room`] says:
    /// hands out the first free register of the kind with no command, else
    /// writes back the first one caching a local, else spills the stack chain
    /// from its lowest register up to its lowest register of the kind.
    /// Returns `None`, with no change, when the kind has none of these.
    #[verifier::rlimit(100)]
    #[verifier::spinoff_prover]
    fn make_room(&mut self, k: usize) -> (res: Option<(Target, Vec<Cmd>)>)
        requires
            old(self).wf(),
            k < old(self).kinds(),
        ensures
            final(self).wf(),
            res is Some <==> old(self).can_make_room(k),
            match res {
                Some((t, cmds)) => {
                    &&& t == old(self).room(k).0
                    &&& t.kind == k
                    &&& final(self).valid_target(t)
                    &&& final(self).slot(t.kind as int, t.reg as int) == RegAllocFrame::Empty
                    &&& cmds@ == old(self).room(k).1
                    &&& final(self).table() == old(self).room(k).2
                    &&& final(self).stack() == old(self).room(k).3
                },
                None => {
                    &&& final(self).table() == old(self).table()
                    &&& final(self).stack() == old(self).stack()
                },
            },
    {
        proof { self.lemma_wf_basics(); }
        let ghost pre = *self;
        match self.find_empty(k) {
            Some(r) => {
                let t = Target { reg: r, kind: k };
                proof {
                    assert(pre.first_empty(k as int, r as int));
                    assert(pre.has_empty(k as int));
                    let r2 = choose|r2: int| pre.first_empty(k as int, r2);
                    assert(pre.first_empty(k as int, r2));
                    assert(r2 == r as int) by {
                        if r2 < r as int {
                            assert(pre.slot(k as int, r2) != RegAllocFrame::Empty);
                        } else if r2 > r as int {
                            assert(pre.slot(k as int, r as int) != RegAllocFrame::Empty);
                        }
                    }
                }
                return Some((t, Vec::new()));
            },
            None => {},
        }
        assert(!pre.has_empty(k as int));
        match self.find_cached(k) {
            Some((r, l)) => {
                let t = Target { reg: r, kind: k };
                self.free_local(t);
                let mut cmds = Vec::new();
                cmds.push(Cmd::SetLocal { src: t, local: l });
                proof {
                    assert(pre.first_cached(k as int, r as int));
                    assert(pre.has_cached(k as int));
                    let r2 = choose|r2: int| pre.first_cached(k as int, r2);
                    assert(pre.first_cached(k as int, r2));
                    assert(r2 == r as int) by {
                        if r2 < r as int {
                            assert(!(pre.slot(k as int, r2) is Local));
                        } else if r2 > r as int {
                            assert(!(pre.slot(k as int, r as int) is Local));
                        }
                    }
                    assert(cmds@ =~= pre.room(k).1);
                }
                return Some((t, cmds));
            },
            None => {},
        }
        assert(!pre.has_cached(k as int));
        match self.spill_through(k) {
            Some((j, t, cmds)) => {
                proof {
                    let s0 = pre.stack();
                    assert(chain_has_kind(s0, k));
                    let j2 = choose|j2: int| first_of_kind(s0, k, j2);
                    assert(first_of_kind(s0, k, j2));
                    assert(j2 == j as int) by {
                        if j2 < j as int {
                            assert(s0[j2].kind != k);
                        } else if j2 > j as int {
                            assert(s0[j as int].kind != k);
                        }
                    }
                }
                Some((t, cmds))
            },
            None => None,
        }
    }

    /// Spills the stack chain to the native stack, lowest register first, up
    /// to and including its lowest register of kind `k`, which is returned
    /// with its position in the chain; `None`, with no change, when the chain
    /// holds no register of that kind.
    #[verifier::rlimit(100)]
    #[verifier::spinoff_prover]
    fn spill_through(&mut self, k: usize) -> (res: Option<(usize, Target, Vec<Cmd>)>)
        requires
            old(self).wf(),
        ensures
            final(self).wf(),
            res is Some <==> chain_has_kind(old(self).stack(), k),
            match res {
                Some((j, t, cmds)) => {
                    &&& first_of_kind(old(self).stack(), k, j as int)
                    &&& t == old(self).stack()[j as int]
                    &&& final(self).valid_target(t)
                    &&& final(self).slot(t.kind as int, t.reg as int) == RegAllocFrame::Empty
                    &&& cmds@ == pushes(old(self).stack().take(j + 1))
                    &&& final(self).table() == spilled(old(self).table(), old(self).stack(), j + 1)
                    &&& final(self).stack() == old(self).stack().skip(j + 1)
                },
                None => {
                    &&& final(self).table() == old(self).table()
                    &&& final(self).stack() == old(self).stack()
                },
            },
    {
        let ghost pre = *self;
        let chain = self.chain_targets();
        let mut j: usize = 0;
        while j < chain.len() && chain[j].kind != k
            invariant
                chain@ == pre.stack(),
                j <= chain@.len(),
                forall|i: int| 0 <= i < j ==> chain@[i].kind != k,
            decreases chain@.len() - j,
        {
            j = j + 1;
        }
        if j == chain.len() {
            assert(!chain_has_kind(pre.stack(), k));
            return None;
        }
        let ghost s0 = chain@;
        let ghost tab0 = self.table();
        proof {
            assert(first_of_kind(s0, k, j as int));
            reveal(RegAlloc::wf);
            assert(pre.valid_target(s0[j as int]));
            assert(s0.skip(0) =~= s0);
            assert(s0.take(0) =~= Seq::<Target>::empty());
            assert(pushes(Seq::<Target>::empty()) =~= Seq::<Cmd>::empty());
        }
        let mut cmds: Vec<Cmd> = Vec::new();
        let mut i: usize = 0;
        while i <= j
            invariant
                self.wf(),
                chain@ == s0,
                s0 == pre.stack(),
                j < s0.len(),
                j < chain.len(),
                i <= j + 1,
                self.kinds() == pre.kinds(),
                self.regs() == pre.regs(),
                self.table() == spilled(tab0, s0, i as int),
                self.stack() == s0.skip(i as int),
                cmds@ == pushes(s0.take(i as int)),
                i > 0 ==> self.slot(s0[i - 1].kind as int, s0[i - 1].reg as int) == RegAllocFrame::Empty,
            decreases j + 1 - i,
        {
            let t = chain[i];
            let ghost before = *self;
            self.spill_lowest(t);
            proof {
                lemma_spilled_step(tab0, s0, i as int);
                assert(self.stack() =~= s0.skip(i + 1));
                assert(s0.take(i + 1) =~= s0.take(i as int).push(t));
            }
            cmds.push(Cmd::Push(t));
            assert(cmds@ =~= pushes(s0.take(i + 1)));
            i = i + 1;
        }
        let t = chain[j];
        Some((j, t, cmds))
    }

    /// Spills the lowest register `t` of the stack chain to the native stack.
    #[verifier::rlimit(60)]
    fn spill_lowest(&mut self, t: Target)
        requires
            old(self).wf(),
            old(self).stack().len() > 0,
            t == old(self).stack()[0],
        ensures
            final(self).wf(),
            final(self).kinds() == old(self).kinds(),
            final(self).regs() == old(self).regs(),
            final(self).slot(t.kind as int, t.reg as int) == RegAllocFrame::Empty,
            final(self).table() == spilled(old(self).table(), old(self).stack(), 1),
            final(self).stack() == old(self).stack().drop_first(),
    {
        proof {
            reveal(RegAlloc::wf);
            self.lemma_wf_basics();
            assert(self.slot(t.kind as int, t.reg as int) == chain_frame(self.stack(), 0));
        }
        let ghost s = self.stack();
        if self.tos == Some(t) {
            assert(s.len() == 1) by {
                if s.len() > 1 {
                    assert(s[s.len() - 1] != s[0]);
                }
            }
            let top = self.unstack_top(RegAllocFrame::Empty);
            assert(self.stack() =~= s.drop_first());
        } else {
            self.spill_bottom(t);
        }
        proof {
            reveal_with_fuel(spilled, 2);
        }
    }

    /// The first register of kind `k` caching a local, and that local.
    fn find_cached(&self, k: usize) -> (res: Option<(u8, u32)>)
        requires
            self.shape(),
            k < self.kinds(),
        ensures
            match res {
                Some((r, l)) => self.first_cached(k as int, r as int) && self.slot(k as int, r as int)
                    == RegAllocFrame::Local(l),
                None => forall|r2: int| 0 <= r2 < self.regs() ==> !(#[trigger] self.slot(k as int, r2) is Local),
            },
    {
        let n = self.frames[0].len();
        assert(self.table()[0] == self.frames@[0]@);
        let mut i: usize = 0;
        while i < n
            invariant
                n == self.regs(),
                i <= n,
                self.shape(),
                k < self.kinds(),
                forall|r2: int| 0 <= r2 < i ==> !(#[trigger] self.slot(k as int, r2) is Local),
            decreases n - i,
        {
            match self.get(k, i) {
                RegAllocFrame::Local(l) => {
                    return Some((i as u8, l));
                },
                _ => {},
            }
            i = i + 1;
        }
        None
    }
}


impl RegAlloc {
    /// Pushes a new value onto the virtual stack.
    ///
    /// Allocates a register of kind `k` for the new value and returns the
    /// commands needed to make room, as [`RegAlloc::room`] says: the first free
    /// register of the kind needs none; else the first register of the kind
    /// caching a local is written back; else the register-resident stack is
    /// spilled to the native stack, lowest register first and across kinds,
    /// until a register of kind `k` is free.  Fails, with no change, exactly
    /// when kind `k` has no register that is free, caches a local or holds a
    /// stack value (all are reserved).
    #[verifier::rlimit(60)]
    pub fn push(&mut self, k: usize) -> (res: Result<(u8, Vec<Cmd>), ()>)
        requires
            old(self).wf(),
            k < old(self).kinds(),
        ensures
            final(self).wf(),
            res is Ok <==> old(self).can_make_room(k),
            push_post(*old(self), *final(self), k, match res {
                Ok((r, cmds)) => Ok((r, cmds@)),
                Err(e) => Err(e),
            }),
    {
        match self.make_room(k) {
            Some((t, cmds)) => {
                proof { self.lemma_wf_basics(); }
                self.stack_onto(t);
                Ok((t.reg, cmds))
            },
            None => Err(()),
        }
    }

    /// The outcome of [`RegAlloc::push_local`] when it puts local `src`
    /// into register `r` of `kind`, going from `self` to `post` with `cmds`.
    #[verifier::opaque]
    pub open spec fn push_local_outcome(self, post: Self, kind: usize, src: u32, r: int, cmds: Seq<Cmd>) -> bool {
        let t = Target { reg: r as u8, kind };
        if self.has_local(kind as int, src) {
            &&& self.first_local(kind as int, r, src)
            &&& cmds == Seq::<Cmd>::empty()
            &&& post.table() == table_update(self.table(), t, pushed_frame(self.stack()))
            &&& post.stack() == self.stack().push(t)
        } else {
            let (t2, c, tab, s) = self.room(kind);
            &&& self.can_make_room(kind)
            &&& t2 == t
            &&& cmds == c.push(Cmd::GetLocal { dest: t, local: src })
            &&& post.table() == table_update(tab, t, pushed_frame(s))
            &&& post.stack() == s.push(t)
        }
    }

    /// Pushes a local variable onto the virtual stack.
    ///
    /// A register of `kind` already caching local `src` becomes the new top of
    /// stack with no command.  Otherwise room is made in `kind` as by
    /// [`RegAlloc::push`] and the local is loaded into that register
    /// (`GetLocal`, after the commands that made room).  Fails, with no change,
    /// when no register can be had.
    #[verifier::rlimit(60)]
    pub fn push_local(&mut self, kind: usize, src: u32) -> (res: Result<Vec<Cmd>, ()>)
        requires
            old(self).wf(),
            kind < old(self).kinds(),
        ensures
            final(self).wf(),
            res is Ok <==> (old(self).has_local(kind as int, src) || old(self).can_make_room(kind)),
            match res {
                Ok(cmds) => old(self).push_local_outcome(*final(self), kind, src, final(self).stack().last().reg as int, cmds@),
                Err(()) => {
                    &&& final(self).table() == old(self).table()
                    &&& final(self).stack() == old(self).stack()
                },
            },
    {
        proof { self.lemma_wf_basics(); }
        let ghost old_self = *self;
        match self.find_local(kind, src) {
            Some(r) => {
                let t = Target { reg: r, kind };
                self.stack_onto(t);
                let cmds = Vec::new();
                assert(cmds@ =~= Seq::<Cmd>::empty());
                proof { lemma_outcome_cached(old_self, *self, kind, src, r as int, cmds@); }
                assert(old_self.has_local(kind as int, src));
                return Ok(cmds);
            },
            None => {},
        }
        self.push_fresh_local(kind, src)
    }

    #[verifier::rlimit(60)]
    fn push_fresh_local(&mut self, kind: usize, src: u32) -> (res: Result<Vec<Cmd>, ()>)
        requires
            old(self).wf(),
            kind < old(self).kinds(),
            !old(self).has_local(kind as int, src),
        ensures
            final(self).wf(),
            res is Ok <==> old(self).can_make_room(kind),
            match res {
                Ok(cmds) => old(self).push_local_outcome(*final(self), kind, src, final(self).stack().last().reg as int, cmds@),
                Err(()) => {
                    &&& final(self).table() == old(self).table()
                    &&& final(self).stack() == old(self).stack()
                },
            },
    {
        proof { self.lemma_wf_basics(); }
        let ghost old_self = *self;
        match self.make_room(kind) {
            Some((t, c)) => {
                let ghost mid = *self;
                proof { self.lemma_wf_basics(); }
                self.stack_onto(t);
                let mut cmds = c;
                cmds.push(Cmd::GetLocal { dest: t, local: src });
                proof { lemma_outcome_fresh(old_self, mid, *self, kind, src, t.reg as int, cmds@); }
                Ok(cmds)
            },
            None => Err(()),
        }
    }
}

proof fn lemma_outcome_cached(pre: RegAlloc, post: RegAlloc, kind: usize, src: u32, r: int, cmds: Seq<Cmd>)
    requires
        pre.first_local(kind as int, r, src),
        cmds == Seq::<Cmd>::empty(),
        post.table() == table_update(pre.table(), Target { reg: r as u8, kind }, pushed_frame(pre.stack())),
        post.stack() == pre.stack().push(Target { reg: r as u8, kind }),
    ensures
        pre.push_local_outcome(post, kind, src, r, cmds),
{
    reveal(RegAlloc::push_local_outcome);
    assert(pre.has_local(kind as int, src));
}

proof fn lemma_outcome_fresh(pre: RegAlloc, mid: RegAlloc, post: RegAlloc, kind: usize, src: u32, r: int, cmds: Seq<Cmd>)
    requires
        !pre.has_local(kind as int, src),
        pre.can_make_room(kind),
        pre.room(kind).0 == (Target { reg: r as u8, kind }),
        mid.table() == pre.room(kind).2,
        mid.stack() == pre.room(kind).3,
        cmds == pre.room(kind).1.push(Cmd::GetLocal { dest: Target { reg: r as u8, kind }, local: src }),
        post.table() == table_update(mid.table(), Target { reg: r as u8, kind }, pushed_frame(mid.stack())),
        post.stack() == mid.stack().push(Target { reg: r as u8, kind }),
    ensures
        pre.push_local_outcome(post, kind, src, r, cmds),
{
    reveal(RegAlloc::push_local_outcome);
}


/// The frame table after every register has been flushed.
pub open spec fn flushed_table(tab: Seq<Seq<RegAllocFrame>>) -> Seq<Seq<RegAllocFrame>> {
    tab.map_values(|row: Seq<RegAllocFrame>| row.map_values(|f: RegAllocFrame| flushed(f)))
}

/// One `Push` command for each target, in order.
pub open spec fn pushes(s: Seq<Target>) -> Seq<Cmd> {
    s.map_values(|t: Target| Cmd::Push(t))
}

impl RegAlloc {
    /// The register-resident stack chain, bottom first.
    fn chain_targets(&self) -> (v: Vec<Target>)
        requires
            self.wf(),
        ensures
            v@ == self.stack(),
    {
        reveal(RegAlloc::wf);
        let ghost s = self.stack@;
        let mut rev: Vec<Target> = Vec::new();
        let mut cur = self.tos;
        let ghost mut j: int = s.len() as int;
        loop
            invariant
                self.wf(),
                s == self.stack(),
                0 <= j <= s.len(),
                rev@.len() == s.len() - j,
                forall|m: int| 0 <= m < rev@.len() ==> rev@[m] == s[s.len() - 1 - m],
                cur == (if j == 0 { None::<Target> } else { Some(s[j - 1]) }),
            ensures
                j == 0,
                rev@.len() == s.len(),
                forall|m: int| 0 <= m < rev@.len() ==> rev@[m] == s[s.len() - 1 - m],
            decreases j,
        {
            match cur {
                None => break,
                Some(t) => {
                    reveal(RegAlloc::wf);
                    rev.push(t);
                    let f = self.get(t.kind, t.reg as usize);
                    assert(f == chain_frame(s, j - 1));
                    cur = match f {
                        RegAllocFrame::Stack { elem: StackElement::Above(v) } => Some(v),
                        _ => None,
                    };
                    proof {
                        j = j - 1;
                    }
                },
            }
        }
        let mut v: Vec<Target> = Vec::new();
        let n = rev.len();
        let mut i = n;
        while i > 0
            invariant
                n == rev@.len(),
                n == s.len(),
                i <= n,
                forall|m: int| 0 <= m < n ==> rev@[m] == s[n - 1 - m],
                v@ == s.subrange(0, (n - i) as int),
            decreases i,
        {
            i = i - 1;
            v.push(rev[i]);
            assert(v@ =~= s.subrange(0, (n - i) as int));
        }
        assert(v@ =~= s);
        v
    }

    /// Flushes all registers to their backing stores.
    ///
    /// The register-resident stack is pushed to the native stack, lowest
    /// element first, then every cached local is written back, kind by kind and
    /// register by register.  Afterwards no register holds a stack value or a
    /// local, and the virtual stack lives entirely on the native stack.
    #[verifier::rlimit(60)]
    pub fn flush(&mut self) -> (cmds: Vec<Cmd>)
        requires
            old(self).wf(),
        ensures
            final(self).wf(),
            cmds@ == pushes(old(self).stack()) + table_stores(old(self).table(), old(self).kinds() as int),
            final(self).stack() == Seq::<Target>::empty(),
            final(self).table() == flushed_table(old(self).table()),
    {
        proof { self.lemma_wf_basics(); }
        let ghost old_tab = self.table();
        let ghost s = self.stack@;
        let chain = self.chain_targets();
        let mut cmds: Vec<Cmd> = Vec::new();
        let mut i: usize = 0;
        while i < chain.len()
            invariant
                chain@ == s,
                i <= chain@.len(),
                cmds@ == pushes(s.subrange(0, i as int)),
            decreases chain@.len() - i,
        {
            cmds.push(Cmd::Push(chain[i]));
            assert(cmds@ =~= pushes(s.subrange(0, i + 1)));
            i = i + 1;
        }
        assert(s.subrange(0, s.len() as int) =~= s);
        let ghost pre = cmds@;
        assert(self.table()[0] == self.frames@[0]@);
        let nk = self.frames.len();
        let n = self.frames[0].len();
        assert(nk == self.kinds());
        let mut k: usize = 0;
        while k < nk
            invariant
                nk == old_tab.len(),
                n == old_tab[0].len(),
                k <= nk,
                self.shape(),
                self.kinds() == nk,
                self.regs() == n,
                forall|kk: int| 0 <= kk < nk ==> #[trigger] old_tab[kk].len() == n,
                forall|kk: int, rr: int|
                    0 <= kk < nk && 0 <= rr < n ==> #[trigger] self.slot(kk, rr) == if kk < k {
                        flushed(old_tab[kk][rr])
                    } else {
                        old_tab[kk][rr]
                    },
                cmds@ == pre + table_stores(old_tab, k as int),
            decreases nk - k,
        {
            let mut r: usize = 0;
            while r < n
                invariant
                    nk == old_tab.len(),
                    n == old_tab[0].len(),
                    k < nk,
                    r <= n,
                    self.shape(),
                    self.kinds() == nk,
                    self.regs() == n,
                    forall|kk: int| 0 <= kk < nk ==> #[trigger] old_tab[kk].len() == n,
                    forall|kk: int, rr: int|
                        0 <= kk < nk && 0 <= rr < n ==> #[trigger] self.slot(kk, rr) == if kk < k || (kk
                            == k && rr < r) {
                            flushed(old_tab[kk][rr])
                        } else {
                            old_tab[kk][rr]
                        },
                    cmds@ == pre + table_stores(old_tab, k as int) + row_stores(old_tab[k as int], k, r as int),
                decreases n - r,
            {
                let t = Target { reg: r as u8, kind: k };
                let f = self.get(k, r);
                let ghost before = *self;
                assert(f == old_tab[k as int][r as int]);
                match f {
                    RegAllocFrame::Local(l) => {
                        cmds.push(Cmd::SetLocal { src: t, local: l });
                        self.set(t, RegAllocFrame::Empty);
                    },
                    RegAllocFrame::Stack { .. } => {
                        self.set(t, RegAllocFrame::Empty);
                    },
                    _ => {},
                }
                assert forall|kk: int, rr: int|
                    0 <= kk < nk && 0 <= rr < n implies #[trigger] self.slot(kk, rr) == if kk < k || (kk
                        == k && rr < r + 1) {
                        flushed(old_tab[kk][rr])
                    } else {
                        old_tab[kk][rr]
                    } by {
                    if kk == k && rr == r {
                    } else {
                        assert(self.slot(kk, rr) == before.slot(kk, rr));
                    }
                }
                assert(cmds@ =~= pre + table_stores(old_tab, k as int) + row_stores(old_tab[k as int], k, r + 1));
                r = r + 1;
            }
            assert(cmds@ =~= pre + table_stores(old_tab, k + 1));
            k = k + 1;
        }
        assert forall|kk: int| 0 <= kk < nk implies self.table()[kk] =~= flushed_table(old_tab)[kk] by {
            assert(self.table()[kk].len() == n);
            assert forall|rr: int| 0 <= rr < n implies self.table()[kk][rr] == flushed_table(old_tab)[kk][rr] by {
                assert(self.slot(kk, rr) == flushed(old_tab[kk][rr]));
            }
        }
        assert(self.table() =~= flushed_table(old_tab));
        assert forall|kk: int, rr: int|
            0 <= kk < self.kinds() && 0 <= rr < self.regs() implies !(#[trigger] self.slot(kk, rr) is Stack) by {
            assert(self.slot(kk, rr) == flushed(old_tab[kk][rr]));
        }
        let ghost fin = *self;
        self.tos = None;
        self.stack = Ghost(Seq::empty());
        assert(self.table() == fin.table());
        reveal(RegAlloc::wf);
        cmds
    }
}

} // verus!
