use asm_arch::regalloc::{Cmd, Length, RegAlloc, RegAllocFrame, StackElement, Target};

fn t(reg: u8) -> Target {
    Target { reg, kind: 0 }
}

fn three_regs() -> RegAlloc {
    RegAlloc::new(vec![vec![RegAllocFrame::Empty, RegAllocFrame::Empty, RegAllocFrame::Reserved]])
}

#[test]
fn push_takes_free_registers_in_order() {
    let mut ra = three_regs();
    assert_eq!(ra.push(0), Ok((0, vec![])));
    assert_eq!(ra.push(0), Ok((1, vec![])));
    assert_eq!(ra.tos(), Some(t(1)));
    let f = ra.frames();
    assert_eq!(f[0][0], RegAllocFrame::Stack { elem: StackElement::Native });
    assert_eq!(f[0][1], RegAllocFrame::Stack { elem: StackElement::Above(t(0)) });
    assert_eq!(f[0][2], RegAllocFrame::Reserved);
}

#[test]
fn push_spills_the_bottom_when_full() {
    let mut ra = three_regs();
    ra.push(0).unwrap();
    ra.push(0).unwrap();
    // no free register: the bottom of the register stack (r0) is spilled
    assert_eq!(ra.push(0), Ok((0, vec![Cmd::Push(t(0))])));
    let f = ra.frames();
    assert_eq!(f[0][1], RegAllocFrame::Stack { elem: StackElement::Native });
    assert_eq!(f[0][0], RegAllocFrame::Stack { elem: StackElement::Above(t(1)) });
}

#[test]
fn push_spills_the_top_when_it_is_the_only_register() {
    let mut ra = RegAlloc::new(vec![vec![RegAllocFrame::Empty, RegAllocFrame::Reserved]]);
    assert_eq!(ra.push(0), Ok((0, vec![])));
    // the only register holds the top of stack: it is spilled and reused
    assert_eq!(ra.push(0), Ok((0, vec![Cmd::Push(t(0))])));
    assert_eq!(ra.tos(), Some(t(0)));
    assert_eq!(ra.frames()[0][0], RegAllocFrame::Stack { elem: StackElement::Native });
}

#[test]
fn push_spills_the_stack_across_kinds() {
    let k1 = |reg: u8| Target { reg, kind: 1 };
    let mut ra = RegAlloc::new(vec![
        vec![RegAllocFrame::Empty, RegAllocFrame::Empty],
        vec![RegAllocFrame::Empty, RegAllocFrame::Reserved],
    ]);
    assert_eq!(ra.push(1), Ok((0, vec![])));
    assert_eq!(ra.push(0), Ok((0, vec![])));
    assert_eq!(ra.push(0), Ok((1, vec![])));
    // kind 0 is full and the lowest stack register is of kind 1: it is
    // spilled first, then the lowest register of kind 0
    assert_eq!(ra.push(0), Ok((0, vec![Cmd::Push(k1(0)), Cmd::Push(t(0))])));
    assert_eq!(ra.tos(), Some(t(0)));
    let f = ra.frames();
    assert_eq!(f[0][1], RegAllocFrame::Stack { elem: StackElement::Native });
    assert_eq!(f[0][0], RegAllocFrame::Stack { elem: StackElement::Above(t(1)) });
    assert_eq!(f[1][0], RegAllocFrame::Empty);
}

#[test]
fn push_writes_back_a_cached_local_before_spilling() {
    let mut ra = RegAlloc::new(vec![vec![RegAllocFrame::Empty, RegAllocFrame::Empty]]);
    ra.push(0).unwrap();
    assert_eq!(ra.push_local(0, 3), Ok(vec![Cmd::GetLocal { dest: t(1), local: 3 }]));
    ra.pop_local(0, 3);
    // r1 caches local 3, r0 holds the stack: the local is written back
    assert_eq!(ra.push(0), Ok((1, vec![Cmd::SetLocal { src: t(1), local: 3 }])));
}

#[test]
fn push_fails_when_every_register_of_the_kind_is_reserved() {
    let mut ra = RegAlloc::new(vec![
        vec![RegAllocFrame::Empty],
        vec![RegAllocFrame::Reserved],
    ]);
    ra.push(0).unwrap();
    assert_eq!(ra.push(1), Err(()));
    assert_eq!(ra.tos(), Some(t(0)));
}

#[test]
fn pop_ignores_the_kind_when_the_top_is_in_a_register() {
    let mut ra = three_regs();
    ra.push(0).unwrap();
    let (popped, cmds) = ra.pop(7);
    assert_eq!(popped, t(0));
    assert!(cmds.is_empty());
    assert_eq!(ra.tos(), None);
}

#[test]
fn push_then_pop_gives_back_the_register() {
    let mut ra = three_regs();
    ra.push(0).unwrap();
    let before = ra.frames().clone();
    let (r, cmds) = ra.push(0).unwrap();
    assert!(cmds.is_empty());
    let (popped, cmds2) = ra.pop(0);
    assert_eq!(popped, t(r));
    assert!(cmds2.is_empty());
    assert_eq!(ra.frames(), &before);
}

#[test]
fn pop_from_native_stack_loads_a_register() {
    let mut ra = three_regs();
    let (target, cmds) = ra.pop(0);
    assert_eq!(target, t(0));
    assert_eq!(cmds, vec![Cmd::Pop(t(0))]);
    assert_eq!(ra.tos(), None);
}

#[test]
fn locals_are_cached_and_written_back() {
    let mut ra = three_regs();
    // load local 7 into a register and push it
    assert_eq!(ra.push_local(0, 7), Ok(vec![Cmd::GetLocal { dest: t(0), local: 7 }]));
    // pop it back into local 7: the register now caches local 7
    assert_eq!(ra.pop_local(0, 7), vec![]);
    assert_eq!(ra.frames()[0][0], RegAllocFrame::Local(7));
    // pushing local 7 again needs no load
    assert_eq!(ra.push_local(0, 7), Ok(vec![]));
    ra.pop_local(0, 7);
    // flushing writes the cached local back and frees the register
    assert_eq!(ra.flush(), vec![Cmd::SetLocal { src: t(0), local: 7 }]);
    assert_eq!(ra.frames()[0][0], RegAllocFrame::Empty);
}

#[test]
fn flush_pushes_the_stack_bottom_first() {
    let mut ra = three_regs();
    ra.push(0).unwrap();
    ra.push(0).unwrap();
    assert_eq!(ra.flush(), vec![Cmd::Push(t(0)), Cmd::Push(t(1))]);
    assert_eq!(ra.tos(), None);
    assert_eq!(ra.frames()[0][0], RegAllocFrame::Empty);
    assert_eq!(ra.frames()[0][1], RegAllocFrame::Empty);
    assert_eq!(ra.frames()[0][2], RegAllocFrame::Reserved);
}

#[test]
fn push_existing_makes_a_free_register_the_top() {
    let mut ra = three_regs();
    assert!(ra.push_existing(t(1)).is_empty());
    assert_eq!(ra.tos(), Some(t(1)));
    assert_eq!(ra.frames()[0][1], RegAllocFrame::Stack { elem: StackElement::Native });
}

#[test]
fn length_of_a_vec() {
    let v = vec![1u8, 2, 3];
    assert_eq!(Length::len(&v), 3);
}

#[test]
fn evict_hands_out_a_free_register_of_any_kind() {
    let mut ra = RegAlloc::new(vec![
        vec![RegAllocFrame::Reserved, RegAllocFrame::Reserved],
        vec![RegAllocFrame::Empty, RegAllocFrame::Empty],
    ]);
    assert_eq!(ra.evict(), Some((Target { reg: 0, kind: 1 }, vec![])));
}

#[test]
fn evict_spills_the_lowest_stack_register_but_never_the_top() {
    let mut ra = RegAlloc::new(vec![vec![RegAllocFrame::Empty, RegAllocFrame::Empty]]);
    ra.push(0).unwrap();
    ra.push_existing(t(1));
    // now r0 is the lowest and r1 the top
    assert_eq!(ra.evict(), Some((t(0), vec![Cmd::Push(t(0))])));
    assert_eq!(ra.frames()[0][1], RegAllocFrame::Stack { elem: StackElement::Native });
    assert_eq!(ra.frames()[0][0], RegAllocFrame::Empty);
    assert_eq!(ra.tos(), Some(t(1)));
    // r0 is free again, so it is what evict hands out next
    assert_eq!(ra.evict(), Some((t(0), vec![])));
}

#[test]
fn evict_writes_back_a_cached_local_and_finds_nothing_else() {
    let mut ra = RegAlloc::new(vec![vec![RegAllocFrame::Empty, RegAllocFrame::Reserved]]);
    ra.push_local(0, 9).unwrap();
    ra.pop_local(0, 9);
    assert_eq!(ra.evict(), Some((t(0), vec![Cmd::SetLocal { src: t(0), local: 9 }])));
    ra.push(0).unwrap();
    // the only usable register holds the top of stack
    assert_eq!(ra.evict(), None);
}

#[test]
fn pop_local_then_push_local_restores_the_stack() {
    let mut ra = three_regs();
    ra.push(0).unwrap();
    ra.push(0).unwrap();
    let frames = ra.frames().clone();
    let tos = ra.tos();
    assert_eq!(ra.pop_local(0, 4), vec![]);
    assert_eq!(ra.push_local(0, 4), Ok(vec![]));
    assert_eq!(ra.frames(), &frames);
    assert_eq!(ra.tos(), tos);
}
