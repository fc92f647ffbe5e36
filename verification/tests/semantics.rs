use asm_arch::common::Reg;
use asm_arch::semantics::{Arg, ArgKind, BitLength, MemArgKind, PredicateBox, PredicateTree, Semantic, Val};
use portal_pc_asm_common::types::ops::{Arith, Cmp};

fn arg(kind: ArgKind) -> Arg<ArgKind> {
    Arg { kind, bit_start: 0, bit_length: BitLength(64) }
}

#[test]
fn semantic_of_a_conditional_add() {
    let sum = Val::Bin { left: arg(ArgKind::FixedReg(Reg(0))), op: Arith::Add, right: arg(ArgKind::Lit(1)) };
    let keep = Val::Just { value: arg(ArgKind::FixedReg(Reg(0))) };
    let tree = PredicateTree::Compare {
        left: arg(ArgKind::Previous(0)),
        op: Cmp::Eq,
        right: arg(ArgKind::Lit(0)),
        if_true: PredicateBox(Box::new(PredicateTree::Just(vec![(sum, BitLength(64))]))),
        if_false: PredicateBox(Box::new(PredicateTree::Just(vec![(keep, BitLength(64))]))),
    };
    let dest: Arg<MemArgKind> = Arg { kind: MemArgKind::Arg(ArgKind::FixedReg(Reg(0))), bit_start: 0, bit_length: BitLength(64) };
    let sem = Semantic { wrapped: vec![(dest, tree)] };
    let entries = sem.entries();
    assert_eq!(entries.len(), 1);
    match &entries[0].1 {
        PredicateTree::Compare { if_true, .. } => match if_true.tree() {
            PredicateTree::Just(vals) => assert!(vals[0].0 == Val::Bin {
                left: arg(ArgKind::FixedReg(Reg(0))),
                op: Arith::Add,
                right: arg(ArgKind::Lit(1)),
            }),
            _ => panic!("expected values"),
        },
        _ => panic!("expected a comparison"),
    }
    assert_eq!(entries[0].0.kind, MemArgKind::Arg(ArgKind::FixedReg(Reg(0))));
}
