use incin_core::error::Error;
use vstd::seq::Seq;
use incin_core::exec::tape::{
    backward, BackwardRecipe, GradMode, NanCheck, Tape, TapeNode, TapeStorage, TensorId,
};

#[derive(Debug, Clone, PartialEq)]
struct Val {
    id: u64,
    v: i64,
}

impl TapeStorage for Val {
    fn spec_id(&self) -> u64 {
        self.id
    }

    fn spec_ones_like(&self) -> Result<Self, Error> {
        self.ones_like()
    }

    fn spec_accumulate(&self, contribution: Self) -> Result<Self, Error> {
        self.accumulate(&contribution)
    }

    fn spec_has_non_finite(&self) -> bool {
        false
    }

    fn id(&self) -> TensorId {
        TensorId::from_raw(self.id)
    }

    fn ones_like(&self) -> Result<Self, Error> {
        Ok(Val { id: self.id, v: 1 })
    }

    fn accumulate(&self, contribution: &Self) -> Result<Self, Error> {
        Ok(Val { id: self.id, v: self.v + contribution.v })
    }

    fn has_non_finite(&self) -> bool {
        false
    }
}

/// Scales the incoming gradient by one factor per input.
struct Scale(Vec<i64>);

impl BackwardRecipe<Val> for Scale {
    fn spec_apply(&self, _grad: Val) -> Seq<Val> {
        panic!("specification only")
    }

    fn apply(&self, grad: &Val) -> Vec<Val> {
        self.0.iter().map(|f| Val { id: 0, v: grad.v * f }).collect()
    }
}

fn id(n: u64) -> TensorId {
    TensorId::from_raw(n)
}

#[test]
fn a_repeated_input_accumulates_both_contributions() {
    let mut tape: Tape<Val, Scale> = Tape::new();
    // loss(10) = f(a(1), a(1)) with d/da = 2 + 3.
    tape.push(TapeNode::new(id(10), vec![id(1), id(1)], Scale(vec![2, 3])), GradMode::Enabled);
    let loss = Val { id: 10, v: 7 };
    let grads = backward(tape.drain(), &loss, NanCheck::Skip).unwrap();
    assert_eq!(grads.len(), 2);
    assert_eq!(grads.get(id(10)).unwrap().v, 1);
    assert_eq!(grads.get(id(1)).unwrap().v, 5);
    let pairs: Vec<(u64, i64)> = grads.iter().into_iter().map(|(k, g)| (k.get(), g.v)).collect();
    assert_eq!(pairs, vec![(1, 5), (10, 1)]);
}

#[test]
fn the_walk_runs_newest_first_and_chains() {
    let mut tape: Tape<Val, Scale> = Tape::new();
    // b(2) = 4 * a(1); loss(3) = 5 * b(2).
    tape.push(TapeNode::new(id(2), vec![id(1)], Scale(vec![4])), GradMode::Enabled);
    tape.push(TapeNode::new(id(3), vec![id(2)], Scale(vec![5])), GradMode::Enabled);
    assert_eq!(tape.depth(), 2);
    let grads = backward(tape.drain(), &Val { id: 3, v: 0 }, NanCheck::Enforce).unwrap();
    assert_eq!(grads.get(id(2)).unwrap().v, 5);
    assert_eq!(grads.get(id(1)).unwrap().v, 20);
    assert!(tape.is_empty());
}

#[test]
fn a_drained_tape_yields_only_the_seed() {
    let mut tape: Tape<Val, Scale> = Tape::new();
    tape.push(TapeNode::new(id(2), vec![id(1)], Scale(vec![4])), GradMode::Enabled);
    let _ = tape.drain();
    let grads = backward(tape.drain(), &Val { id: 2, v: 0 }, NanCheck::Skip).unwrap();
    assert_eq!(grads.len(), 1);
    assert_eq!(grads.get(id(2)).unwrap().v, 1);
}

#[test]
fn a_disabled_mode_records_nothing_and_unreached_nodes_are_skipped() {
    let mut tape: Tape<Val, Scale> = Tape::new();
    tape.push(TapeNode::new(id(2), vec![id(1)], Scale(vec![4])), GradMode::Disabled);
    assert!(tape.is_empty());
    tape.push(TapeNode::new(id(8), vec![id(7)], Scale(vec![4])), GradMode::Enabled);
    let grads = backward(tape.drain(), &Val { id: 2, v: 0 }, NanCheck::Skip).unwrap();
    assert_eq!(grads.len(), 1);
    assert!(grads.get(id(7)).is_none());
}
