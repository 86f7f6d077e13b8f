//! The call stack: a bounded LIFO of return addresses.

use vstd::prelude::*;

verus! {

/// Greatest number of return addresses the stack holds.
pub const STACK_SIZE: usize = 16;

#[derive(Debug, PartialEq, Eq, Structural, Clone, Copy)]
pub enum StackError {
    /// A push found the stack full.
    StackOverflow,
    /// A pop found the stack empty.
    StackUnderflow,
}

/// The view of a stack is the sequence of the addresses it holds, the
/// oldest first and the top last.
#[derive(Debug)]
pub struct Stack {
    stack: [u16; STACK_SIZE],
    sp: usize,
}

impl View for Stack {
    type V = Seq<u16>;

    closed spec fn view(&self) -> Seq<u16> {
        self.stack@.subrange(0, self.sp as int)
    }
}

/// What a push makes of the held addresses: the value goes on top while
/// there is room, and a full stack stays as it is.
pub open spec fn pushed(held: Seq<u16>, value: u16) -> Seq<u16> {
    if held.len() < STACK_SIZE {
        held.push(value)
    } else {
        held
    }
}

/// What a pop makes of the held addresses: the top leaves, and an empty
/// stack stays empty.
pub open spec fn popped(held: Seq<u16>) -> Seq<u16> {
    if held.len() > 0 {
        held.drop_last()
    } else {
        held
    }
}

/// What a push reports.
pub open spec fn push_result(held: Seq<u16>) -> Result<(), StackError> {
    if held.len() < STACK_SIZE {
        Ok(())
    } else {
        Err(StackError::StackOverflow)
    }
}

/// What a pop hands out.
pub open spec fn pop_result(held: Seq<u16>) -> Result<u16, StackError> {
    if held.len() > 0 {
        Ok(held.last())
    } else {
        Err(StackError::StackUnderflow)
    }
}

/// The held addresses after pushing `values` one by one, first to last.
pub open spec fn pushed_all(held: Seq<u16>, values: Seq<u16>) -> Seq<u16>
    decreases values.len(),
{
    if values.len() == 0 {
        held
    } else {
        pushed(pushed_all(held, values.drop_last()), values.last())
    }
}

/// The addresses that `count` pops hand out, in the order they come.
pub open spec fn popped_values(held: Seq<u16>, count: nat) -> Seq<u16>
    recommends
        count <= held.len(),
    decreases count,
{
    if count == 0 {
        Seq::empty()
    } else {
        seq![held.last()] + popped_values(popped(held), (count - 1) as nat)
    }
}

/// The held addresses after `count` pops.
pub open spec fn popped_times(held: Seq<u16>, count: nat) -> Seq<u16>
    decreases count,
{
    if count == 0 {
        held
    } else {
        popped_times(popped(held), (count - 1) as nat)
    }
}

/// Pushing a run of values that fits puts them on top in order.
pub proof fn lemma_pushed_all_fits(held: Seq<u16>, values: Seq<u16>)
    requires
        held.len() + values.len() <= STACK_SIZE,
    ensures
        pushed_all(held, values) == held + values,
    decreases values.len(),
{
    if values.len() == 0 {
        assert(held + values =~= held);
    } else {
        lemma_pushed_all_fits(held, values.drop_last());
        assert((held + values.drop_last()).push(values.last()) =~= held + values);
    }
}

/// Last in, first out: after pushing a run of values that fits, as many
/// pops hand the values back in reverse order and leave the stack as it
/// was before the pushes.
pub proof fn lemma_push_then_pop_reverses(held: Seq<u16>, values: Seq<u16>)
    requires
        held.len() + values.len() <= STACK_SIZE,
    ensures
        popped_values(pushed_all(held, values), values.len()) == values.reverse(),
        popped_times(pushed_all(held, values), values.len()) == held,
    decreases values.len(),
{
    lemma_pushed_all_fits(held, values);
    if values.len() == 0 {
        assert(values.reverse() =~= Seq::<u16>::empty());
    } else {
        let rest = values.drop_last();
        lemma_pushed_all_fits(held, rest);
        lemma_push_then_pop_reverses(held, rest);
        let full = held + values;
        assert(full.last() == values.last());
        assert(popped(full) =~= held + rest);
        assert(values.reverse() =~= seq![values.last()] + rest.reverse());
    }
}

/// A push onto a full stack is refused and changes nothing, so the
/// entries stay where they were.
pub proof fn lemma_full_stack_refuses_push(held: Seq<u16>, value: u16)
    requires
        held.len() == STACK_SIZE,
    ensures
        push_result(held) == Err::<(), StackError>(StackError::StackOverflow),
        pushed(held, value) == held,
{
}

/// A pop from an empty stack is refused and leaves it empty.
pub proof fn lemma_empty_stack_refuses_pop()
    ensures
        pop_result(Seq::<u16>::empty()) == Err::<u16, StackError>(StackError::StackUnderflow),
        popped(Seq::<u16>::empty()) == Seq::<u16>::empty(),
{
}

/// A pop right after a push that found room hands the pushed value back
/// and leaves the stack as it was before the push.
pub proof fn lemma_pop_undoes_push(held: Seq<u16>, value: u16)
    requires
        held.len() < STACK_SIZE,
    ensures
        push_result(held) == Ok::<(), StackError>(()),
        pop_result(pushed(held, value)) == Ok::<u16, StackError>(value),
        popped(pushed(held, value)) == held,
{
    assert(held.push(value).drop_last() =~= held);
}

impl Stack {
    #[verifier::type_invariant]
    spec fn in_bounds(self) -> bool {
        self.sp <= STACK_SIZE
    }

    /// The `STACK_SIZE` slots behind the stack. The held addresses fill
    /// them from the front; a slot above the top keeps what was last
    /// written there.
    pub closed spec fn storage(&self) -> Seq<u16> {
        self.stack@
    }

    /// An empty stack over zeroed slots.
    pub fn new() -> (stack: Stack)
        ensures
            stack@ == Seq::<u16>::empty(),
            stack.storage() == Seq::new(STACK_SIZE as nat, |slot: int| 0u16),
    {
        let stack = Stack { stack: [0; STACK_SIZE], sp: 0 };
        assert(stack@ =~= Seq::<u16>::empty());
        assert(stack.storage() =~= Seq::new(STACK_SIZE as nat, |slot: int| 0u16));
        stack
    }

    /// The number of addresses held.
    pub fn depth(&self) -> (depth: usize)
        ensures
            depth == self@.len(),
            depth <= STACK_SIZE,
    {
        proof {
            use_type_invariant(self);
        }
        self.sp
    }

    /// A copy of the slots behind the stack.
    pub fn slots(&self) -> (slots: [u16; STACK_SIZE])
        ensures
            slots@ == self.storage(),
            self.storage().len() == STACK_SIZE,
            self.storage().take(self@.len() as int) == self@,
    {
        proof {
            use_type_invariant(self);
        }
        self.stack
    }

    /// Puts `value` on top, or reports a full stack and leaves it as it was.
    pub fn push(&mut self, value: u16) -> (res: Result<(), StackError>)
        ensures
            old(self)@.len() <= STACK_SIZE,
            final(self)@ == pushed(old(self)@, value),
            res == push_result(old(self)@),
            final(self).storage() == if res is Ok {
                old(self).storage().update(old(self)@.len() as int, value)
            } else {
                old(self).storage()
            },
    {
        proof {
            use_type_invariant(&*self);
        }
        if self.sp >= STACK_SIZE {
            return Err(StackError::StackOverflow);
        }
        self.stack[self.sp] = value;
        self.sp += 1;
        assert(self@ =~= old(self)@.push(value));
        Ok(())
    }

    /// Takes the top address off, or reports an empty stack.
    pub fn pop(&mut self) -> (res: Result<u16, StackError>)
        ensures
            old(self)@.len() <= STACK_SIZE,
            final(self)@ == popped(old(self)@),
            res == pop_result(old(self)@),
            final(self).storage() == old(self).storage(),
    {
        proof {
            use_type_invariant(&*self);
        }
        if self.sp == 0 {
            return Err(StackError::StackUnderflow);
        }
        self.sp -= 1;
        assert(self@ =~= old(self)@.drop_last());
        Ok(self.stack[self.sp])
    }
}

} // verus!
