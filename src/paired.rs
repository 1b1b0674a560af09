//! A schema ledger whose steps are pairs of zero-argument operations: a
//! forward one and its inverse, each returning a label.
use vstd::prelude::*;

verus! {

/// A forward operation paired with its inverse.
pub struct Command<F> {
    pub execute: F,
    pub rollback: F,
}

/// Whether both operations of every pair may be called.
pub open spec fn all_callable<F: Fn() -> String>(cmds: Seq<Command<F>>) -> bool {
    forall|i: int|
        0 <= i < cmds.len() ==> call_requires(#[trigger] cmds[i].execute, ()) && call_requires(
            cmds[i].rollback,
            (),
        )
}

/// Whether every call of `f` returns the same label.
pub open spec fn repeatable<F: Fn() -> String>(f: F) -> bool {
    forall|a: String, b: String|
        call_ensures(f, (), a) && call_ensures(f, (), b) ==> #[trigger] a@ == #[trigger] b@
}

/// Where every forward operation returns the same label each time it is
/// called, two forward passes over an unchanged ledger yield the same labels.
pub proof fn lemma_execute_repeatable<F: Fn() -> String>(
    cmds: Seq<Command<F>>,
    first: Seq<String>,
    second: Seq<String>,
)
    requires
        forall|i: int| 0 <= i < cmds.len() ==> repeatable(#[trigger] cmds[i].execute),
        first.len() == cmds.len(),
        second.len() == cmds.len(),
        forall|i: int| 0 <= i < first.len() ==> call_ensures(cmds[i].execute, (), #[trigger] first[i]),
        forall|i: int|
            0 <= i < second.len() ==> call_ensures(cmds[i].execute, (), #[trigger] second[i]),
    ensures
        forall|i: int| 0 <= i < first.len() ==> #[trigger] first[i]@ == second[i]@,
{
    assert forall|i: int| 0 <= i < first.len() implies #[trigger] first[i]@ == second[i]@ by {
        assert(repeatable(cmds[i].execute));
        assert(call_ensures(cmds[i].execute, (), first[i]));
        assert(call_ensures(cmds[i].execute, (), second[i]));
    }
}

/// An ordered ledger of paired operations.
pub struct Schema<F: Fn() -> String> {
    commands: Vec<Command<F>>,
}

impl<F: Fn() -> String> View for Schema<F> {
    type V = Seq<Command<F>>;

    closed spec fn view(&self) -> Seq<Command<F>> {
        self.commands@
    }
}

impl<F: Fn() -> String> Schema<F> {
    pub open spec fn well_formed(&self) -> bool {
        all_callable(self@)
    }

    pub fn new() -> (r: Self)
        ensures
            r@ == Seq::<Command<F>>::empty(),
            r.well_formed(),
    {
        Schema { commands: Vec::new() }
    }

    /// Appends the pair (execute, rollback) at the tail.
    pub fn add_migration(&mut self, execute: F, rollback: F)
        requires
            old(self).well_formed(),
            call_requires(execute, ()),
            call_requires(rollback, ()),
        ensures
            final(self).well_formed(),
            final(self)@ == old(self)@.push(Command { execute, rollback }),
    {
        self.commands.push(Command { execute, rollback });
    }

    /// The number of recorded pairs.
    pub fn size(&self) -> (r: usize)
        ensures
            r == self@.len(),
    {
        self.commands.len()
    }

    /// Calls every forward operation, first inserted first; the i-th label is
    /// what the i-th forward operation returned.
    pub fn execute(&self) -> (r: Vec<String>)
        requires
            self.well_formed(),
        ensures
            r@.len() == self@.len(),
            forall|i: int|
                0 <= i < r@.len() ==> call_ensures(self@[i].execute, (), #[trigger] r@[i]),
    {
        let mut out: Vec<String> = Vec::new();
        let mut i: usize = 0;
        while i < self.commands.len()
            invariant
                self.well_formed(),
                i <= self.commands@.len(),
                out@.len() == i,
                forall|j: int|
                    0 <= j < i ==> call_ensures(self.commands@[j].execute, (), #[trigger] out@[j]),
            decreases self.commands@.len() - i,
        {
            let label = (self.commands[i].execute)();
            out.push(label);
            i = i + 1;
        }
        out
    }

    /// Calls every inverse operation, last inserted first; the i-th label is
    /// what the inverse of the i-th pair from the end returned. Membership is
    /// left as it was.
    pub fn rollback(&self) -> (r: Vec<String>)
        requires
            self.well_formed(),
        ensures
            r@.len() == self@.len(),
            forall|i: int|
                0 <= i < r@.len() ==> call_ensures(
                    self@[self@.len() - 1 - i].rollback,
                    (),
                    #[trigger] r@[i],
                ),
    {
        let mut out: Vec<String> = Vec::new();
        let mut i: usize = self.commands.len();
        while i > 0
            invariant
                self.well_formed(),
                i <= self.commands@.len(),
                out@.len() == self.commands@.len() - i,
                forall|j: int|
                    0 <= j < out@.len() ==> call_ensures(
                        self.commands@[self.commands@.len() - 1 - j].rollback,
                        (),
                        #[trigger] out@[j],
                    ),
            decreases i,
        {
            i = i - 1;
            assert(call_requires(self.commands@[i as int].execute, ()));
            let label = (self.commands[i].rollback)();
            out.push(label);
        }
        out
    }
}

/// Adds a field.
pub fn add_field() -> (r: String)
    ensures
        r@ == "add field"@,
{
    "add field".to_owned()
}

/// Removes a field: the inverse of `add_field`.
pub fn remove_field() -> (r: String)
    ensures
        r@ == "remove field"@,
{
    "remove field".to_owned()
}

} // verus!
