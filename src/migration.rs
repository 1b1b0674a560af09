//! Reversible migration steps and the schema ledger that runs them forward
//! in insertion order and rolls them back in reverse order.
use vstd::prelude::*;

verus! {

/// A reversible command: a forward effect and its declared inverse, each of
/// which yields a descriptive label and leaves the command itself untouched.
pub trait Migration {
    /// The label produced by the forward effect.
    spec fn forward(&self) -> Seq<char>;

    /// The label produced by the inverse effect.
    spec fn inverse(&self) -> Seq<char>;

    fn execute(&self) -> (r: &str)
        ensures
            r@ == self.forward(),
    ;

    fn rollback(&self) -> (r: &str)
        ensures
            r@ == self.inverse(),
    ;
}

/// Creates a table; its inverse drops it.
pub struct CreateTable;

impl Migration for CreateTable {
    open spec fn forward(&self) -> Seq<char> {
        "create table"@
    }

    open spec fn inverse(&self) -> Seq<char> {
        "drop table"@
    }

    fn execute(&self) -> (r: &str) {
        "create table"
    }

    fn rollback(&self) -> (r: &str) {
        "drop table"
    }
}

/// Adds a field; its inverse removes it.
pub struct AddField;

impl Migration for AddField {
    open spec fn forward(&self) -> Seq<char> {
        "add field"@
    }

    open spec fn inverse(&self) -> Seq<char> {
        "remove field"@
    }

    fn execute(&self) -> (r: &str) {
        "add field"
    }

    fn rollback(&self) -> (r: &str) {
        "remove field"
    }
}

/// The closed catalog of migration kinds, so that steps of different kinds
/// can share one schema.
pub enum Step {
    CreateTable(CreateTable),
    AddField(AddField),
}

impl Migration for Step {
    open spec fn forward(&self) -> Seq<char> {
        match self {
            Step::CreateTable(m) => m.forward(),
            Step::AddField(m) => m.forward(),
        }
    }

    open spec fn inverse(&self) -> Seq<char> {
        match self {
            Step::CreateTable(m) => m.inverse(),
            Step::AddField(m) => m.inverse(),
        }
    }

    fn execute(&self) -> (r: &str) {
        match self {
            Step::CreateTable(m) => m.execute(),
            Step::AddField(m) => m.execute(),
        }
    }

    fn rollback(&self) -> (r: &str) {
        match self {
            Step::CreateTable(m) => m.rollback(),
            Step::AddField(m) => m.rollback(),
        }
    }
}

/// The labels that a sequence of string slices holds.
pub open spec fn labels(v: Seq<&str>) -> Seq<Seq<char>> {
    v.map_values(|x: &str| x@)
}

/// Forward labels of the steps, in insertion order.
pub open spec fn forward_labels<M: Migration>(steps: Seq<M>) -> Seq<Seq<char>> {
    Seq::new(steps.len(), |i: int| steps[i].forward())
}

/// Inverse labels of the steps, last inserted first.
pub open spec fn inverse_labels<M: Migration>(steps: Seq<M>) -> Seq<Seq<char>> {
    Seq::new(steps.len(), |i: int| steps[steps.len() - 1 - i].inverse())
}

/// Appending a step puts its forward label last in the forward pass and its
/// inverse label first in the rollback pass, leaving the rest in order.
pub proof fn lemma_append_order<M: Migration>(steps: Seq<M>, cmd: M)
    ensures
        forward_labels(steps.push(cmd)) == forward_labels(steps).push(cmd.forward()),
        inverse_labels(steps.push(cmd)) == seq![cmd.inverse()] + inverse_labels(steps),
{
    assert(forward_labels(steps.push(cmd)) =~= forward_labels(steps).push(cmd.forward()));
    assert(inverse_labels(steps.push(cmd)) =~= seq![cmd.inverse()] + inverse_labels(steps));
}

/// The rollback pass yields the forward pass's steps in reverse order: the
/// i-th rollback label belongs to the step whose forward label stands i places
/// from the end.
pub proof fn lemma_rollback_mirrors_execute<M: Migration>(steps: Seq<M>, i: int)
    requires
        0 <= i < steps.len(),
    ensures
        forward_labels(steps).len() == inverse_labels(steps).len() == steps.len(),
        forward_labels(steps)[i] == steps[i].forward(),
        inverse_labels(steps)[i] == steps[steps.len() - 1 - i].inverse(),
{
}

/// Two forward passes over an unchanged ledger yield the same labels.
pub proof fn lemma_execute_repeatable<M: Migration>(steps: Seq<M>, first: Seq<&str>, second: Seq<&str>)
    requires
        labels(first) == forward_labels(steps),
        labels(second) == forward_labels(steps),
    ensures
        first.len() == second.len(),
        forall|i: int| 0 <= i < first.len() ==> #[trigger] first[i]@ == second[i]@,
{
    assert(labels(first).len() == first.len());
    assert(labels(second).len() == second.len());
    assert forall|i: int| 0 <= i < first.len() implies #[trigger] first[i]@ == second[i]@ by {
        assert(labels(first)[i] == first[i]@);
        assert(labels(second)[i] == second[i]@);
    }
}

/// An ordered ledger of reversible steps.
pub struct Schema<M: Migration> {
    commands: Vec<M>,
}

impl<M: Migration> View for Schema<M> {
    type V = Seq<M>;

    closed spec fn view(&self) -> Seq<M> {
        self.commands@
    }
}

impl<M: Migration> Schema<M> {
    pub fn new() -> (r: Self)
        ensures
            r@ == Seq::<M>::empty(),
    {
        Schema { commands: Vec::new() }
    }

    /// Appends a step at the tail.
    pub fn add_migration(&mut self, cmd: M)
        ensures
            final(self)@ == old(self)@.push(cmd),
    {
        self.commands.push(cmd);
    }

    /// The number of recorded steps.
    pub fn size(&self) -> (r: usize)
        ensures
            r == self@.len(),
    {
        self.commands.len()
    }

    /// Runs every step forward, first inserted first, and collects the labels.
    pub fn execute(&self) -> (r: Vec<&str>)
        ensures
            labels(r@) == forward_labels(self@),
    {
        let mut out: Vec<&str> = Vec::new();
        let mut i: usize = 0;
        while i < self.commands.len()
            invariant
                i <= self.commands@.len(),
                out@.len() == i,
                forall|j: int| 0 <= j < i ==> #[trigger] out@[j]@ == self.commands@[j].forward(),
            decreases self.commands@.len() - i,
        {
            let label = self.commands[i].execute();
            out.push(label);
            i = i + 1;
        }
        assert(labels(out@) =~= forward_labels(self@));
        out
    }

    /// Runs every step's inverse, last inserted first, and collects the
    /// labels. Membership is left as it was.
    pub fn rollback(&self) -> (r: Vec<&str>)
        ensures
            labels(r@) == inverse_labels(self@),
    {
        let mut out: Vec<&str> = Vec::new();
        let mut i: usize = self.commands.len();
        while i > 0
            invariant
                i <= self.commands@.len(),
                out@.len() == self.commands@.len() - i,
                forall|j: int|
                    0 <= j < out@.len() ==> #[trigger] out@[j]@ == self.commands@[self.commands@.len()
                        - 1 - j].inverse(),
            decreases i,
        {
            i = i - 1;
            let label = self.commands[i].rollback();
            out.push(label);
        }
        assert(labels(out@) =~= inverse_labels(self@));
        out
    }
}

} // verus!
