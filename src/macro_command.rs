//! Commands that act on an effect sink, and a composite command that runs an
//! ordered list of them. Every effect a command performs is recorded, in
//! order, in the log handed to `execute`.
use vstd::prelude::*;

verus! {

/// A point at which a sink performed its effect.
pub type Mark = (u32, u32);

/// An effect sink that accepts two coordinates.
pub trait Drawable {
    /// Performs the effect at (x, y) and records it at the end of the log.
    fn draw(&self, x: u32, y: u32, log: &mut Vec<Mark>)
        ensures
            final(log)@ == old(log)@.push((x, y)),
    ;
}

/// A forward-only command.
pub trait Command {
    /// The effects one execution performs, in order.
    spec fn effects(&self) -> Seq<Mark>;

    fn execute(&self, log: &mut Vec<Mark>)
        ensures
            final(log)@ == old(log)@ + self.effects(),
    ;
}

/// The effects of running each command in turn, first inserted first.
pub open spec fn effects_of<C: Command>(cmds: Seq<C>) -> Seq<Mark>
    decreases cmds.len(),
{
    if cmds.len() == 0 {
        Seq::empty()
    } else {
        effects_of(cmds.drop_last()) + cmds.last().effects()
    }
}

/// Appending a command adds its effects after those already recorded.
pub proof fn lemma_append_effects<C: Command>(cmds: Seq<C>, cmd: C)
    ensures
        effects_of(cmds.push(cmd)) == effects_of(cmds) + cmd.effects(),
{
    assert(cmds.push(cmd).drop_last() =~= cmds);
}

/// A composite built by appending three commands runs the first one's effects,
/// then the second's, then the third's.
pub proof fn lemma_execute_in_insertion_order<C: Command>(c1: C, c2: C, c3: C)
    ensures
        effects_of(Seq::<C>::empty().push(c1).push(c2).push(c3)) == c1.effects() + c2.effects()
            + c3.effects(),
{
    let s0 = Seq::<C>::empty();
    lemma_append_effects(s0, c1);
    lemma_append_effects(s0.push(c1), c2);
    lemma_append_effects(s0.push(c1).push(c2), c3);
    assert(effects_of(s0) =~= Seq::<Mark>::empty());
    assert(Seq::<Mark>::empty() + c1.effects() =~= c1.effects());
}

/// Undoing a composite of two commands leaves only the first one's effects.
pub proof fn lemma_undo_drops_last<C: Command>(c1: C, c2: C)
    ensures
        effects_of(Seq::<C>::empty().push(c1).push(c2).drop_last()) == c1.effects(),
{
    let s0 = Seq::<C>::empty();
    assert(s0.push(c1).push(c2).drop_last() =~= s0.push(c1));
    lemma_append_effects(s0, c1);
    assert(Seq::<Mark>::empty() + c1.effects() =~= c1.effects());
}

/// A cleared composite performs no effect.
pub proof fn lemma_cleared_is_silent<C: Command>()
    ensures
        effects_of(Seq::<C>::empty()) == Seq::<Mark>::empty(),
{
}

/// An ordered list of commands run as one.
pub struct MacroCommand<C: Command> {
    stack: Vec<C>,
}

impl<C: Command> View for MacroCommand<C> {
    type V = Seq<C>;

    closed spec fn view(&self) -> Seq<C> {
        self.stack@
    }
}

impl<C: Command> MacroCommand<C> {
    pub fn new() -> (r: MacroCommand<C>)
        ensures
            r@ == Seq::<C>::empty(),
    {
        MacroCommand { stack: Vec::new() }
    }

    /// Appends a command at the tail.
    pub fn append(&mut self, cmd: C)
        ensures
            final(self)@ == old(self)@.push(cmd),
    {
        self.stack.push(cmd);
    }

    /// Forgets the most recently appended command, performing no effect; does
    /// nothing when there is none.
    pub fn undo(&mut self)
        ensures
            final(self)@ == if old(self)@.len() == 0 {
                old(self)@
            } else {
                old(self)@.drop_last()
            },
    {
        let _ = self.stack.pop();
    }

    /// Forgets every command, performing no effect.
    pub fn clear(&mut self)
        ensures
            final(self)@ == Seq::<C>::empty(),
    {
        self.stack.clear();
    }
}

impl<C: Command> Command for MacroCommand<C> {
    open spec fn effects(&self) -> Seq<Mark> {
        effects_of(self@)
    }

    fn execute(&self, log: &mut Vec<Mark>) {
        let mut i: usize = 0;
        while i < self.stack.len()
            invariant
                i <= self.stack@.len(),
                log@ == old(log)@ + effects_of(self.stack@.subrange(0, i as int)),
            decreases self.stack@.len() - i,
        {
            self.stack[i].execute(log);
            proof {
                let done = self.stack@.subrange(0, i + 1);
                assert(done.drop_last() =~= self.stack@.subrange(0, i as int));
            }
            i = i + 1;
        }
        assert(self.stack@.subrange(0, i as int) =~= self.stack@);
    }
}

/// Runs a sink's effect at fixed coordinates.
pub struct DrawCommand<D: Drawable> {
    drawable: D,
    x: u32,
    y: u32,
}

impl<D: Drawable> DrawCommand<D> {
    pub fn new(drawable: D, x: u32, y: u32) -> (r: DrawCommand<D>)
        ensures
            r.effects() == seq![(x, y)],
    {
        DrawCommand { drawable: drawable, x: x, y: y }
    }
}

impl<D: Drawable> Command for DrawCommand<D> {
    closed spec fn effects(&self) -> Seq<Mark> {
        seq![(self.x, self.y)]
    }

    fn execute(&self, log: &mut Vec<Mark>) {
        self.drawable.draw(self.x, self.y, log);
        assert(log@ =~= old(log)@ + seq![(self.x, self.y)]);
    }
}

/// A canvas sink.
#[derive(Clone, Copy)]
pub struct DrawCanvas {}

impl DrawCanvas {
    pub fn new() -> DrawCanvas {
        DrawCanvas {  }
    }
}

impl Drawable for DrawCanvas {
    fn draw(&self, x: u32, y: u32, log: &mut Vec<Mark>) {
        log.push((x, y));
    }
}

} // verus!
