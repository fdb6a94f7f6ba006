use vstd::prelude::*;
use crate::executor::error::ExecuteError;

verus! {

/// A runtime control label, tracked only for the data a branch needs: the values
/// it carries and where it lands.
#[derive(Clone, Copy, Debug, PartialEq, Eq, Structural)]
pub struct Label {
    /// Whether the label is a `loop` (its branch target is its own header).
    pub is_loop: bool,
    /// Values a branch to this label carries: the loop's input arity, or a
    /// forward block's result arity.
    pub branch_arity: u32,
    /// Program point of the label's matching `end`.
    pub end_pc: u32,
}

/// The runtime control stack of one function activation, outermost first.
pub struct Labels(Vec<Label>);

impl View for Labels {
    type V = Seq<Label>;

    closed spec fn view(&self) -> Seq<Label> {
        self.0@
    }
}

/// The labels that survive when control reaches `target`: the longest prefix
/// after which every label has closed (its `end_pc` lies before `target`).
pub open spec fn popped_past(s: Seq<Label>, target: int) -> Seq<Label>
    decreases s.len(),
{
    if s.len() > 0 && (s.last().end_pc as int) < target {
        popped_past(s.drop_last(), target)
    } else {
        s
    }
}

/// The label a branch of `relative_depth` resolves to, counted from the
/// innermost label (`0`), and the label-stack length after the branch: the
/// label itself stays for a `loop`, and goes with everything above it for a
/// forward block.
pub open spec fn branch_resolution(s: Seq<Label>, relative_depth: int) -> (Label, int) {
    let idx = s.len() - 1 - relative_depth;
    (s[idx], if s[idx].is_loop { idx + 1 } else { idx })
}

impl Labels {
    /// An empty control stack.
    pub fn new() -> (r: Self)
        ensures
            r@ == Seq::<Label>::empty(),
    {
        Labels(Vec::new())
    }

    /// Pops every label whose scope has closed by the time control reaches
    /// `target`---i.e. every label whose `end_pc` is strictly less than `target`.
    pub fn pop_past(&mut self, target: usize)
        ensures
            final(self)@ == popped_past(old(self)@, target as int),
    {
        while self.0.len() > 0 && (self.0[self.0.len() - 1].end_pc as usize) < target
            invariant
                popped_past(self.0@, target as int) == popped_past(old(self)@, target as int),
            decreases self.0.len(),
        {
            self.0.pop();
        }
    }

    /// Pushes a label.
    pub fn push(&mut self, label: Label)
        ensures
            final(self)@ == old(self)@.push(label),
    {
        self.0.push(label)
    }

    /// Resolves a branch `relative_depth` levels up from the innermost label
    /// (`0` = the current label), per WebAssembly's label-index encoding.
    ///
    /// Returns the target label and the stack length to truncate to should
    /// the branch be taken---the label itself for a `loop` (so it remains
    /// live to catch a subsequent iteration), or everything above it for a
    /// forward block.
    pub fn resolve_branch(&self, relative_depth: u32) -> (r: Result<(&Label, usize), ExecuteError>)
        ensures
            relative_depth < self@.len() ==> (r matches Ok((l, t)) && (*l, t as int)
                == branch_resolution(self@, relative_depth as int)),
            relative_depth >= self@.len() ==> r is Err,
    {
        if (relative_depth as usize) >= self.0.len() {
            return Err(ExecuteError::invalid_binary("branch depth exceeds the control stack"));
        }
        let idx = self.0.len() - 1 - relative_depth as usize;
        let label = &self.0[idx];
        let truncate_to = if label.is_loop { idx + 1 } else { idx };
        Ok((label, truncate_to))
    }

    /// Keeps the outermost `len` labels.
    pub fn truncate(&mut self, len: usize)
        ensures
            len <= old(self)@.len() ==> final(self)@ == old(self)@.subrange(0, len as int),
            len > old(self)@.len() ==> final(self)@ == old(self)@,
    {
        self.0.truncate(len)
    }
}

} // verus!
