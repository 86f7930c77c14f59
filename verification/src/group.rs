use vstd::prelude::*;

use crate::library::{indices_below, Address, Error, Library};

verus! {

/// Where a group stands: not resolved yet, resolved (`marked` once its
/// symbols were asserted as resolved for all threads), or failed to resolve
/// with the first error met. Once resolved or failed, it stays so; a resolved
/// group only goes on to be marked.
#[derive(Debug, PartialEq, Eq)]
pub enum GroupStatus {
    Unresolved,
    Resolved { marked: bool },
    Failed(Error),
}

/// What `resolve` asks for, or its answer.
#[derive(Debug, PartialEq, Eq)]
pub enum ResolveStep {
    /// The cached answer: `Ok` once resolved and marked, the first error once failed.
    Answer(Result<(), Error>),
    /// Resolve every symbol of the group (the run that `resolve_uncached`
    /// starts), then record how it ended with `resolve_finish`.
    Run,
    /// The group was resolved inside `if_resolved` only: mark it for all
    /// threads with `resolve_mark`.
    Mark,
}

/// A group of symbols that are resolved together.
pub struct Group {
    sym_indices: &'static [u32],
    status: GroupStatus,
}

/// A group, as values.
pub struct GroupModel {
    pub sym_indices: Seq<u32>,
    pub status: GroupStatus,
}

/// What one step of resolving every symbol of a group asks for, or how it ended.
#[derive(Debug, PartialEq, Eq)]
pub enum GroupStep {
    /// Resolve the symbol at this position of the group.
    Resolve { position: usize, sym_index: u32 },
    /// Every symbol resolved, or the first error met.
    Done(Result<(), Error>),
}

impl View for Group {
    type V = GroupModel;

    closed spec fn view(&self) -> GroupModel {
        GroupModel { sym_indices: self.sym_indices@, status: self.status }
    }
}

impl GroupModel {
    /// What `resolve` asks for, or its answer.
    pub open spec fn resolve_step(self) -> ResolveStep {
        match self.status {
            GroupStatus::Unresolved => ResolveStep::Run,
            GroupStatus::Resolved { marked } => if marked {
                ResolveStep::Answer(Ok(()))
            } else {
                ResolveStep::Mark
            },
            GroupStatus::Failed(e) => ResolveStep::Answer(Err(e)),
        }
    }

    /// How the group resolved, once it did or failed: what `if_resolved` goes by.
    pub open spec fn answer(self) -> Option<Result<(), Error>> {
        match self.status {
            GroupStatus::Unresolved => None,
            GroupStatus::Resolved { .. } => Some(Ok(())),
            GroupStatus::Failed(e) => Some(Err(e)),
        }
    }

    /// The group once the run over its symbols ended with `run`, its symbols
    /// marked for all threads or not.
    pub open spec fn finished(self, run: Result<(), Error>, marked: bool) -> GroupModel {
        GroupModel {
            sym_indices: self.sym_indices,
            status: match run {
                Ok(_) => GroupStatus::Resolved { marked },
                Err(e) => GroupStatus::Failed(e),
            },
        }
    }

    /// The step after the symbol at `position` was resolved with `outcome`.
    pub open spec fn next_step(self, position: int, outcome: Result<Address, Error>) -> GroupStep {
        match outcome {
            Ok(_) => self.step_at(position + 1),
            Err(e) => GroupStep::Done(Err(e)),
        }
    }

    /// The step that resolves the symbol at `position`, or the end.
    pub open spec fn step_at(self, position: int) -> GroupStep {
        if position < self.sym_indices.len() {
            GroupStep::Resolve { position: position as usize, sym_index: self.sym_indices[position] }
        } else {
            GroupStep::Done(Ok(()))
        }
    }
}

impl Group {
    /// A group of the symbols `sym_indices`, not resolved yet.
    pub fn new(sym_indices: &'static [u32]) -> (res: Group)
        ensures
            res@ == (GroupModel { sym_indices: sym_indices@, status: GroupStatus::Unresolved }),
    {
        Group { sym_indices, status: GroupStatus::Unresolved }
    }

    /// The symbols of the group.
    pub fn sym_indices(&self) -> (res: &'static [u32])
        ensures
            res@ == self@.sym_indices,
    {
        self.sym_indices
    }

    /// Resolves the group if it was not resolved yet, and marks it for all
    /// threads for good: the cached answer once it was resolved and marked
    /// (`Ok`) or failed (the first error met); otherwise what must be done.
    pub fn resolve(&self) -> (res: ResolveStep)
        ensures
            res == self@.resolve_step(),
    {
        match &self.status {
            GroupStatus::Unresolved => ResolveStep::Run,
            GroupStatus::Resolved { marked } => if *marked {
                ResolveStep::Answer(Ok(()))
            } else {
                ResolveStep::Mark
            },
            GroupStatus::Failed(e) => ResolveStep::Answer(Err(e.duplicate())),
        }
    }

    /// How the group resolved, once it did (`Ok`) or failed (the first error
    /// met); `None` while its symbols must be resolved, by the run that
    /// `resolve_uncached` starts, recorded then by `resolve_finish_scoped`.
    pub fn answer(&self) -> (res: Option<Result<(), Error>>)
        ensures
            res == self@.answer(),
    {
        match &self.status {
            GroupStatus::Unresolved => None,
            GroupStatus::Resolved { .. } => Some(Ok(())),
            GroupStatus::Failed(e) => Some(Err(e.duplicate())),
        }
    }

    /// Records, for `resolve`, how the run over the symbols of the group
    /// ended, and hands it back: a group whose run ended `Ok` is marked
    /// resolved, and its symbols are asserted as resolved for all threads for
    /// good; otherwise the group is marked failed, with the run's error.
    pub fn resolve_finish(&mut self, library: &mut Library, run: Result<(), Error>) -> (res:
        Result<(), Error>)
        requires
            old(self)@.status == GroupStatus::Unresolved,
            run is Ok && old(library)@.checked is Some ==> indices_below(
                old(self)@.sym_indices,
                old(library)@.symbol_count(),
            ),
        ensures
            res == run,
            final(self)@ == old(self)@.finished(run, true),
            final(library)@ == if run is Ok {
                old(library)@.with_global_asserted(old(self)@.sym_indices)
            } else {
                old(library)@
            },
    {
        match run {
            Ok(u) => {
                library.global_assert_resolved(self.sym_indices);
                self.status = GroupStatus::Resolved { marked: true };
                Ok(u)
            },
            Err(e) => {
                let kept = e.duplicate();
                self.status = GroupStatus::Failed(e);
                Err(kept)
            },
        }
    }

    /// Records, for `if_resolved`, how the run over the symbols of the group
    /// ended, and hands it back. Nothing is asserted for all threads: the
    /// symbols count as resolved only while `if_resolved` asserts them for the
    /// calling thread. The library is not touched.
    pub fn resolve_finish_scoped(&mut self, run: Result<(), Error>) -> (res: Result<(), Error>)
        requires
            old(self)@.status == GroupStatus::Unresolved,
        ensures
            res == run,
            final(self)@ == old(self)@.finished(run, false),
    {
        match run {
            Ok(u) => {
                self.status = GroupStatus::Resolved { marked: false };
                Ok(u)
            },
            Err(e) => {
                let kept = e.duplicate();
                self.status = GroupStatus::Failed(e);
                Err(kept)
            },
        }
    }

    /// Marks, for `resolve`, a group that was resolved inside `if_resolved`:
    /// its symbols are asserted as resolved for all threads for good.
    pub fn resolve_mark(&mut self, library: &mut Library) -> (res: Result<(), Error>)
        requires
            old(self)@.status == (GroupStatus::Resolved { marked: false }),
            old(library)@.checked is Some ==> indices_below(
                old(self)@.sym_indices,
                old(library)@.symbol_count(),
            ),
        ensures
            res is Ok,
            final(self)@ == (GroupModel {
                sym_indices: old(self)@.sym_indices,
                status: GroupStatus::Resolved { marked: true },
            }),
            final(library)@ == old(library)@.with_global_asserted(old(self)@.sym_indices),
    {
        library.global_assert_resolved(self.sym_indices);
        self.status = GroupStatus::Resolved { marked: true };
        Ok(())
    }

    /// Starts resolving every symbol of the group, whatever its status: the
    /// first symbol, or the end for an empty group.
    pub fn resolve_uncached(&self) -> (res: GroupStep)
        ensures
            res == self@.step_at(0),
    {
        self.step_at(0)
    }

    /// Goes on after the symbol at `position` was resolved with `outcome`: the
    /// first error ends the run with that error; otherwise the next symbol is
    /// resolved, and after the last the run ends well.
    pub fn resolve_uncached_next(&self, position: usize, outcome: Result<Address, Error>) -> (res:
        GroupStep)
        requires
            position < self@.sym_indices.len(),
        ensures
            res == self@.next_step(position as int, outcome),
    {
        match outcome {
            Ok(_) => {
                if position < self.sym_indices.len() - 1 {
                    GroupStep::Resolve { position: position + 1, sym_index: self.sym_indices[position + 1] }
                } else {
                    GroupStep::Done(Ok(()))
                }
            },
            Err(e) => GroupStep::Done(Err(e)),
        }
    }

    fn step_at(&self, position: usize) -> (res: GroupStep)
        requires
            position <= self@.sym_indices.len(),
        ensures
            res == self@.step_at(position as int),
    {
        if position < self.sym_indices.len() {
            GroupStep::Resolve { position, sym_index: self.sym_indices[position] }
        } else {
            GroupStep::Done(Ok(()))
        }
    }

    /// Decides whether the code that needs the group may run, given how the
    /// group resolved: it may when it did; otherwise "Symbol group could not
    /// be resolved", whatever the cause.
    pub fn if_resolved(&self, resolved: &Result<(), Error>) -> (res: Result<(), Error>)
        ensures
            res == if resolved is Ok {
                Ok::<(), Error>(())
            } else {
                Err(Error::GroupUnresolved)
            },
    {
        match resolved {
            Ok(()) => Ok(()),
            Err(_) => Err(Error::GroupUnresolved),
        }
    }
}

} // verus!
