//! The history of file operations that can be undone and redone.
use vstd::prelude::*;
use crate::state::ItemBuffer;

verus! {

/// The operations done so far, oldest first; `pos` counts how many of the
/// newest ones have been undone.
#[derive(Debug, Default, Clone)]
pub struct Operation {
    pub pos: usize,
    pub op_list: Vec<OpKind>,
}

/// One operation.
#[derive(Debug, Clone)]
pub enum OpKind {
    Delete(DeletedFiles),
    Put(PutFiles),
    Rename(Vec<(String, String)>),
}

/// Items moved to the trash: where they went and where they were.
#[derive(Debug, Clone)]
pub struct DeletedFiles {
    pub trash: Vec<ItemBuffer>,
    pub original: Vec<ItemBuffer>,
    pub dir: String,
}

/// Items put into a directory: what was put and the paths it got.
#[derive(Debug, Clone)]
pub struct PutFiles {
    pub original: Vec<ItemBuffer>,
    pub put: Vec<String>,
    pub dir: String,
}

/// The operations that remain after dropping the `pos` newest of `l`.
pub open spec fn kept(l: Seq<OpKind>, pos: nat) -> Seq<OpKind> {
    if pos <= l.len() {
        l.take(l.len() - pos)
    } else {
        Seq::empty()
    }
}

impl Operation {
    /// The operation an undo applies to: the newest one not undone yet.
    pub open spec fn undo_index(self) -> Option<int> {
        if self.pos < self.op_list@.len() {
            Some(self.op_list@.len() - self.pos - 1)
        } else {
            None
        }
    }

    /// The operation a redo applies to: the oldest of the undone ones.
    pub open spec fn redo_index(self) -> Option<int> {
        if self.op_list@.len() == 0 || self.pos == 0 || self.op_list@.len() < self.pos {
            None
        } else {
            Some(self.op_list@.len() - self.pos)
        }
    }

    /// No operations at all.
    pub fn new() -> (o: Self)
        ensures
            o.pos == 0,
            o.op_list@.len() == 0,
    {
        Operation { pos: 0, op_list: Vec::new() }
    }

    /// Discard undone operations when new one is pushed.
    pub fn branch(&mut self)
        ensures
            final(self).pos == old(self).pos,
            final(self).op_list@ == kept(old(self).op_list@, old(self).pos as nat),
    {
        if self.pos == 0 {
            proof {
                assert(self.op_list@.take(self.op_list@.len() as int) =~= self.op_list@);
            }
            return;
        }
        let ghost start = self.op_list@;
        let mut i: usize = 0;
        while i < self.pos
            invariant
                i <= self.pos,
                self.pos == old(self).pos,
                start == old(self).op_list@,
                self.op_list@ == kept(start, i as nat),
            decreases self.pos - i,
        {
            proof {
                if i == 0 {
                    assert(start.take(start.len() as int) =~= start);
                }
            }
            let _ = self.op_list.pop();
            proof {
                if i + 1 <= start.len() {
                    assert(kept(start, i as nat).drop_last() =~= kept(start, (i + 1) as nat));
                }
            }
            i = i + 1;
        }
    }

    /// Record a new operation; nothing is undone after it.
    pub fn push(&mut self, op: OpKind)
        ensures
            final(self).pos == 0,
            final(self).op_list@ == old(self).op_list@.push(op),
    {
        self.op_list.push(op);
        self.pos = 0;
    }

    /// Where an undo applies, if anything is left to undo.
    pub fn undo_target(&self) -> (r: Option<usize>)
        ensures
            match r {
                Some(i) => self.undo_index() == Some(i as int),
                None => self.undo_index() is None,
            },
    {
        if self.pos < self.op_list.len() {
            Some(self.op_list.len() - self.pos - 1)
        } else {
            None
        }
    }

    /// Where a redo applies, if anything undone is left to redo.
    pub fn redo_target(&self) -> (r: Option<usize>)
        ensures
            match r {
                Some(i) => self.redo_index() == Some(i as int),
                None => self.redo_index() is None,
            },
    {
        let len = self.op_list.len();
        if len == 0 || self.pos == 0 || len < self.pos {
            None
        } else {
            Some(len - self.pos)
        }
    }

    /// Count one more operation as undone.
    pub fn mark_undone(&mut self)
        requires
            old(self).undo_index() is Some,
        ensures
            final(self).pos == old(self).pos + 1,
            final(self).op_list@ == old(self).op_list@,
    {
        if self.pos < self.op_list.len() {
            self.pos = self.pos + 1;
        }
    }

    /// Count one operation less as undone.
    pub fn mark_redone(&mut self)
        requires
            old(self).redo_index() is Some,
        ensures
            final(self).pos == old(self).pos - 1,
            final(self).op_list@ == old(self).op_list@,
    {
        self.pos = self.pos - 1;
    }
}

/// A redo after an undo applies to the operation just undone, and an undo
/// after a redo to the operation just redone.
pub proof fn law_undo_redo_same_operation(a: Operation, b: Operation)
    requires
        b.op_list@ == a.op_list@,
    ensures
        a.undo_index() is Some && b.pos == a.pos + 1 ==> b.redo_index() == a.undo_index(),
        a.redo_index() is Some && b.pos == a.pos - 1 ==> b.undo_index() == a.redo_index(),
{
}

/// Recording an operation after undoing some drops the undone ones: the new
/// operation follows the ones that were still done, and it is the next to undo.
pub proof fn law_branch_then_push(a: Operation, b: Operation, c: Operation, op: OpKind)
    requires
        b.pos == a.pos,
        b.op_list@ == kept(a.op_list@, a.pos as nat),
        c.pos == 0,
        c.op_list@ == b.op_list@.push(op),
    ensures
        c.op_list@ == kept(a.op_list@, a.pos as nat).push(op),
        c.undo_index() == Some(c.op_list@.len() - 1),
        c.op_list@[c.op_list@.len() - 1] == op,
        c.redo_index() is None,
{
}

} // verus!
