//! The jump list: directories visited, newest first, with a position that
//! moves backward (older) and forward (newer) through it.
use vstd::prelude::*;
use std::collections::VecDeque;

verus! {

/// Visited directories, `list[0]` the newest; `pos` is the entry shown now.
#[derive(Debug, Default)]
pub struct JumpList {
    pub pos: usize,
    pub list: VecDeque<String>,
}

impl JumpList {
    /// The entry a backward jump goes to, if there is one.
    pub open spec fn backward(self) -> Option<Seq<char>> {
        if self.pos + 1 < self.list@.len() {
            Some(self.list@[self.pos + 1]@)
        } else {
            None
        }
    }

    /// The entry a forward jump goes to, if there is one.
    pub open spec fn forward(self) -> Option<Seq<char>> {
        if self.pos == 0 || self.pos - 1 >= self.list@.len() {
            None
        } else {
            Some(self.list@[self.pos - 1]@)
        }
    }

    /// Record a visit of `p`: entries newer than the current one are dropped,
    /// `p` becomes the newest entry and the current one.
    pub fn add(&mut self, p: &str)
        ensures
            final(self).pos == 0,
            final(self).list@.len() >= 1,
            final(self).list@[0]@ == p@,
            final(self).list@.skip(1) == old(self).list@.skip(
                if old(self).pos <= old(self).list@.len() { old(self).pos as int } else { old(self).list@.len() as int },
            ),
    {
        let ghost old_list = self.list@;
        let n = self.pos;
        let mut i: usize = 0;
        while i < n
            invariant
                i <= n,
                self.list@ == old_list.skip(if i <= old_list.len() { i as int } else { old_list.len() as int }),
            decreases n - i,
        {
            let _ = self.list.pop_front();
            proof {
                if i < old_list.len() {
                    assert(old_list.skip(i as int).subrange(1, old_list.skip(i as int).len() as int) =~= old_list.skip(i + 1));
                }
            }
            i = i + 1;
        }
        let ghost rest = self.list@;
        self.list.push_front(String::from_str(p));
        self.pos = 0;
        proof {
            assert(self.list@.skip(1) =~= rest);
        }
    }

    /// The entry before the current one (older), if any.
    pub fn get_backward(&self) -> (r: Option<String>)
        requires
            self.list@.len() > 0,
        ensures
            match r {
                Some(p) => self.backward() == Some(p@),
                None => self.backward() is None,
            },
    {
        if self.pos >= self.list.len() - 1 {
            None
        } else {
            Some(self.list[self.pos + 1].clone())
        }
    }

    /// Move the current position one entry backward.
    pub fn pos_backward(&mut self)
        requires
            old(self).pos < usize::MAX,
        ensures
            final(self).pos == old(self).pos + 1,
            final(self).list@ == old(self).list@,
    {
        self.pos = self.pos + 1;
    }

    /// The entry after the current one (newer), if any.
    pub fn get_forward(&self) -> (r: Option<String>)
        ensures
            match r {
                Some(p) => self.forward() == Some(p@),
                None => self.forward() is None,
            },
    {
        if self.pos == 0 {
            None
        } else if self.pos - 1 < self.list.len() {
            Some(self.list[self.pos - 1].clone())
        } else {
            None
        }
    }

    /// Move the current position one entry forward.
    pub fn pos_forward(&mut self)
        requires
            old(self).pos > 0,
        ensures
            final(self).pos == old(self).pos - 1,
            final(self).list@ == old(self).list@,
    {
        self.pos = self.pos - 1;
    }

    /// Drop the entry before the current one (when its directory is gone).
    pub fn remove_backward(&mut self)
        requires
            old(self).pos < usize::MAX,
        ensures
            final(self).pos == old(self).pos,
            final(self).list@ == if old(self).pos + 1 < old(self).list@.len() {
                old(self).list@.remove(old(self).pos + 1)
            } else {
                old(self).list@
            },
    {
        let _ = self.list.remove(self.pos + 1);
    }

    /// Drop the entry after the current one (when its directory is gone).
    pub fn remove_forward(&mut self)
        requires
            old(self).pos > 0,
        ensures
            final(self).pos == old(self).pos,
            final(self).list@ == if old(self).pos - 1 < old(self).list@.len() {
                old(self).list@.remove(old(self).pos - 1)
            } else {
                old(self).list@
            },
    {
        let _ = self.list.remove(self.pos - 1);
    }
}

/// A jump backward followed by a jump forward comes back to the entry it left.
pub proof fn law_backward_then_forward(j: JumpList, k: JumpList)
    requires
        j.backward() is Some,
        k.pos == j.pos + 1,
        k.list@ == j.list@,
    ensures
        k.forward() == Some(j.list@[j.pos as int]@),
        j.backward() == Some(k.list@[k.pos as int]@),
{
}

/// A jump forward followed by a jump backward comes back to the entry it left.
pub proof fn law_forward_then_backward(j: JumpList, k: JumpList)
    requires
        j.forward() is Some,
        j.pos < j.list@.len(),
        k.pos == j.pos - 1,
        k.list@ == j.list@,
    ensures
        k.backward() == Some(j.list@[j.pos as int]@),
{
}

/// After a visit nothing lies forward, and the entry that was current before
/// (if it was in the list) is the one a backward jump goes to.
pub proof fn law_add_forgets_forward(j: JumpList, k: JumpList, p: Seq<char>)
    requires
        k.pos == 0,
        k.list@.len() >= 1,
        k.list@[0]@ == p,
        k.list@.skip(1) == j.list@.skip(
            if j.pos <= j.list@.len() { j.pos as int } else { j.list@.len() as int },
        ),
    ensures
        k.forward() is None,
        j.pos < j.list@.len() ==> k.backward() == Some(j.list@[j.pos as int]@),
{
    if j.pos < j.list@.len() {
        assert(j.list@.skip(j.pos as int).len() == j.list@.len() - j.pos);
        assert(k.list@.skip(1).len() == k.list@.len() - 1);
        assert(k.list@.len() >= 2);
        assert(k.list@.skip(1)[0] == k.list@[1]);
        assert(j.list@.skip(j.pos as int)[0] == j.list@[j.pos as int]);
    }
}

} // verus!
