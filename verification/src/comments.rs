//! The comment store: which comments are attached before which position.
use crate::ast::Comment;
use crate::seqs::{lemma_somes_push, somes};
use vstd::prelude::*;

verus! {

/// The comments attached before positions of the source, in the order in
/// which they were attached.
#[derive(Debug)]
pub struct Comments {
    leading: Vec<(u32, Comment)>,
}

/// The comment of an attachment, if it is attached before the position.
pub open spec fn attached_at(entry: (u32, Comment), pos: u32) -> Option<Comment> {
    if entry.0 == pos {
        Some(entry.1)
    } else {
        None
    }
}

/// The comments attached before a position, in the order of attachment.
pub open spec fn leading_at(entries: Seq<(u32, Comment)>, pos: u32) -> Seq<Comment> {
    somes(Seq::new(entries.len(), |i: int| attached_at(entries[i], pos)))
}

/// A copy of a comment.
pub fn clone_comment(comment: &Comment) -> (r: Comment)
    ensures
        r == *comment,
{
    Comment { kind: comment.kind, span: comment.span, text: comment.text.clone() }
}

impl View for Comments {
    type V = Seq<(u32, Comment)>;

    /// Every attachment: the position and the comment before it.
    closed spec fn view(&self) -> Seq<(u32, Comment)> {
        self.leading@
    }
}

impl Comments {
    /// A store without comments.
    pub fn new() -> (r: Comments)
        ensures
            r@ == Seq::<(u32, Comment)>::empty(),
    {
        Comments { leading: Vec::new() }
    }

    /// Attaches a comment before a position, behind those already there.
    pub fn add_leading(&mut self, pos: u32, comment: Comment)
        ensures
            final(self)@ == old(self)@.push((pos, comment)),
    {
        self.leading.push((pos, comment));
    }

    /// The number of attachments.
    pub fn len(&self) -> (r: usize)
        ensures
            r == self@.len(),
    {
        self.leading.len()
    }

    /// The position of an attachment.
    pub fn pos_at(&self, i: usize) -> (r: u32)
        requires
            i < self@.len(),
        ensures
            r == self@[i as int].0,
    {
        self.leading[i].0
    }

    /// The comment of an attachment.
    pub fn comment_at(&self, i: usize) -> (r: &Comment)
        requires
            i < self@.len(),
        ensures
            *r == self@[i as int].1,
    {
        &self.leading[i].1
    }

    /// The comments attached before a position, in the order of attachment.
    pub fn leading(&self, pos: u32) -> (r: Vec<Comment>)
        ensures
            r@ == leading_at(self@, pos),
    {
        let ghost slots = Seq::new(self@.len(), |i: int| attached_at(self@[i], pos));
        let mut found: Vec<Comment> = Vec::new();
        let mut i: usize = 0;
        while i < self.leading.len()
            invariant
                i <= self.leading.len(),
                slots == Seq::new(self@.len(), |i: int| attached_at(self@[i], pos)),
                found@ == somes(slots.take(i as int)),
            decreases self.leading.len() - i,
        {
            proof {
                assert(slots.take(i + 1) =~= slots.take(i as int).push(slots[i as int]));
                lemma_somes_push(slots.take(i as int), slots[i as int]);
            }
            if self.leading[i].0 == pos {
                found.push(clone_comment(&self.leading[i].1));
            }
            i = i + 1;
        }
        assert(slots.take(i as int) =~= slots);
        found
    }
}

} // verus!
