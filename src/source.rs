use vstd::prelude::*;

use crate::types::{BlockHeight, ScanError};

verus! {

pub open spec fn strictly_increasing(s: Seq<u64>) -> bool {
    forall|i: int, j: int| 0 <= i < j < s.len() ==> s[i] < s[j]
}

/// The heights `start, start + 1, ..., end - 1`.
pub open spec fn height_range(start: u64, end: u64) -> Seq<u64> {
    if start < end {
        Seq::new((end - start) as nat, |i: int| (start + i) as u64)
    } else {
        Seq::empty()
    }
}

enum SourceKind {
    Range { next: BlockHeight, end: BlockHeight },
    Heights { items: Vec<BlockHeight>, pos: usize },
}

/// The supply of heights to scan, in strictly increasing order.
pub struct BlockSource {
    kind: SourceKind,
}

impl BlockSource {
    /// The heights not yet handed out.
    pub closed spec fn remaining(&self) -> Seq<u64> {
        match &self.kind {
            SourceKind::Range { next, end } => height_range(*next, *end),
            SourceKind::Heights { items, pos } => items@.subrange(*pos as int, items@.len() as int),
        }
    }

    pub closed spec fn wf(&self) -> bool {
        match &self.kind {
            SourceKind::Range { .. } => true,
            SourceKind::Heights { items, pos } => *pos <= items@.len() && strictly_increasing(
                items@,
            ),
        }
    }

    pub proof fn lemma_remaining_increasing(&self)
        requires
            self.wf(),
        ensures
            strictly_increasing(self.remaining()),
    {
        match &self.kind {
            SourceKind::Range { .. } => {},
            SourceKind::Heights { items, pos } => {
                let r = self.remaining();
                assert forall|i: int, j: int| 0 <= i < j < r.len() implies r[i] < r[j] by {
                    assert(r[i] == items@[*pos + i]);
                    assert(r[j] == items@[*pos + j]);
                }
            },
        }
    }

    /// The bounded range `start..end`, empty when `start >= end`.
    pub fn range(start: BlockHeight, end: BlockHeight) -> (r: BlockSource)
        ensures
            r.wf(),
            r.remaining() == height_range(start, end),
    {
        BlockSource { kind: SourceKind::Range { next: start, end } }
    }

    /// An explicit list of heights, refused unless strictly increasing.
    pub fn from_heights(items: Vec<BlockHeight>) -> (r: Result<BlockSource, ScanError>)
        ensures
            r is Ok <==> strictly_increasing(items@),
            r is Err ==> r == Err::<BlockSource, ScanError>(ScanError::UnorderedHeights),
            r matches Ok(s) ==> s.wf() && s.remaining() == items@,
    {
        let mut i: usize = 1;
        while i < items.len()
            invariant
                1 <= i,
                i <= items@.len() || items@.len() == 0,
                forall|a: int, b: int| 0 <= a < b < i && b < items@.len() ==> items@[a] < items@[b],
            decreases items@.len() - i,
        {
            if items[i - 1] >= items[i] {
                return Err(ScanError::UnorderedHeights);
            }
            proof {
                assert forall|a: int, b: int| 0 <= a < b < i + 1 && b < items@.len() implies items@[a]
                    < items@[b] by {
                    if b == i && a < i - 1 {
                        assert(items@[a] < items@[i - 1]);
                    }
                }
            }
            i = i + 1;
        }
        let r = BlockSource { kind: SourceKind::Heights { items, pos: 0 } };
        proof {
            assert(r.remaining() =~= items@);
        }
        Ok(r)
    }

    pub fn is_exhausted(&self) -> (r: bool)
        requires
            self.wf(),
        ensures
            r == (self.remaining().len() == 0),
    {
        match &self.kind {
            SourceKind::Range { next, end } => *next >= *end,
            SourceKind::Heights { items, pos } => *pos >= items.len(),
        }
    }

    /// Hands out the next height, if any is left.
    pub fn next_height(&mut self) -> (r: Option<BlockHeight>)
        requires
            old(self).wf(),
        ensures
            final(self).wf(),
            old(self).remaining().len() == 0 ==> r is None && *final(self) == *old(self),
            old(self).remaining().len() > 0 ==> r == Some(old(self).remaining()[0])
                && final(self).remaining() == old(self).remaining().drop_first(),
    {
        match &mut self.kind {
            SourceKind::Range { next, end } => {
                if *next >= *end {
                    None
                } else {
                    let h = *next;
                    *next = h + 1;
                    proof {
                        assert(height_range(h, *end).drop_first() =~= height_range(
                            (h + 1) as u64,
                            *end,
                        ));
                    }
                    Some(h)
                }
            },
            SourceKind::Heights { items, pos } => {
                if *pos >= items.len() {
                    None
                } else {
                    let h = items[*pos];
                    *pos = *pos + 1;
                    Some(h)
                }
            },
        }
    }
}

} // verus!
