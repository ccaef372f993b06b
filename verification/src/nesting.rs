//! Container nesting: the stack of containers that are still owed children.
//!
//! Nested containers form a tree, but a stream holds them depth-first. The
//! open containers are kept on an explicit stack, outermost first, each with
//! the number of immediate children it is still owed.
use crate::{RecordId, RecordMeta};
use vstd::prelude::*;

verus! {

/// One finished child at the top of a container stack: the innermost
/// container is owed one child less; a container that is owed no more
/// children is closed, which in turn is one finished child of the container
/// around it.
pub open spec fn spec_child_done(stack: Seq<(u16, RecordId)>) -> Seq<(u16, RecordId)>
    decreases stack.len(),
{
    if stack.len() == 0 {
        stack
    } else if stack.last().0 <= 1 {
        spec_child_done(stack.drop_last())
    } else {
        stack.drop_last().push(((stack.last().0 - 1) as u16, stack.last().1))
    }
}

/// The container stack after a record with the metadata `meta`: a container
/// with children is opened; any other record is one finished child.
pub open spec fn spec_update(stack: Seq<(u16, RecordId)>, meta: RecordMeta) -> Seq<
    (u16, RecordId),
> {
    match meta.contained {
        Some(k) if k > 0 => stack.push(
            (k, RecordId { source_id: meta.source_id, type_id: meta.type_id }),
        ),
        _ => spec_child_done(stack),
    }
}

/// The ids of the containers on a stack, outermost first.
pub open spec fn spec_ids(stack: Seq<(u16, RecordId)>) -> Seq<RecordId> {
    stack.map_values(|e: (u16, RecordId)| e.1)
}

/// The ids of the containers on a stack, outermost first.
pub fn ids_of(stack: &Vec<(u16, RecordId)>) -> (ids: Vec<RecordId>)
    ensures
        ids@ == spec_ids(stack@),
{
    let mut ids: Vec<RecordId> = Vec::new();
    let mut i: usize = 0;
    while i < stack.len()
        invariant
            i <= stack.len(),
            ids@.len() == i,
            forall|j: int| 0 <= j < i ==> ids@[j] == stack@[j].1,
        decreases stack.len() - i,
    {
        ids.push(stack[i].1);
        i = i + 1;
    }
    assert(ids@ =~= spec_ids(stack@));
    ids
}

/// Accounts one finished child at the top of a container stack.
pub fn child_done(stack: &mut Vec<(u16, RecordId)>)
    ensures
        final(stack)@ == spec_child_done(old(stack)@),
{
    while stack.len() > 0
        invariant_except_break
            spec_child_done(stack@) == spec_child_done(old(stack)@),
        ensures
            stack@ == spec_child_done(old(stack)@),
        decreases stack.len(),
    {
        let ghost before = stack@;
        let last = stack.len() - 1;
        let (count, id) = stack[last];
        let _ = stack.pop();
        assert(stack@ =~= before.drop_last());
        if count > 1 {
            stack.push((count - 1, id));
            break ;
        }
    }
}

/// The ids `ids` in the opposite order: innermost first where they were
/// outermost first.
pub fn innermost_first(ids: &Vec<RecordId>) -> (out: Vec<RecordId>)
    ensures
        out@ == ids@.reverse(),
{
    let n = ids.len();
    let mut out: Vec<RecordId> = Vec::new();
    let mut i: usize = 0;
    while i < n
        invariant
            i <= n,
            n == ids.len(),
            out@.len() == i,
            forall|j: int| 0 <= j < i ==> out@[j] == ids@[n - 1 - j],
        decreases n - i,
    {
        out.push(ids[n - 1 - i]);
        i = i + 1;
    }
    assert(out@ =~= ids@.reverse());
    out
}

} // verus!
