//! Merging page PDFs into one document: which pages the merged page tree
//! lists, in what order, how many, and which pages are re-parented.
//!
//! A page-tree kid is given as `Some(id)` when it is a reference to the
//! object `id` (object number and generation), else `None`.
use vstd::prelude::*;

verus! {

/// The kid lists of several documents, as sequences.
pub open spec fn kid_lists(docs: Seq<Vec<Option<(u32, u16)>>>) -> Seq<Seq<Option<(u32, u16)>>> {
    docs.map_values(|v: Vec<Option<(u32, u16)>>| v@)
}

/// The kid lists one after the other.
pub open spec fn flatten_kids(docs: Seq<Seq<Option<(u32, u16)>>>) -> Seq<Option<(u32, u16)>>
    decreases docs.len(),
{
    if docs.len() == 0 {
        Seq::empty()
    } else {
        flatten_kids(docs.drop_last()) + docs.last()
    }
}

/// The references among the kids, in order.
pub open spec fn references(kids: Seq<Option<(u32, u16)>>) -> Seq<(u32, u16)>
    decreases kids.len(),
{
    if kids.len() == 0 {
        Seq::empty()
    } else {
        match kids.last() {
            Some(id) => references(kids.drop_last()).push(id),
            None => references(kids.drop_last()),
        }
    }
}

/// Appends `more` to `out`.
fn append_kids(out: &mut Vec<Option<(u32, u16)>>, more: &Vec<Option<(u32, u16)>>)
    ensures
        final(out)@ == old(out)@ + more@,
{
    let ghost start = out@;
    let mut j: usize = 0;
    while j < more.len()
        invariant
            j <= more@.len(),
            out@ == start + more@.take(j as int),
        decreases more@.len() - j,
    {
        out.push(more[j]);
        assert(more@.take(j + 1) == more@.take(j as int).push(more@[j as int]));
        j += 1;
    }
    assert(more@.take(more@.len() as int) == more@);
}

/// The kid list of the merged page tree and its page count: the first
/// document's kids followed by those of each further document, in order.
/// `first_kids` is `None` when there is no document at all, and then there is
/// nothing to merge.
pub fn merge_page_trees(
    first_kids: &Option<Vec<Option<(u32, u16)>>>,
    more_kids: &Vec<Vec<Option<(u32, u16)>>>,
) -> (res: Result<(Vec<Option<(u32, u16)>>, u64), String>)
    ensures
        first_kids is None ==> (res matches Err(m) && m@ == "No PDFs to merge"@),
        first_kids matches Some(first) ==> (res matches Ok((kids, count)) && kids@ == first@ + flatten_kids(
            kid_lists(more_kids@),
        ) && count == kids@.len()),
{
    let first = match first_kids {
        Some(f) => f,
        None => {
            return Err(String::from_str("No PDFs to merge"));
        },
    };
    let mut kids: Vec<Option<(u32, u16)>> = Vec::new();
    append_kids(&mut kids, first);
    let mut i: usize = 0;
    while i < more_kids.len()
        invariant
            i <= more_kids@.len(),
            kids@ == first@ + flatten_kids(kid_lists(more_kids@).take(i as int)),
        decreases more_kids@.len() - i,
    {
        append_kids(&mut kids, &more_kids[i]);
        proof {
            let t = kid_lists(more_kids@).take(i + 1);
            assert(t.drop_last() =~= kid_lists(more_kids@).take(i as int));
            assert(t.last() == more_kids@[i as int]@);
            assert(kids@ =~= first@ + flatten_kids(t));
        }
        i += 1;
    }
    assert(kid_lists(more_kids@).take(more_kids@.len() as int) =~= kid_lists(more_kids@));
    let count = kids.len() as u64;
    Ok((kids, count))
}

/// The pages to re-parent to the first document's page tree: the kids of the
/// further documents that are references, in order.
pub fn kids_to_reparent(more_kids: &Vec<Vec<Option<(u32, u16)>>>) -> (res: Vec<(u32, u16)>)
    ensures
        res@ == references(flatten_kids(kid_lists(more_kids@))),
{
    let mut all: Vec<Option<(u32, u16)>> = Vec::new();
    let mut i: usize = 0;
    while i < more_kids.len()
        invariant
            i <= more_kids@.len(),
            all@ == flatten_kids(kid_lists(more_kids@).take(i as int)),
        decreases more_kids@.len() - i,
    {
        append_kids(&mut all, &more_kids[i]);
        proof {
            let t = kid_lists(more_kids@).take(i + 1);
            assert(t.drop_last() =~= kid_lists(more_kids@).take(i as int));
            assert(t.last() == more_kids@[i as int]@);
        }
        i += 1;
    }
    assert(kid_lists(more_kids@).take(more_kids@.len() as int) =~= kid_lists(more_kids@));
    let mut res: Vec<(u32, u16)> = Vec::new();
    let mut k: usize = 0;
    while k < all.len()
        invariant
            k <= all@.len(),
            res@ == references(all@.take(k as int)),
        decreases all@.len() - k,
    {
        proof {
            assert(all@.take(k + 1).drop_last() =~= all@.take(k as int));
            assert(all@.take(k + 1).last() == all@[k as int]);
        }
        match all[k] {
            Some(id) => res.push(id),
            None => {},
        }
        k += 1;
    }
    assert(all@.take(all@.len() as int) =~= all@);
    res
}

} // verus!
