//! A category and everything filed below it.
//!
//! Categories form a forest: each names its parent, and a root names none.
//! Listing the publications of a category takes in those of every category
//! below it, so the question here is which categories those are.

use vstd::prelude::*;
use vstd::string::*;
use crate::models::Category;

verus! {

/// The categories whose parent is `id`, in the order of the catalogue.
pub open spec fn children(categories: Seq<Category>, id: i32) -> Seq<Category> {
    categories.filter(|c: Category| c.parent_id == Some(id))
}

/// The categories below `id`, no further down than `depth` levels: its
/// children first, then what lies below each child in turn.
pub open spec fn descendants(categories: Seq<Category>, id: i32, depth: nat) -> Seq<Category>
    decreases depth, 0nat,
{
    if depth == 0 {
        Seq::empty()
    } else {
        let direct = children(categories, id);
        direct + below_each(categories, direct, (depth - 1) as nat)
    }
}

/// What lies below each of `parents` in turn, no further down than `depth`
/// levels.
pub open spec fn below_each(categories: Seq<Category>, parents: Seq<Category>, depth: nat) -> Seq<
    Category,
>
    decreases depth, parents.len() + 1,
{
    if parents.len() == 0 {
        Seq::empty()
    } else {
        below_each(categories, parents.drop_last(), depth) + descendants(
            categories,
            parents.last().id,
            depth,
        )
    }
}

/// The first category with identifier `id`.
pub open spec fn category_with(categories: Seq<Category>, id: i32) -> Option<Category>
    decreases categories.len(),
{
    if categories.len() == 0 {
        None
    } else if categories[0].id == id {
        Some(categories[0])
    } else {
        category_with(categories.drop_first(), id)
    }
}

fn copy_of(category: &Category) -> (out: Category)
    ensures
        out == *category,
{
    Category { id: category.id, name: category.name.clone(), parent_id: category.parent_id }
}

/// Finds a category by its identifier.
pub fn get_category(categories: &Vec<Category>, category_id: i32) -> (found: Option<Category>)
    ensures
        found == category_with(categories@, category_id),
{
    let mut i: usize = 0;
    assert(categories@.skip(0) == categories@);
    while i < categories.len()
        invariant
            i <= categories.len(),
            category_with(categories@, category_id) == category_with(
                categories@.skip(i as int),
                category_id,
            ),
        decreases categories.len() - i,
    {
        assert(categories@.skip(i as int).drop_first() == categories@.skip(i + 1));
        if categories[i].id == category_id {
            return Some(copy_of(&categories[i]));
        }
        i += 1;
    }
    None
}

/// Collects the categories below `category_id`, no further down than
/// `depth` levels.
pub fn get_descendant_rec(categories: &Vec<Category>, category_id: i32, depth: usize) -> (out: Vec<
    Category,
>)
    ensures
        out@ == descendants(categories@, category_id, depth as nat),
    decreases depth,
{
    if depth == 0 {
        return Vec::new();
    }
    let ghost is_child = |c: Category| c.parent_id == Some(category_id);
    let mut out: Vec<Category> = Vec::new();
    let mut i: usize = 0;
    proof {
        reveal(Seq::filter);
        assert(categories@.take(0) == Seq::<Category>::empty());
    }
    while i < categories.len()
        invariant
            i <= categories.len(),
            is_child == (|c: Category| c.parent_id == Some(category_id)),
            out@ == categories@.take(i as int).filter(is_child),
        decreases categories.len() - i,
    {
        proof {
            reveal(Seq::filter);
            assert(categories@.take(i + 1).drop_last() == categories@.take(i as int));
            assert(categories@.take(i + 1).last() == categories@[i as int]);
        }
        let child = match categories[i].parent_id {
            Some(parent) => parent == category_id,
            None => false,
        };
        if child {
            out.push(copy_of(&categories[i]));
        }
        i += 1;
    }
    assert(categories@.take(categories.len() as int) == categories@);
    let ghost direct = children(categories@, category_id);
    let count = out.len();
    let mut k: usize = 0;
    assert(direct.take(0) == Seq::<Category>::empty());
    while k < count
        invariant
            k <= count,
            count == direct.len(),
            direct == children(categories@, category_id),
            depth > 0,
            out@.len() >= count,
            out@.take(count as int) == direct,
            out@ == direct + below_each(categories@, direct.take(k as int), (depth - 1) as nat),
        decreases count - k,
    {
        proof {
            assert(direct.take(k + 1).drop_last() == direct.take(k as int));
            assert(direct.take(k + 1).last() == direct[k as int]);
            assert(out@[k as int] == direct[k as int]);
        }
        let id = out[k].id;
        let mut below = get_descendant_rec(categories, id, depth - 1);
        let ghost before = out@;
        out.append(&mut below);
        assert(out@ =~= direct + below_each(categories@, direct.take(k + 1), (depth - 1) as nat));
        assert(out@.take(count as int) =~= before.take(count as int));
        k += 1;
    }
    assert(direct.take(count as int) == direct);
    out
}

/// The category `category_id` followed by every category below it, or
/// nothing where the catalogue has no such category. In a forest no chain of
/// parents is longer than the number of categories, so that many levels
/// reach everything.
pub fn get_category_and_descendants(categories: &Vec<Category>, category_id: i32) -> (out: Option<
    Vec<Category>,
>)
    ensures
        match out {
            Some(list) => category_with(categories@, category_id) is Some && list@ == seq![
                category_with(categories@, category_id)->Some_0,
            ] + descendants(categories@, category_id, categories@.len()),
            None => category_with(categories@, category_id) is None,
        },
{
    match get_category(categories, category_id) {
        None => None,
        Some(parent) => {
            let mut list: Vec<Category> = Vec::new();
            list.push(parent);
            let mut below = get_descendant_rec(categories, category_id, categories.len());
            list.append(&mut below);
            Some(list)
        },
    }
}

/// A category is among those below `id` only if it is in the catalogue and
/// its parent is `id` itself or another category below `id`.
pub proof fn lemma_descendants_hang_together(categories: Seq<Category>, id: i32, depth: nat)
    ensures
        forall|k: int|
            0 <= k < descendants(categories, id, depth).len() ==> hangs_below(
                categories,
                descendants(categories, id, depth),
                id,
                #[trigger] descendants(categories, id, depth)[k],
            ),
    decreases depth, 0nat,
{
    let out = descendants(categories, id, depth);
    if depth > 0 {
        let direct = children(categories, id);
        let rest = below_each(categories, direct, (depth - 1) as nat);
        lemma_below_each_hang_together(categories, direct, (depth - 1) as nat);
        assert forall|k: int| 0 <= k < out.len() implies hangs_below(
            categories,
            out,
            id,
            #[trigger] out[k],
        ) by {
            if k < direct.len() {
                assert(out[k] == direct[k]);
                categories.lemma_filter_pred(|c: Category| c.parent_id == Some(id), k);
                assert(direct.contains(direct[k]));
                categories.lemma_filter_contains_rev(
                    |c: Category| c.parent_id == Some(id),
                    direct[k],
                );
            } else {
                let c = rest[k - direct.len()];
                assert(out[k] == c);
                assert(hangs_below_any(categories, direct, rest, c));
                if exists|j: int| 0 <= j < direct.len() && c.parent_id == Some(
                    (#[trigger] direct[j]).id,
                ) {
                    let j = choose|j: int|
                        0 <= j < direct.len() && c.parent_id == Some((#[trigger] direct[j]).id);
                    assert(out[j] == direct[j]);
                } else {
                    let j = choose|j: int|
                        0 <= j < rest.len() && c.parent_id == Some((#[trigger] rest[j]).id);
                    assert(out[direct.len() + j] == rest[j]);
                }
            }
        }
    }
}

/// `c` is in the catalogue, and its parent is `id` or one of `found`.
pub open spec fn hangs_below(
    categories: Seq<Category>,
    found: Seq<Category>,
    id: i32,
    c: Category,
) -> bool {
    &&& categories.contains(c)
    &&& (c.parent_id == Some(id) || exists|j: int|
        0 <= j < found.len() && c.parent_id == Some((#[trigger] found[j]).id))
}

/// `c` is in the catalogue, and its parent is one of `parents` or one of
/// `found`.
pub open spec fn hangs_below_any(
    categories: Seq<Category>,
    parents: Seq<Category>,
    found: Seq<Category>,
    c: Category,
) -> bool {
    &&& categories.contains(c)
    &&& ((exists|j: int| 0 <= j < parents.len() && c.parent_id == Some((#[trigger] parents[j]).id))
        || exists|j: int| 0 <= j < found.len() && c.parent_id == Some((#[trigger] found[j]).id))
}

proof fn lemma_below_each_hang_together(
    categories: Seq<Category>,
    parents: Seq<Category>,
    depth: nat,
)
    ensures
        forall|k: int|
            0 <= k < below_each(categories, parents, depth).len() ==> hangs_below_any(
                categories,
                parents,
                below_each(categories, parents, depth),
                #[trigger] below_each(categories, parents, depth)[k],
            ),
    decreases depth, parents.len() + 1,
{
    let out = below_each(categories, parents, depth);
    if parents.len() > 0 {
        let init = below_each(categories, parents.drop_last(), depth);
        let last = descendants(categories, parents.last().id, depth);
        lemma_below_each_hang_together(categories, parents.drop_last(), depth);
        lemma_descendants_hang_together(categories, parents.last().id, depth);
        assert forall|k: int| 0 <= k < out.len() implies hangs_below_any(
            categories,
            parents,
            out,
            #[trigger] out[k],
        ) by {
            if k < init.len() {
                let c = init[k];
                assert(out[k] == c);
                assert(hangs_below_any(categories, parents.drop_last(), init, c));
                if exists|j: int|
                    0 <= j < parents.drop_last().len() && c.parent_id == Some(
                        (#[trigger] parents.drop_last()[j]).id,
                    ) {
                    let j = choose|j: int|
                        0 <= j < parents.drop_last().len() && c.parent_id == Some(
                            (#[trigger] parents.drop_last()[j]).id,
                        );
                    assert(parents[j] == parents.drop_last()[j]);
                } else {
                    let j = choose|j: int|
                        0 <= j < init.len() && c.parent_id == Some((#[trigger] init[j]).id);
                    assert(out[j] == init[j]);
                }
            } else {
                let c = last[k - init.len()];
                assert(out[k] == c);
                assert(hangs_below(categories, last, parents.last().id, c));
                if c.parent_id == Some(parents.last().id) {
                    assert(parents[parents.len() - 1] == parents.last());
                } else {
                    let j = choose|j: int|
                        0 <= j < last.len() && c.parent_id == Some((#[trigger] last[j]).id);
                    assert(out[init.len() + j] == last[j]);
                }
            }
        }
    }
}

} // verus!
