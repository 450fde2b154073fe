//! Selecting items by category.
use vstd::prelude::*;
use crate::domain::entities::{Category, ClipboardItem};

verus! {

pub open spec fn in_category(c: Category) -> spec_fn(ClipboardItem) -> bool {
    |it: ClipboardItem| it.category == Some(c)
}

pub open spec fn in_categories(cs: Seq<Category>) -> spec_fn(ClipboardItem) -> bool {
    |it: ClipboardItem| it.category matches Some(c) && cs.contains(c)
}

pub open spec fn without_category() -> spec_fn(ClipboardItem) -> bool {
    |it: ClipboardItem| it.category is None
}

/// `r` lists, in order, the items `expected`.
pub open spec fn refs_of(r: Seq<&ClipboardItem>, expected: Seq<ClipboardItem>) -> bool {
    &&& r.len() == expected.len()
    &&& forall|i: int| 0 <= i < r.len() ==> *r[i] == expected[i]
}

/// Selects items by category.
pub struct CategoryFilterService;

impl CategoryFilterService {
    /// The items of `items` satisfying `p`, in order.
    fn select<'a>(items: &'a [ClipboardItem], Ghost(p): Ghost<spec_fn(ClipboardItem) -> bool>, mode: u8, category: Category, categories: &[Category]) -> (r: Vec<&'a ClipboardItem>)
        requires
            forall|it: ClipboardItem| #[trigger] p(it) == match mode {
                0 => it.category == Some(category),
                1 => it.category matches Some(c) && categories@.contains(c),
                _ => it.category is None,
            },
        ensures
            refs_of(r@, items@.filter(p)),
    {
        let mut out: Vec<&'a ClipboardItem> = Vec::new();
        let mut i: usize = 0;
        while i < items.len()
            invariant
                i <= items.len(),
                forall|it: ClipboardItem| #[trigger] p(it) == match mode {
                    0 => it.category == Some(category),
                    1 => it.category matches Some(c) && categories@.contains(c),
                    _ => it.category is None,
                },
                refs_of(out@, items@.take(i as int).filter(p)),
            decreases items.len() - i,
        {
            proof {
                assert(items@.take(i as int + 1) == items@.take(i as int).push(items@[i as int]));
                items@.take(i as int).lemma_filter_push(items@[i as int], p);
            }
            let it = &items[i];
            let keep = match mode {
                0 => match it.category {
                    Some(c) => c == category,
                    None => false,
                },
                1 => match it.category {
                    Some(c) => Self::contains_category(categories, c),
                    None => false,
                },
                _ => it.category.is_none(),
            };
            if keep {
                out.push(it);
            }
            i += 1;
        }
        assert(items@.take(items.len() as int) == items@);
        out
    }

    fn contains_category(categories: &[Category], c: Category) -> (r: bool)
        ensures
            r == categories@.contains(c),
    {
        let mut i: usize = 0;
        while i < categories.len()
            invariant
                i <= categories.len(),
                forall|k: int| 0 <= k < i ==> categories@[k] != c,
            decreases categories.len() - i,
        {
            if categories[i] == c {
                return true;
            }
            i += 1;
        }
        false
    }

    /// The items of category `category`, in order.
    pub fn filter_by_category<'a>(items: &'a [ClipboardItem], category: &Category) -> (r: Vec<
        &'a ClipboardItem,
    >)
        ensures
            refs_of(r@, items@.filter(in_category(*category))),
    {
        Self::select(items, Ghost(in_category(*category)), 0, *category, &[])
    }

    /// The items whose category is one of `categories`, in order.
    pub fn filter_by_categories<'a>(items: &'a [ClipboardItem], categories: &[Category]) -> (r: Vec<
        &'a ClipboardItem,
    >)
        ensures
            refs_of(r@, items@.filter(in_categories(categories@))),
    {
        Self::select(items, Ghost(in_categories(categories@)), 1, Category::Other, categories)
    }

    /// The items without a category, in order.
    pub fn filter_without_category(items: &[ClipboardItem]) -> (r: Vec<&ClipboardItem>)
        ensures
            refs_of(r@, items@.filter(without_category())),
    {
        Self::select(items, Ghost(without_category()), 2, Category::Other, &[])
    }

    /// How many items are of category `category`.
    pub fn count_by_category(items: &[ClipboardItem], category: &Category) -> (r: usize)
        ensures
            r == items@.filter(in_category(*category)).len(),
    {
        let v = Self::filter_by_category(items, category);
        v.len()
    }
}

/// Every item is in exactly one category or in none: the counts of the five
/// categories (what `count_by_category` gives, the length of what
/// `filter_by_category` gives) and the number of items without a category
/// add up to the number of items.
pub proof fn lemma_category_counts_add_up(items: Seq<ClipboardItem>)
    ensures
        items.filter(in_category(Category::Url)).len() + items.filter(in_category(Category::Email)).len()
            + items.filter(in_category(Category::Account)).len() + items.filter(
            in_category(Category::Picture),
        ).len() + items.filter(in_category(Category::Other)).len() + items.filter(
            without_category(),
        ).len() == items.len(),
    decreases items.len(),
{
    if items.len() == 0 {
        reveal(Seq::filter);
        assert(items.filter(without_category()) =~= Seq::<ClipboardItem>::empty());
        assert(items.filter(in_category(Category::Url)) =~= Seq::<ClipboardItem>::empty());
        assert(items.filter(in_category(Category::Email)) =~= Seq::<ClipboardItem>::empty());
        assert(items.filter(in_category(Category::Account)) =~= Seq::<ClipboardItem>::empty());
        assert(items.filter(in_category(Category::Picture)) =~= Seq::<ClipboardItem>::empty());
        assert(items.filter(in_category(Category::Other)) =~= Seq::<ClipboardItem>::empty());
    } else {
        let t = items.drop_last();
        let x = items.last();
        lemma_category_counts_add_up(t);
        assert(items == t.push(x));
        t.lemma_filter_push(x, in_category(Category::Url));
        t.lemma_filter_push(x, in_category(Category::Email));
        t.lemma_filter_push(x, in_category(Category::Account));
        t.lemma_filter_push(x, in_category(Category::Picture));
        t.lemma_filter_push(x, in_category(Category::Other));
        t.lemma_filter_push(x, without_category());
        match x.category {
            Some(Category::Url) => assert(in_category(Category::Url)(x)),
            Some(Category::Email) => assert(in_category(Category::Email)(x)),
            Some(Category::Account) => assert(in_category(Category::Account)(x)),
            Some(Category::Picture) => assert(in_category(Category::Picture)(x)),
            Some(Category::Other) => assert(in_category(Category::Other)(x)),
            None => assert(without_category()(x)),
        }
    }
}

} // verus!
