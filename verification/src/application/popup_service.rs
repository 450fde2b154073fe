//! What the popup lists, and the details it shows of an item.
use vstd::prelude::*;
use crate::domain::entities::{display_text_of, Category, ClipboardItem, Content, ItemId};
use crate::domain::repositories::ClipboardRepository;
use crate::integration::recency_keys;
use crate::ordering::{is_permutation_of_range, lemma_stable_order, stable_order, stable_order_exec};
use crate::shared::{MaccyError, Result};
use crate::text::{cuttable, owned, truncate_bytes, truncated};
use super::category_filter_service::{in_category, CategoryFilterService};
use super::category_service::{with_category, CategoryService};
use super::fuzzy_search_service::{search_result, FuzzySearchService};

verus! {

broadcast use vstd::seq_lib::group_filter_ensures;

pub open spec fn opt_str_view(q: Option<&str>) -> Option<Seq<char>> {
    match q {
        Some(s) => Some(s@),
        None => None,
    }
}

/// Sort keys: lowest pin order first.
pub open spec fn pin_keys(s: Seq<ClipboardItem>) -> Seq<(i128, i128)> {
    s.map_values(|it: ClipboardItem| (it.pin_order as i128, 0i128))
}

/// `s` ordered by `keys`, equal keys in their order in `s`.
pub open spec fn sorted_by(keys: Seq<(i128, i128)>, s: Seq<ClipboardItem>) -> Seq<ClipboardItem> {
    stable_order(keys).map_values(|k: usize| s[k as int])
}

pub open spec fn pinned_item() -> spec_fn(ClipboardItem) -> bool {
    |it: ClipboardItem| it.is_pinned
}

pub open spec fn unpinned_item() -> spec_fn(ClipboardItem) -> bool {
    |it: ClipboardItem| !it.is_pinned
}

pub open spec fn min_int(a: int, b: int) -> int {
    if a <= b {
        a
    } else {
        b
    }
}

/// What the popup lists of `all` for an optional search query: the items
/// found, each with a category; pinned ones first by pin order, then the
/// rest most recently used first; at most `max` of them.
pub open spec fn display_list(all: Seq<ClipboardItem>, query: Option<Seq<char>>, max: int) -> Seq<
    ClipboardItem,
> {
    let found = match query {
        Some(q) => search_result(all, q),
        None => all,
    };
    let pinned = found.filter(pinned_item()).map_values(|it: ClipboardItem| with_category(it));
    let unpinned = found.filter(unpinned_item()).map_values(|it: ClipboardItem| with_category(it));
    let ordered = sorted_by(pin_keys(pinned), pinned) + sorted_by(recency_keys(unpinned), unpinned);
    ordered.take(min_int(ordered.len() as int, max))
}

/// The popup's list for `repo`, an optional query and at most `max` items:
/// the repository's items as `find_all` gives them, listed by
/// `display_list`; or the repository's error.
pub open spec fn display_outcome<R: ClipboardRepository>(
    repo: R,
    query: Option<Seq<char>>,
    max: int,
    r: Result<Vec<ClipboardItem>>,
) -> bool {
    exists|f: Result<Vec<ClipboardItem>>|
        #[trigger] call_ensures(R::find_all, (&repo,), f) && match f {
            Err(e) => r == Err::<Vec<ClipboardItem>, MaccyError>(e),
            Ok(all) => r matches Ok(v) && v@ == display_list(all@, query, max),
        }
}

/// The outcome of looking up item `id` in `repo` and answering `answer` of
/// what was found (`None` when nothing was).
pub open spec fn lookup_outcome<R: ClipboardRepository, T>(
    repo: R,
    id: ItemId,
    answer: spec_fn(Option<ClipboardItem>) -> Result<T>,
    r: Result<T>,
) -> bool {
    exists|f: Result<Option<ClipboardItem>>|
        #[trigger] call_ensures(R::find_by_id, (&repo, id), f) && match f {
            Err(e) => r == Err::<T, MaccyError>(e),
            Ok(o) => r == answer(o),
        }
}

/// The badge shown for a category.
pub open spec fn badge_of(c: Category) -> Seq<char> {
    match c {
        Category::Url => "🔗"@,
        Category::Email => "📧"@,
        Category::Account => "👤"@,
        Category::Picture => "🖼️"@,
        Category::Other => "📝"@,
    }
}

/// The badge shown for a category.
pub fn badge(c: Category) -> (r: String)
    ensures
        r@ == badge_of(c),
{
    match c {
        Category::Url => owned("🔗"),
        Category::Email => owned("📧"),
        Category::Account => owned("👤"),
        Category::Picture => owned("🖼️"),
        Category::Other => owned("📝"),
    }
}

/// The text pasted for an item: its text, or `[Image]` for an image.
pub open spec fn paste_text_of(c: Content) -> Seq<char> {
    match c {
        Content::Text(t) => t@,
        Content::Image(_) => "[Image]"@,
    }
}

/// The items of `v` in the order of `keys`, equal keys in their order in `v`.
fn reorder(v: &Vec<ClipboardItem>, keys: &Vec<(i128, i128)>) -> (r: Vec<ClipboardItem>)
    requires
        keys.len() == v.len(),
    ensures
        r@ == sorted_by(keys@, v@),
{
    let order = stable_order_exec(keys);
    proof {
        lemma_stable_order(keys@);
    }
    let mut out: Vec<ClipboardItem> = Vec::new();
    let mut k: usize = 0;
    while k < order.len()
        invariant
            order@ == stable_order(keys@),
            keys.len() == v.len(),
            is_permutation_of_range(order@, keys@.len()),
            k <= order.len(),
            out@ == order@.take(k as int).map_values(|j: usize| v@[j as int]),
        decreases order.len() - k,
    {
        let j = order[k];
        out.push(v[j].copied());
        assert(order@.take(k as int + 1) =~= order@.take(k as int).push(j));
        assert(out@ =~= order@.take(k as int + 1).map_values(|j: usize| v@[j as int]));
        k += 1;
    }
    assert(order@.take(order.len() as int) == order@);
    out
}

/// Lists and describes items for the popup.
pub struct PopupService<R: ClipboardRepository> {
    repository: R,
    search_service: FuzzySearchService,
    max_items: usize,
}

impl<R: ClipboardRepository> PopupService<R> {
    pub closed spec fn repo(&self) -> R {
        self.repository
    }

    pub closed spec fn max(&self) -> usize {
        self.max_items
    }

    pub fn new(repository: R, max_items: usize) -> (s: Self)
        ensures
            s.repo() == repository,
            s.max() == max_items,
    {
        PopupService { repository, search_service: FuzzySearchService::new(), max_items }
    }

    /// How many items the popup lists at most.
    pub fn max_items(&self) -> (r: usize)
        ensures
            r == self.max(),
    {
        self.max_items
    }

    /// The service over repository `r` in place of its own.
    pub closed spec fn with_repo(self, r: R) -> Self {
        PopupService { repository: r, ..self }
    }

    /// The repository served, for changes made beside this service.
    pub fn repository_mut(&mut self) -> (r: &mut R)
        ensures
            *r == old(self).repo(),
            *final(self) == old(self).with_repo(*final(r)),
    {
        &mut self.repository
    }

    /// The repository served, given back.
    pub fn into_repository(self) -> (r: R)
        ensures
            r == self.repo(),
    {
        self.repository
    }

    /// What the popup lists for an optional search query, from all the
    /// repository's items.
    pub fn get_display_items(&self, query: Option<&str>) -> (r: Result<Vec<ClipboardItem>>)
        ensures
            display_outcome(self.repo(), opt_str_view(query), self.max() as int, r),
    {
        let f = self.repository.find_all();
        assert(call_ensures(R::find_all, (&self.repo(),), f));
        let all = match f {
            Ok(all) => all,
            Err(e) => return Err(e),
        };
        let mut found: Vec<ClipboardItem> = Vec::new();
        match query {
            Some(q) => {
                let refs = self.search_service.search(all.as_slice(), q);
                let mut i: usize = 0;
                while i < refs.len()
                    invariant
                        i <= refs.len(),
                        found@.len() == i,
                        forall|k: int| 0 <= k < i ==> found@[k] == *refs@[k],
                    decreases refs.len() - i,
                {
                    found.push(refs[i].copied());
                    i += 1;
                }
                assert(found@ =~= search_result(all@, q@));
            },
            None => {
                let mut i: usize = 0;
                while i < all.len()
                    invariant
                        i <= all.len(),
                        found@ == all@.take(i as int),
                    decreases all.len() - i,
                {
                    found.push(all[i].copied());
                    assert(all@.take(i as int + 1) =~= all@.take(i as int).push(all@[i as int]));
                    i += 1;
                }
                assert(all@.take(all.len() as int) =~= all@);
            },
        }
        let ghost fs = found@;
        let mut pinned: Vec<ClipboardItem> = Vec::new();
        let mut unpinned: Vec<ClipboardItem> = Vec::new();
        let mut i: usize = 0;
        while i < found.len()
            invariant
                fs == found@,
                i <= found.len(),
                pinned@ == fs.take(i as int).filter(pinned_item()),
                unpinned@ == fs.take(i as int).filter(unpinned_item()),
            decreases found.len() - i,
        {
            proof {
                assert(fs.take(i as int + 1) == fs.take(i as int).push(fs[i as int]));
                fs.take(i as int).lemma_filter_push(fs[i as int], pinned_item());
                fs.take(i as int).lemma_filter_push(fs[i as int], unpinned_item());
            }
            if found[i].pinned() {
                pinned.push(found[i].copied());
            } else {
                unpinned.push(found[i].copied());
            }
            i += 1;
        }
        assert(fs.take(found.len() as int) == fs);
        CategoryService::detect_for_items(&mut pinned);
        CategoryService::detect_for_items(&mut unpinned);
        let mut pkeys: Vec<(i128, i128)> = Vec::new();
        let mut i: usize = 0;
        while i < pinned.len()
            invariant
                i <= pinned.len(),
                pkeys@ == pin_keys(pinned@).take(i as int),
            decreases pinned.len() - i,
        {
            pkeys.push((pinned[i].pin_order as i128, 0i128));
            assert(pin_keys(pinned@).take(i as int + 1) =~= pin_keys(pinned@).take(i as int).push(
                (pinned@[i as int].pin_order as i128, 0i128),
            ));
            i += 1;
        }
        assert(pin_keys(pinned@).take(pinned.len() as int) =~= pin_keys(pinned@));
        let mut ukeys: Vec<(i128, i128)> = Vec::new();
        let mut i: usize = 0;
        while i < unpinned.len()
            invariant
                i <= unpinned.len(),
                ukeys@ == recency_keys(unpinned@).take(i as int),
            decreases unpinned.len() - i,
        {
            ukeys.push((-(unpinned[i].last_used_at.0 as i128), 0i128));
            assert(recency_keys(unpinned@).take(i as int + 1) =~= recency_keys(unpinned@).take(
                i as int,
            ).push(((-(unpinned@[i as int].last_used_at.0 as i128)) as i128, 0i128)));
            i += 1;
        }
        assert(recency_keys(unpinned@).take(unpinned.len() as int) =~= recency_keys(unpinned@));
        let sp = reorder(&pinned, &pkeys);
        let su = reorder(&unpinned, &ukeys);
        let mut result: Vec<ClipboardItem> = Vec::new();
        let mut i: usize = 0;
        while i < sp.len()
            invariant
                i <= sp.len(),
                result@ == sp@.take(i as int),
                result@ == sp@.take(i as int) + su@.take(0),
            decreases sp.len() - i,
        {
            result.push(sp[i].copied());
            assert(sp@.take(i as int + 1) =~= sp@.take(i as int).push(sp@[i as int]));
            i += 1;
        }
        let mut j: usize = 0;
        while j < su.len()
            invariant
                j <= su.len(),
                result@ == sp@ + su@.take(j as int),
            decreases su.len() - j,
        {
            result.push(su[j].copied());
            assert(su@.take(j as int + 1) =~= su@.take(j as int).push(su@[j as int]));
            j += 1;
        }
        assert(su@.take(su.len() as int) =~= su@);
        if result.len() > self.max_items {
            result.truncate(self.max_items);
        }
        proof {
            let found_spec = match query {
                Some(q) => search_result(all@, q@),
                None => all@,
            };
            assert(fs == found_spec);
            assert(result@ =~= display_list(all@, opt_str_view(query), self.max() as int));
        }
        Ok(result)
    }
}

impl<R: ClipboardRepository> PopupService<R> {
    /// The item at position `index` of what the popup lists for `query`.
    pub fn get_item_at_index(&self, index: usize, query: Option<&str>) -> (r: Result<
        Option<ClipboardItem>,
    >)
        ensures
            exists|d: Result<Vec<ClipboardItem>>|
                #[trigger] display_outcome(self.repo(), opt_str_view(query), self.max() as int, d)
                    && match d {
                    Err(e) => r == Err::<Option<ClipboardItem>, MaccyError>(e),
                    Ok(v) => r == Ok::<Option<ClipboardItem>, MaccyError>(
                        if index < v.len() {
                            Some(v@[index as int])
                        } else {
                            None
                        },
                    ),
                },
    {
        let d = self.get_display_items(query);
        match d {
            Err(e) => Err(e),
            Ok(items) => {
                if index < items.len() {
                    Ok(Some(items[index].copied()))
                } else {
                    Ok(None)
                }
            },
        }
    }

    /// The text pasted for item `id`: its text, `[Image]` for an image,
    /// `None` when there is no such item.
    pub fn get_item_for_paste(&self, item_id: ItemId) -> (r: Result<Option<String>>)
        ensures
            exists|f: Result<Option<ClipboardItem>>|
                #[trigger] call_ensures(R::find_by_id, (&self.repo(), item_id), f) && match f {
                    Err(e) => r == Err::<Option<String>, MaccyError>(e),
                    Ok(Some(item)) => r matches Ok(Some(t)) && t@ == paste_text_of(item.content),
                    Ok(None) => r matches Ok(None),
                },
    {
        let f = self.repository.find_by_id(item_id);
        assert(call_ensures(R::find_by_id, (&self.repo(), item_id), f));
        match f {
            Err(e) => Err(e),
            Ok(Some(item)) => match &item.content {
                Content::Text(text) => Ok(Some(text.clone())),
                Content::Image(_) => Ok(Some(owned("[Image]"))),
            },
            Ok(None) => Ok(None),
        }
    }

    /// The display text of item `id`, cut to `max_length` bytes with `...`
    /// appended when longer; `None` when there is no such item. A text whose
    /// cut would fall inside a character is refused with a `Validation` error.
    pub fn get_display_text(&self, item_id: ItemId, max_length: usize) -> (r: Result<
        Option<String>,
    >)
        ensures
            exists|f: Result<Option<ClipboardItem>>|
                #[trigger] call_ensures(R::find_by_id, (&self.repo(), item_id), f) && match f {
                    Err(e) => r == Err::<Option<String>, MaccyError>(e),
                    Ok(Some(item)) => if cuttable(display_text_of(item.content), max_length as nat) {
                        r matches Ok(Some(t)) && t@ == truncated(
                            display_text_of(item.content),
                            max_length as nat,
                        )
                    } else {
                        r matches Err(MaccyError::Validation(_))
                    },
                    Ok(None) => r matches Ok(None),
                },
    {
        let f = self.repository.find_by_id(item_id);
        assert(call_ensures(R::find_by_id, (&self.repo(), item_id), f));
        match f {
            Err(e) => Err(e),
            Ok(Some(item)) => {
                let text = item.display_text();
                let (len, cut) = crate::text::utf8_cut(text.as_str(), max_length);
                if len > max_length as u128 && cut.is_none() {
                    return Err(MaccyError::Validation(owned("Text cannot be cut at that length")));
                }
                Ok(Some(truncate_bytes(text.as_str(), max_length)))
            },
            Ok(None) => Ok(None),
        }
    }

    /// The badge of item `id`'s category; `None` when the item has no
    /// category or there is no such item.
    pub fn get_category_badge(&self, item_id: ItemId) -> (r: Result<Option<String>>)
        ensures
            exists|f: Result<Option<ClipboardItem>>|
                #[trigger] call_ensures(R::find_by_id, (&self.repo(), item_id), f) && match f {
                    Err(e) => r == Err::<Option<String>, MaccyError>(e),
                    Ok(Some(item)) => match item.category {
                        Some(c) => r matches Ok(Some(b)) && b@ == badge_of(c),
                        None => r matches Ok(None),
                    },
                    Ok(None) => r matches Ok(None),
                },
    {
        let f = self.repository.find_by_id(item_id);
        assert(call_ensures(R::find_by_id, (&self.repo(), item_id), f));
        match f {
            Err(e) => Err(e),
            Ok(Some(item)) => match item.category {
                Some(c) => Ok(Some(badge(c))),
                None => Ok(None),
            },
            Ok(None) => Ok(None),
        }
    }

    /// Whether item `id` is pinned; `false` when there is no such item.
    pub fn is_item_pinned(&self, item_id: ItemId) -> (r: Result<bool>)
        ensures
            exists|f: Result<Option<ClipboardItem>>|
                #[trigger] call_ensures(R::find_by_id, (&self.repo(), item_id), f) && match f {
                    Err(e) => r == Err::<bool, MaccyError>(e),
                    Ok(Some(item)) => r == Ok::<bool, MaccyError>(item.is_pinned),
                    Ok(None) => r == Ok::<bool, MaccyError>(false),
                },
    {
        let f = self.repository.find_by_id(item_id);
        assert(call_ensures(R::find_by_id, (&self.repo(), item_id), f));
        match f {
            Err(e) => Err(e),
            Ok(Some(item)) => Ok(item.pinned()),
            Ok(None) => Ok(false),
        }
    }

    /// How many items the popup lists for `query`.
    pub fn get_display_count(&self, query: Option<&str>) -> (r: Result<usize>)
        ensures
            exists|d: Result<Vec<ClipboardItem>>|
                #[trigger] display_outcome(self.repo(), opt_str_view(query), self.max() as int, d)
                    && match d {
                    Err(e) => r == Err::<usize, MaccyError>(e),
                    Ok(v) => r matches Ok(n) && n == v.len(),
                },
    {
        match self.get_display_items(query) {
            Ok(items) => Ok(items.len()),
            Err(e) => Err(e),
        }
    }

    /// The `limit` most recently used items, most recent first.
    pub fn get_recommended_items(&self, limit: usize) -> (r: Result<Vec<ClipboardItem>>)
        ensures
            exists|f: Result<Vec<ClipboardItem>>|
                #[trigger] call_ensures(R::find_all, (&self.repo(),), f) && match f {
                    Err(e) => r == Err::<Vec<ClipboardItem>, MaccyError>(e),
                    Ok(all) => r matches Ok(v) && v@ == sorted_by(recency_keys(all@), all@).take(
                        min_int(all@.len() as int, limit as int),
                    ),
                },
    {
        let f = self.repository.find_all();
        assert(call_ensures(R::find_all, (&self.repo(),), f));
        let all = match f {
            Ok(all) => all,
            Err(e) => return Err(e),
        };
        let mut keys: Vec<(i128, i128)> = Vec::new();
        let mut i: usize = 0;
        while i < all.len()
            invariant
                i <= all.len(),
                keys@ == recency_keys(all@).take(i as int),
            decreases all.len() - i,
        {
            keys.push((-(all[i].last_used_at.0 as i128), 0i128));
            assert(recency_keys(all@).take(i as int + 1) =~= recency_keys(all@).take(i as int).push(
                ((-(all@[i as int].last_used_at.0 as i128)) as i128, 0i128),
            ));
            i += 1;
        }
        assert(recency_keys(all@).take(all.len() as int) =~= recency_keys(all@));
        let mut sorted = reorder(&all, &keys);
        proof {
            lemma_stable_order(keys@);
        }
        assert(sorted@.len() == all@.len());
        if sorted.len() > limit {
            sorted.truncate(limit);
        }
        assert(sorted@ =~= sorted_by(recency_keys(all@), all@).take(
            min_int(all@.len() as int, limit as int),
        ));
        Ok(sorted)
    }

    /// The items of category `category`.
    pub fn get_items_by_category(&self, category: &Category) -> (r: Result<Vec<ClipboardItem>>)
        ensures
            exists|f: Result<Vec<ClipboardItem>>|
                #[trigger] call_ensures(R::find_all, (&self.repo(),), f) && match f {
                    Err(e) => r == Err::<Vec<ClipboardItem>, MaccyError>(e),
                    Ok(all) => r matches Ok(v) && v@ == all@.filter(in_category(*category)),
                },
    {
        let f = self.repository.find_all();
        assert(call_ensures(R::find_all, (&self.repo(),), f));
        let all = match f {
            Ok(all) => all,
            Err(e) => return Err(e),
        };
        let refs = CategoryFilterService::filter_by_category(all.as_slice(), category);
        let mut out: Vec<ClipboardItem> = Vec::new();
        let mut i: usize = 0;
        while i < refs.len()
            invariant
                i <= refs.len(),
                out@.len() == i,
                forall|k: int| 0 <= k < i ==> out@[k] == *refs@[k],
            decreases refs.len() - i,
        {
            out.push(refs[i].copied());
            i += 1;
        }
        assert(out@ =~= all@.filter(in_category(*category)));
        Ok(out)
    }

    /// How many items are of category `category`.
    pub fn count_by_category(&self, category: &Category) -> (r: Result<usize>)
        ensures
            exists|f: Result<Vec<ClipboardItem>>|
                #[trigger] call_ensures(R::find_all, (&self.repo(),), f) && match f {
                    Err(e) => r == Err::<usize, MaccyError>(e),
                    Ok(all) => r matches Ok(n) && n == all@.filter(in_category(*category)).len(),
                },
    {
        let f = self.repository.find_all();
        assert(call_ensures(R::find_all, (&self.repo(),), f));
        match f {
            Ok(all) => Ok(CategoryFilterService::count_by_category(all.as_slice(), category)),
            Err(e) => Err(e),
        }
    }
}

} // verus!

verus! {

/// The popup lists pinned items before unpinned ones, pinned ones by pin
/// order, every listed item with a category, and no more than `max`.
pub proof fn lemma_display_order(all: Seq<ClipboardItem>, query: Option<Seq<char>>, max: int)
    requires
        all.len() <= usize::MAX,
        max >= 0,
    ensures
        display_list(all, query, max).len() <= max,
        forall|i: int|
            0 <= i < display_list(all, query, max).len() ==> (#[trigger] display_list(all, query, max)[i]).category is Some,
        forall|i: int, j: int|
            0 <= i < j < display_list(all, query, max).len() && (#[trigger] display_list(all, query, max)[j]).is_pinned
                ==> (#[trigger] display_list(all, query, max)[i]).is_pinned,
        forall|i: int, j: int|
            0 <= i < j < display_list(all, query, max).len() && (#[trigger] display_list(all, query, max)[i]).is_pinned
                && (#[trigger] display_list(all, query, max)[j]).is_pinned ==> display_list(all, query, max)[i].pin_order
                <= display_list(all, query, max)[j].pin_order,
{
    let found = match query {
        Some(q) => search_result(all, q),
        None => all,
    };
    match query {
        Some(q) => {
            super::fuzzy_search_service::lemma_search_result(all, q);
            if q.len() > 0 {
                let (cat, sq) = super::fuzzy_search_service::query_filter(q);
                assert(found.len() <= all.len());
            }
        },
        None => {},
    }
    let pinned = found.filter(pinned_item()).map_values(|it: ClipboardItem| with_category(it));
    let unpinned = found.filter(unpinned_item()).map_values(|it: ClipboardItem| with_category(it));
    let pk = pin_keys(pinned);
    let uk = recency_keys(unpinned);
    lemma_stable_order(pk);
    lemma_stable_order(uk);
    let sp = sorted_by(pk, pinned);
    let su = sorted_by(uk, unpinned);
    let ordered = sp + su;
    let d = display_list(all, query, max);
    assert(d == ordered.take(min_int(ordered.len() as int, max)));
    assert forall|k: int| 0 <= k < sp.len() implies #[trigger] sp[k].is_pinned && sp[k].category is Some by {
        let o = stable_order(pk);
        assert(sp[k] == pinned[o[k] as int]);
        assert(pinned_item()(found.filter(pinned_item())[o[k] as int]));
    }
    assert forall|k: int| 0 <= k < su.len() implies !(#[trigger] su[k]).is_pinned && su[k].category is Some by {
        let o = stable_order(uk);
        assert(su[k] == unpinned[o[k] as int]);
        assert(unpinned_item()(found.filter(unpinned_item())[o[k] as int]));
    }
    assert forall|i: int| 0 <= i < d.len() implies (#[trigger] d[i]).category is Some by {
        if i < sp.len() {
            assert(d[i] == sp[i]);
        } else {
            assert(d[i] == su[i - sp.len()]);
        }
    }
    assert forall|i: int, j: int| 0 <= i < j < d.len() && (#[trigger] d[j]).is_pinned implies (#[trigger] d[i]).is_pinned by {
        if j >= sp.len() {
            assert(d[j] == su[j - sp.len()]);
        } else {
            assert(d[i] == sp[i]);
        }
    }
    assert forall|i: int, j: int| 0 <= i < j < d.len() && (#[trigger] d[i]).is_pinned && (#[trigger] d[j]).is_pinned implies d[i].pin_order <= d[j].pin_order by {
        if j < sp.len() {
            let o = stable_order(pk);
            assert(d[i] == sp[i] && d[j] == sp[j]);
            assert(crate::ordering::key_le(pk[o[i] as int], pk[o[j] as int]));
        } else {
            assert(d[j] == su[j - sp.len()]);
        }
    }
}

/// A popup service over another repository keeps its size; over its own
/// repository it is itself.
pub broadcast proof fn lemma_popup_with_repo<R: ClipboardRepository>(s: PopupService<R>, r: R)
    ensures
        (#[trigger] s.with_repo(r)).repo() == r,
        s.with_repo(r).max() == s.max(),
        s.repo() == r ==> s.with_repo(r) == s,
{
}

/// Replacing the repository twice is replacing it once.
pub broadcast proof fn lemma_popup_with_repo_twice<R: ClipboardRepository>(s: PopupService<R>, a: R, b: R)
    ensures
        #[trigger] s.with_repo(a).with_repo(b) == s.with_repo(b),
{
}

} // verus!
