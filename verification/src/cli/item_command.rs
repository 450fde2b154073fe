//! Managing items from the command line.
use vstd::prelude::*;
use crate::application::item_management_service::{
    lemma_items_with_repo, lemma_items_with_repo_twice, ItemManagementService,
};
use crate::domain::entities::{category_name, display_text_of, ClipboardItem, ItemId};
use crate::domain::repositories::ClipboardRepository;
use crate::shared::{MaccyError, Result};
use crate::text::{concat, decimal, int_error_message, int_error_text, owned, parse_i64, parse_int_spec};

verus! {

/// An item in a listing.
#[derive(Debug, Clone)]
pub struct ItemSummary {
    pub id: String,
    pub display_text: String,
    pub is_pinned: bool,
    pub has_category: bool,
}

/// An item in detail.
#[derive(Debug, Clone)]
pub struct ItemDetails {
    pub id: String,
    pub display_text: String,
    pub is_pinned: bool,
    pub category: Option<String>,
    pub mime_type: String,
}

/// `s` sums up `item`.
pub open spec fn summarizes(s: ItemSummary, item: ClipboardItem) -> bool {
    &&& s.id@ == decimal(item.id.0 as int)
    &&& s.display_text@ == display_text_of(item.content)
    &&& s.is_pinned == item.is_pinned
    &&& s.has_category == (item.category is Some)
}

/// `d` details `item`.
pub open spec fn details(d: ItemDetails, item: ClipboardItem) -> bool {
    &&& d.id@ == decimal(item.id.0 as int)
    &&& d.display_text@ == display_text_of(item.content)
    &&& d.is_pinned == item.is_pinned
    &&& match item.category {
        Some(c) => d.category matches Some(n) && n@ == category_name(c),
        None => d.category is None,
    }
    &&& d.mime_type@ == item.mime_type.0@
}

/// `r` sums up the items `items`, or is the error `items` holds.
pub open spec fn summaries_of(items: Result<Vec<ClipboardItem>>, r: Result<Vec<ItemSummary>>) -> bool {
    match items {
        Err(e) => r == Err::<Vec<ItemSummary>, MaccyError>(e),
        Ok(v) => r matches Ok(s) && s@.len() == v@.len() && forall|i: int|
            0 <= i < v@.len() ==> #[trigger] summarizes(s@[i], v@[i]),
    }
}

/// The identifier written `s`, or the error for a malformed one.
pub open spec fn parsed_id(s: Seq<char>) -> core::result::Result<ItemId, Seq<char>> {
    match parse_int_spec(s, true, i64::MIN as int, i64::MAX as int) {
        Ok(n) => Ok(ItemId(n as i64)),
        Err(k) => Err("Invalid ID: "@ + int_error_message(k)),
    }
}

/// `states` are the repository before and after each of the deletions of
/// `ids`, one after another, with results `results`.
pub open spec fn deletion_chain<R: ClipboardRepository>(
    states: Seq<R>,
    ids: Seq<ItemId>,
    results: Seq<Result<()>>,
) -> bool {
    &&& states.len() == ids.len() + 1
    &&& results.len() == ids.len()
    &&& forall|k: int|
        0 <= k < ids.len() ==> #[trigger] states[k].deleted(ids[k], &states[k + 1], results[k])
}

/// Deleting the items `ids` one after another, stopping at the first error,
/// took repository `before` to `after`; `r` is that error, or the number of
/// items deleted.
pub open spec fn deleted_in_turn<R: ClipboardRepository>(
    before: R,
    ids: Seq<ItemId>,
    after: R,
    r: Result<usize>,
) -> bool {
    exists|states: Seq<R>, results: Seq<Result<()>>|
        #[trigger] deletion_chain(states, ids.take(results.len() as int), results)
            && results.len() <= ids.len() && states[0] == before && states.last() == after
            && (forall|k: int| 0 <= k < results.len() - 1 ==> #[trigger] results[k] is Ok) && if results.len()
            > 0 && results.last() is Err {
            r == Err::<usize, MaccyError>(results.last()->Err_0)
        } else {
            results.len() == ids.len() && r == Ok::<usize, MaccyError>(ids.len() as usize)
        }
}

proof fn lemma_filter_take_prefix(s: Seq<ClipboardItem>, p: spec_fn(ClipboardItem) -> bool, i: int)
    requires
        0 <= i <= s.len(),
    ensures
        s.take(i).filter(p).len() <= s.filter(p).len(),
        s.filter(p).take(s.take(i).filter(p).len() as int) == s.take(i).filter(p),
    decreases s.len(),
{
    reveal(Seq::filter);
    if i == s.len() {
        assert(s.take(i) == s);
        assert(s.filter(p).take(s.filter(p).len() as int) == s.filter(p));
    } else {
        let t = s.drop_last();
        assert(s.take(i) == t.take(i));
        lemma_filter_take_prefix(t, p, i);
        if p(s.last()) {
            assert(s.filter(p) == t.filter(p).push(s.last()));
            assert(s.filter(p).take(t.take(i).filter(p).len() as int) =~= t.filter(p).take(
                t.take(i).filter(p).len() as int,
            ));
        } else {
            assert(s.filter(p) == t.filter(p));
        }
    }
}

/// Deleting the item written `id_str` took repository `before` to `after`
/// with result `r`; a malformed identifier is refused and changes nothing.
pub open spec fn delete_outcome<R: ClipboardRepository>(
    before: R,
    id_str: Seq<char>,
    after: R,
    r: Result<()>,
) -> bool {
    match parsed_id(id_str) {
        Ok(id) => before.deleted(id, &after, r),
        Err(m) => r matches Err(MaccyError::Validation(msg)) && msg@ == m && after == before,
    }
}

/// Flipping the pin of the item written `id_str` took repository `before`
/// to `after` with result `r`; a malformed identifier is refused and changes
/// nothing.
pub open spec fn toggle_outcome<R: ClipboardRepository>(
    before: R,
    id_str: Seq<char>,
    after: R,
    r: Result<()>,
) -> bool {
    match parsed_id(id_str) {
        Ok(id) => before.pin_toggled(id, &after, r),
        Err(m) => r matches Err(MaccyError::Validation(msg)) && msg@ == m && after == before,
    }
}

/// Clearing the unpinned items took repository `before` to `after` with
/// result `r`: the unpinned ones among the 1000 most recent are deleted in
/// turn.
pub open spec fn clear_outcome<R: ClipboardRepository>(before: R, after: R, r: Result<usize>) -> bool {
    exists|items: Result<Vec<ClipboardItem>>|
        #[trigger] call_ensures(R::find_recent, (&before, 1000usize), items) && match items {
            Err(e) => r == Err::<usize, MaccyError>(e) && after == before,
            Ok(v) => deleted_in_turn(before, unpinned_ids(v@), after, r),
        }
}

/// The identifiers of the unpinned items among `items`, in order.
pub open spec fn unpinned_ids(items: Seq<ClipboardItem>) -> Seq<ItemId> {
    items.filter(|it: ClipboardItem| !it.is_pinned).map_values(|it: ClipboardItem| it.id)
}

fn parse_id(id_str: &str) -> (r: Result<ItemId>)
    ensures
        match parsed_id(id_str@) {
            Ok(id) => r == Ok::<ItemId, MaccyError>(id),
            Err(m) => r matches Err(MaccyError::Validation(msg)) && msg@ == m,
        },
{
    match parse_i64(id_str) {
        Ok(n) => Ok(ItemId(n)),
        Err(k) => {
            let msg = int_error_text(k);
            Err(MaccyError::Validation(concat("Invalid ID: ", msg.as_str())))
        },
    }
}

fn summarize(item: &ClipboardItem) -> (s: ItemSummary)
    ensures
        summarizes(s, *item),
{
    ItemSummary {
        id: item.id.to_string(),
        display_text: item.display_text(),
        is_pinned: item.is_pinned,
        has_category: item.category.is_some(),
    }
}

fn summarize_all(items: Result<Vec<ClipboardItem>>) -> (r: Result<Vec<ItemSummary>>)
    ensures
        summaries_of(items, r),
{
    match items {
        Err(e) => Err(e),
        Ok(v) => {
            let mut out: Vec<ItemSummary> = Vec::new();
            let mut i: usize = 0;
            while i < v.len()
                invariant
                    i <= v.len(),
                    out@.len() == i,
                    forall|k: int| 0 <= k < i ==> #[trigger] summarizes(out@[k], v@[k]),
                decreases v.len() - i,
            {
                out.push(summarize(&v[i]));
                i += 1;
            }
            Ok(out)
        },
    }
}

/// Item management from the command line.
pub struct ItemCommand<R: ClipboardRepository> {
    service: ItemManagementService<R>,
}

impl<R: ClipboardRepository> ItemCommand<R> {
    pub closed spec fn repo(&self) -> R {
        self.service.repo()
    }

    pub fn new(repository: R) -> (c: Self)
        ensures
            c.repo() == repository,
    {
        ItemCommand { service: ItemManagementService::new(repository) }
    }

    /// The command over repository `r` in place of its own.
    pub closed spec fn with_repo(self, r: R) -> Self {
        ItemCommand { service: self.service.with_repo(r) }
    }

    /// The command's repository, for changes made beside it.
    pub fn repository_mut(&mut self) -> (r: &mut R)
        ensures
            *r == old(self).repo(),
            *final(self) == old(self).with_repo(*final(r)),
    {
        self.service.repository_mut()
    }

    /// Summaries of at most `limit` recent items.
    pub fn list_recent(&self, limit: usize) -> (r: Result<Vec<ItemSummary>>)
        ensures
            exists|items: Result<Vec<ClipboardItem>>|
                #[trigger] call_ensures(R::find_recent, (&self.repo(), limit), items) && summaries_of(items, r),
    {
        let items = self.service.get_recent_items(limit);
        assert(call_ensures(R::find_recent, (&self.repo(), limit), items));
        summarize_all(items)
    }

    /// Summaries of the pinned items.
    pub fn list_pinned(&self) -> (r: Result<Vec<ItemSummary>>)
        ensures
            exists|items: Result<Vec<ClipboardItem>>|
                #[trigger] call_ensures(R::find_pinned, (&self.repo(),), items) && summaries_of(items, r),
    {
        let items = self.service.get_pinned_items();
        assert(call_ensures(R::find_pinned, (&self.repo(),), items));
        summarize_all(items)
    }

    /// Deletes the item whose identifier is written `id_str`.
    pub fn delete(&mut self, id_str: &str) -> (r: Result<()>)
        ensures
            delete_outcome(old(self).repo(), id_str@, final(self).repo(), r),
    {
        let id = match parse_id(id_str) {
            Ok(id) => id,
            Err(e) => return Err(e),
        };
        self.service.delete_item(id)
    }

    /// Flips whether the item whose identifier is written `id_str` is pinned.
    pub fn toggle_pin(&mut self, id_str: &str) -> (r: Result<()>)
        ensures
            toggle_outcome(old(self).repo(), id_str@, final(self).repo(), r),
    {
        let id = match parse_id(id_str) {
            Ok(id) => id,
            Err(e) => return Err(e),
        };
        self.service.toggle_pin(id)
    }

    /// Details of the item whose identifier is written `id_str`.
    pub fn get_item(&self, id_str: &str) -> (r: Result<Option<ItemDetails>>)
        ensures
            match parsed_id(id_str@) {
                Ok(id) => exists|f: Result<Option<ClipboardItem>>|
                    #[trigger] call_ensures(R::find_by_id, (&self.repo(), id), f) && match f {
                        Err(e) => r == Err::<Option<ItemDetails>, MaccyError>(e),
                        Ok(Some(item)) => r matches Ok(Some(d)) && details(d, item),
                        Ok(None) => r matches Ok(None),
                    },
                Err(m) => r matches Err(MaccyError::Validation(msg)) && msg@ == m,
            },
    {
        let id = match parse_id(id_str) {
            Ok(id) => id,
            Err(e) => return Err(e),
        };
        let f = self.service.get_item(id);
        assert(call_ensures(R::find_by_id, (&self.repo(), id), f));
        match f {
            Err(e) => Err(e),
            Ok(Some(item)) => {
                let category = match item.category {
                    Some(c) => Some(c.name()),
                    None => None,
                };
                Ok(Some(ItemDetails {
                    id: item.id.to_string(),
                    display_text: item.display_text(),
                    is_pinned: item.is_pinned,
                    category,
                    mime_type: owned(item.mime_type.value()),
                }))
            },
            Ok(None) => Ok(None),
        }
    }

    /// How many items the repository holds.
    pub fn count(&self) -> (r: Result<usize>)
        ensures
            call_ensures(R::count, (&self.repo(),), r),
    {
        self.service.get_total_count()
    }

    /// Deletes the unpinned items among the 1000 most recent ones; returns
    /// how many were deleted. The first error met is returned.
    pub fn clear_unpinned(&mut self) -> (r: Result<usize>)
        ensures
            clear_outcome(old(self).repo(), final(self).repo(), r),
    {
        let ghost before = self.repo();
        let items = self.service.get_recent_items(1000);
        assert(call_ensures(R::find_recent, (&before, 1000usize), items));
        let ghost ig = items;
        let v = match items {
            Ok(v) => v,
            Err(e) => return Err(e),
        };
        let ghost pred = |it: ClipboardItem| !it.is_pinned;
        let ghost ids = unpinned_ids(v@);
        let ghost mut states: Seq<R> = seq![before];
        let ghost mut results: Seq<Result<()>> = Seq::empty();
        let mut deleted: usize = 0;
        let mut i: usize = 0;
        assert(unpinned_ids(v@.take(0)) =~= ids.take(0));
        while i < v.len()
            invariant
                i <= v.len(),
                pred == |it: ClipboardItem| !it.is_pinned,
                call_ensures(R::find_recent, (&before, 1000usize), ig),
                ig matches Ok(w) && w@ == v@,
                before == old(self).repo(),
                ids == unpinned_ids(v@),
                deleted as int == unpinned_ids(v@.take(i as int)).len(),
                deleted <= i,
                results.len() == deleted,
                deletion_chain(states, unpinned_ids(v@.take(i as int)), results),
                states[0] == before,
                states.last() == self.repo(),
                forall|k: int| 0 <= k < results.len() ==> #[trigger] results[k] is Ok,
                unpinned_ids(v@.take(i as int)) == ids.take(deleted as int),
            decreases v.len() - i,
        {
            let ghost prev = unpinned_ids(v@.take(i as int));
            proof {
                assert(v@.take(i as int + 1) == v@.take(i as int).push(v@[i as int]));
                v@.take(i as int).lemma_filter_push(v@[i as int], pred);
                lemma_filter_take_prefix(v@, pred, i as int + 1);
                assert(unpinned_ids(v@.take(i as int + 1)) =~= ids.take(
                    v@.take(i as int + 1).filter(pred).len() as int,
                ));
            }
            if !v[i].is_pinned {
                let id = v[i].id;
                let d = self.service.delete_item(id);
                proof {
                    let next = unpinned_ids(v@.take(i as int + 1));
                    assert(next =~= prev.push(id));
                    let old_states = states;
                    states = states.push(self.repo());
                    results = results.push(d);
                    assert forall|k: int| 0 <= k < next.len() implies #[trigger] states[k].deleted(
                        next[k],
                        &states[k + 1],
                        results[k],
                    ) by {
                        if k < next.len() - 1 {
                            assert(old_states[k].deleted(prev[k], &old_states[k + 1], results[k]));
                        }
                    }
                    assert(deletion_chain(states, next, results));
                }
                match d {
                    Err(e) => {
                        let r: Result<usize> = Err(e);
                        proof {
                            assert(ids.take(results.len() as int) == unpinned_ids(
                                v@.take(i as int + 1),
                            ));
                            assert(deleted_in_turn(before, ids, self.repo(), r));
                        }
                        return r;
                    },
                    Ok(_) => {},
                }
                deleted += 1;
            } else {
                assert(unpinned_ids(v@.take(i as int + 1)) =~= prev);
            }
            i += 1;
        }
        assert(v@.take(v.len() as int) == v@);
        let r: Result<usize> = Ok(deleted);
        proof {
            assert(ids.take(results.len() as int) =~= ids);
            assert(deleted_in_turn(before, ids, self.repo(), r));
        }
        r
    }
}

/// A command over another repository works on that one; over its own
/// repository it is itself.
pub broadcast proof fn lemma_item_command_with_repo<R: ClipboardRepository>(c: ItemCommand<R>, r: R)
    ensures
        (#[trigger] c.with_repo(r)).repo() == r,
        c.repo() == r ==> c.with_repo(r) == c,
{
    lemma_items_with_repo(c.service, r);
}

/// Replacing the repository twice is replacing it once.
pub broadcast proof fn lemma_item_command_with_repo_twice<R: ClipboardRepository>(
    c: ItemCommand<R>,
    a: R,
    b: R,
)
    ensures
        #[trigger] c.with_repo(a).with_repo(b) == c.with_repo(b),
{
    lemma_items_with_repo_twice(c.service, a, b);
}

} // verus!
