//! The popup's behaviour: what it lists for the query, and what it pastes.
use vstd::prelude::*;
use crate::application::fuzzy_search_service::FuzzySearchService;
use crate::application::popup_service::{display_outcome, lemma_popup_with_repo, lemma_popup_with_repo_twice, PopupService};
use crate::domain::entities::{ClipboardItem, ItemId};
use crate::domain::repositories::ClipboardRepository;
use crate::shared::{MaccyError, Result};
use crate::text::{concat, decimal, int_error_text, parse_i64, parse_int_spec, int_error_message, owned};
use super::item_view_model::{shows, viewable, ItemViewModel};
use super::popup_state::{clamp_selection, history_after_add, PopupState};

verus! {

/// Figures of the popup's state.
#[derive(Debug, Clone)]
pub struct PresentationStats {
    pub total_items: usize,
    pub selected_index: usize,
    pub has_selection: bool,
    pub query_length: usize,
}

/// The query as a search: none when empty.
pub open spec fn query_opt(q: Seq<char>) -> Option<Seq<char>> {
    if q.len() == 0 {
        None
    } else {
        Some(q)
    }
}

/// `after` lists the items `v` in the popup state `before`.
pub open spec fn lists(before: PopupState, v: Seq<ClipboardItem>, after: PopupState) -> bool {
    &&& after.items@.len() == v.len()
    &&& forall|i: int| 0 <= i < v.len() ==> #[trigger] shows(after.items@[i], v[i])
    &&& after.selected_index == clamp_selection(before.selected_index, v.len())
    &&& after.query == before.query
    &&& after.max_items == before.max_items
    &&& after.query_history == before.query_history
    &&& after.max_history == before.max_history
}

/// Refreshing took the state `before` to `after` with result `r`: the items
/// listed for the query are shown; when one of them cannot be shown, or the
/// repository fails, nothing changes and the error is returned.
pub open spec fn refresh_outcome<R: ClipboardRepository>(
    popup: PopupService<R>,
    before: PopupState,
    after: PopupState,
    r: Result<()>,
) -> bool {
    exists|d: Result<Vec<ClipboardItem>>|
        #[trigger] display_outcome(popup.repo(), query_opt(before.query@), popup.max() as int, d)
            && match d {
            Err(e) => r == Err::<(), MaccyError>(e) && after == before,
            Ok(v) => if forall|i: int| 0 <= i < v@.len() ==> #[trigger] viewable(v@[i]) {
                r is Ok && lists(before, v@, after)
            } else {
                r matches Err(MaccyError::Validation(_)) && after == before
            },
        }
}

/// The popup's behaviour over a repository.
pub struct PresentationService<R: ClipboardRepository> {
    popup_service: PopupService<R>,
    search_service: FuzzySearchService,
    state: PopupState,
}

impl<R: ClipboardRepository> PresentationService<R> {
    pub closed spec fn popup(&self) -> PopupService<R> {
        self.popup_service
    }

    pub closed spec fn state_spec(&self) -> PopupState {
        self.state
    }

    /// A popup listing at most `max_items` items of `repository`, keeping 10
    /// recent queries.
    pub fn new(repository: R, max_items: usize) -> (s: Self)
        ensures
            s.popup().repo() == repository,
            s.popup().max() == max_items,
            s.state_spec().query@ == Seq::<char>::empty(),
            s.state_spec().items@ == Seq::<ItemViewModel>::empty(),
            s.state_spec().selected_index == 0,
            s.state_spec().max_items == max_items,
            s.state_spec().query_history@ == Seq::<String>::empty(),
            s.state_spec().max_history == 10,
    {
        PresentationService {
            popup_service: PopupService::new(repository, max_items),
            search_service: FuzzySearchService::new(),
            state: PopupState::new(max_items, 10),
        }
    }

    /// The popup over repository `r` in place of its own.
    pub closed spec fn with_repo(self, r: R) -> Self {
        PresentationService { popup_service: self.popup_service.with_repo(r), ..self }
    }

    /// The repository served, for changes made beside the popup.
    pub fn repository_mut(&mut self) -> (r: &mut R)
        ensures
            *r == old(self).popup().repo(),
            *final(self) == old(self).with_repo(*final(r)),
    {
        self.popup_service.repository_mut()
    }

    /// The repository served, given back.
    pub fn into_repository(self) -> (r: R)
        ensures
            r == self.popup().repo(),
    {
        self.popup_service.into_repository()
    }

    /// Lists the items found for the current query.
    pub fn update_state(&mut self) -> (r: Result<()>)
        ensures
            refresh_outcome(old(self).popup(), old(self).state_spec(), final(self).state_spec(), r),
            final(self).popup() == old(self).popup(),
    {
        let query: Option<&str> = if self.state.query.unicode_len() == 0 {
            None
        } else {
            Some(self.state.query.as_str())
        };
        let d = self.popup_service.get_display_items(query);
        let ghost dg = d;
        assert(display_outcome(
            self.popup().repo(),
            query_opt(self.state_spec().query@),
            self.popup().max() as int,
            dg,
        ));
        let items = match d {
            Ok(items) => items,
            Err(e) => return Err(e),
        };
        let mut vms: Vec<ItemViewModel> = Vec::new();
        let mut i: usize = 0;
        while i < items.len()
            invariant
                i <= items.len(),
                vms@.len() == i,
                dg matches Ok(v) && v@ == items@,
                display_outcome(
                    self.popup().repo(),
                    query_opt(self.state_spec().query@),
                    self.popup().max() as int,
                    dg,
                ),
                *self == *old(self),
                forall|k: int| 0 <= k < i ==> #[trigger] viewable(items@[k]),
                forall|k: int| 0 <= k < i ==> #[trigger] shows(vms@[k], items@[k]),
            decreases items.len() - i,
        {
            let (len, cut) = crate::text::utf8_cut(items[i].display_text().as_str(), 100);
            if len > 100 && cut.is_none() {
                assert(!viewable(items@[i as int]));
                let r: Result<()> = Err(MaccyError::Validation(owned("Item text cannot be shown")));
                assert(dg matches Ok(v) && !(forall|k: int| 0 <= k < v@.len() ==> #[trigger] viewable(v@[k])));
                assert(refresh_outcome(self.popup(), self.state_spec(), self.state_spec(), r));
                return r;
            }
            vms.push(ItemViewModel::from_domain(&items[i]));
            i += 1;
        }
        self.state.set_items(vms);
        Ok(())
    }

    /// Sets the query and lists what it finds.
    pub fn set_search_query(&mut self, query: String) -> (r: Result<()>)
        ensures
            refresh_outcome(
                old(self).popup(),
                PopupState { query, selected_index: 0, ..old(self).state_spec() },
                final(self).state_spec(),
                r,
            ),
            final(self).popup() == old(self).popup(),
    {
        self.state.set_query(query);
        self.update_state()
    }

    pub fn move_selection_up(&mut self)
        ensures
            final(self).popup() == old(self).popup(),
            final(self).state_spec() == (PopupState {
                selected_index: if old(self).state_spec().selected_index > 0 {
                    (old(self).state_spec().selected_index - 1) as usize
                } else {
                    0
                },
                ..old(self).state_spec()
            }),
    {
        self.state.move_selection_up();
    }

    pub fn move_selection_down(&mut self)
        ensures
            final(self).popup() == old(self).popup(),
            final(self).state_spec() == (PopupState {
                selected_index: if old(self).state_spec().selected_index + 1 < old(
                    self,
                ).state_spec().items@.len() {
                    (old(self).state_spec().selected_index + 1) as usize
                } else {
                    old(self).state_spec().selected_index
                },
                ..old(self).state_spec()
            }),
    {
        self.state.move_selection_down();
    }

    pub fn get_state(&self) -> (r: &PopupState)
        ensures
            *r == self.state_spec(),
    {
        &self.state
    }

    pub fn get_state_mut(&mut self) -> (r: &mut PopupState)
        ensures
            *r == old(self).state_spec(),
            final(self).state_spec() == *final(r),
            final(self).popup() == old(self).popup(),
    {
        &mut self.state
    }

    /// The text pasted for the selected item; `None` when nothing is
    /// selected. A selected identifier that is not a number is refused.
    pub fn get_selected_for_paste(&self) -> (r: Result<Option<String>>)
        ensures
            self.state_spec().selected_index >= self.state_spec().items@.len() ==> r matches Ok(
                None,
            ),
            self.state_spec().selected_index < self.state_spec().items@.len() ==> {
                let id = self.state_spec().items@[self.state_spec().selected_index as int].id@;
                match parse_int_spec(id, true, i64::MIN as int, i64::MAX as int) {
                    Err(k) => r matches Err(MaccyError::Database(m)) && m@ == "Invalid item ID: "@
                        + int_error_message(k),
                    Ok(n) => exists|f: Result<Option<ClipboardItem>>|
                        #[trigger] call_ensures(
                            R::find_by_id,
                            (&self.popup().repo(), ItemId(n as i64)),
                            f,
                        ) && match f {
                            Err(e) => r == Err::<Option<String>, MaccyError>(e),
                            Ok(Some(item)) => r matches Ok(Some(t)) && t@
                                == crate::application::popup_service::paste_text_of(item.content),
                            Ok(None) => r matches Ok(None),
                        },
                }
            },
    {
        match self.state.get_selected_id() {
            Some(id) => {
                let item_id = match self.parse_item_id(id.as_str()) {
                    Ok(i) => i,
                    Err(e) => return Err(e),
                };
                self.popup_service.get_item_for_paste(item_id)
            },
            None => Ok(None),
        }
    }

    /// Records the query, empties it and lists all items.
    pub fn clear_search(&mut self) -> (r: Result<()>)
        ensures
            refresh_outcome(
                old(self).popup(),
                PopupState {
                    query: final(self).state_spec().query,
                    selected_index: 0,
                    query_history: if old(self).state_spec().query@.len() > 0 {
                        final(self).state_spec().query_history
                    } else {
                        old(self).state_spec().query_history
                    },
                    ..old(self).state_spec()
                },
                final(self).state_spec(),
                r,
            ),
            final(self).state_spec().query@ == Seq::<char>::empty(),
            final(self).state_spec().query_history@ == history_after_add(
                old(self).state_spec().query_history@,
                old(self).state_spec().query,
                old(self).state_spec().max_history,
            ),
            final(self).popup() == old(self).popup(),
    {
        if self.state.query.unicode_len() > 0 {
            let q = self.state.query.clone();
            self.state.add_to_history(q);
        }
        self.state.clear_query();
        self.update_state()
    }

    /// Records the query as the most recent one.
    pub fn add_query_to_history(&mut self)
        ensures
            final(self).state_spec() == (PopupState {
                query_history: final(self).state_spec().query_history,
                ..old(self).state_spec()
            }),
            final(self).state_spec().query_history@ == history_after_add(
                old(self).state_spec().query_history@,
                old(self).state_spec().query,
                old(self).state_spec().max_history,
            ),
            final(self).popup() == old(self).popup(),
    {
        if self.state.query.unicode_len() > 0 {
            let q = self.state.query.clone();
            self.state.add_to_history(q);
        }
    }

    /// The most recent query.
    pub fn get_previous_query(&self) -> (r: Option<String>)
        ensures
            match r {
                Some(q) => self.state_spec().query_history@.len() > 0 && q
                    == self.state_spec().query_history@[0],
                None => self.state_spec().query_history@.len() == 0,
            },
    {
        match self.state.get_previous_query() {
            Some(q) => Some(q.clone()),
            None => None,
        }
    }

    /// Figures of the state; the query's length is in bytes.
    pub fn get_stats(&self) -> (r: PresentationStats)
        ensures
            r.total_items == self.state_spec().items@.len(),
            r.selected_index == self.state_spec().selected_index,
            r.has_selection == (self.state_spec().selected_index < self.state_spec().items@.len()),
            r.query_length == vstd::utf8::encode_utf8(self.state_spec().query@).len() as usize,
    {
        PresentationStats {
            total_items: self.state.item_count(),
            selected_index: self.state.selected_index,
            has_selection: self.state.has_selection(),
            query_length: self.state.query.as_str().len(),
        }
    }

    /// An item identifier written in decimal.
    fn parse_item_id(&self, id_str: &str) -> (r: Result<ItemId>)
        ensures
            match parse_int_spec(id_str@, true, i64::MIN as int, i64::MAX as int) {
                Ok(n) => r == Ok::<ItemId, MaccyError>(ItemId(n as i64)),
                Err(k) => r matches Err(MaccyError::Database(m)) && m@ == "Invalid item ID: "@
                    + int_error_message(k),
            },
    {
        match parse_i64(id_str) {
            Ok(n) => Ok(ItemId(n)),
            Err(k) => {
                let msg = int_error_text(k);
                Err(MaccyError::Database(concat("Invalid item ID: ", msg.as_str())))
            },
        }
    }

    /// Lists the items found for the current query again.
    pub fn refresh(&mut self) -> (r: Result<()>)
        ensures
            refresh_outcome(old(self).popup(), old(self).state_spec(), final(self).state_spec(), r),
            final(self).popup() == old(self).popup(),
    {
        self.update_state()
    }
}

/// A popup over another repository keeps its state; over its own repository
/// it is itself.
pub broadcast proof fn lemma_presentation_with_repo<R: ClipboardRepository>(
    s: PresentationService<R>,
    r: R,
)
    ensures
        (#[trigger] s.with_repo(r)).popup() == s.popup().with_repo(r),
        s.with_repo(r).state_spec() == s.state_spec(),
        s.popup().repo() == r ==> s.with_repo(r) == s,
{
    lemma_popup_with_repo(s.popup(), r);
}

/// Replacing the repository twice is replacing it once.
pub broadcast proof fn lemma_presentation_with_repo_twice<R: ClipboardRepository>(
    s: PresentationService<R>,
    a: R,
    b: R,
)
    ensures
        #[trigger] s.with_repo(a).with_repo(b) == s.with_repo(b),
{
    lemma_popup_with_repo_twice(s.popup(), a, b);
}

} // verus!
