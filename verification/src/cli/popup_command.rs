//! Showing, searching and pasting from the popup on the command line.
use vstd::prelude::*;
use crate::domain::repositories::ClipboardRepository;
use crate::presentation::item_view_model::ItemViewModel;
use crate::presentation::popup_state::{with_query, PopupState};
use crate::presentation::presentation_service::{
    lemma_presentation_with_repo, lemma_presentation_with_repo_twice, refresh_outcome,
    PresentationService, PresentationStats,
};
use crate::shared::{MaccyError, Result};
use crate::text::owned;

verus! {

/// Which way the selection moves.
#[derive(Debug, Clone, Copy, PartialEq, Eq, Structural)]
pub enum SelectionDirection {
    Up,
    Down,
}

/// What the popup looks like after a command.
#[derive(Debug, Clone, Copy, PartialEq, Eq, Structural)]
pub struct PopupResult {
    pub shown: bool,
    pub item_count: usize,
    pub has_selection: bool,
}

/// The popup's state when it is first shown: no query, no items, the first
/// item selected, no recent queries.
pub open spec fn is_fresh(s: PopupState, max_items: usize) -> bool {
    &&& s.query@ == Seq::<char>::empty()
    &&& s.items@ == Seq::<ItemViewModel>::empty()
    &&& s.selected_index == 0
    &&& s.max_items == max_items
    &&& s.query_history@ == Seq::<String>::empty()
    &&& s.max_history == 10
}

/// What the popup looks like in state `s`.
pub open spec fn result_of(s: PopupState) -> PopupResult {
    PopupResult {
        shown: true,
        item_count: s.items@.len() as usize,
        has_selection: s.selected_index < s.items@.len(),
    }
}

/// Showing the popup took `before` to `after` with result `r`: it is shown
/// afresh over the same repository and lists all items.
pub open spec fn show_outcome<R: ClipboardRepository>(
    before: PopupCommand<R>,
    after: PopupCommand<R>,
    r: Result<PopupResult>,
) -> bool {
    &&& after.wf()
    &&& after.shown()
    &&& after.max() == before.max()
    &&& after.repo() == before.repo()
    &&& after.service().popup().repo() == before.repo()
    &&& after.service().popup().max() == before.max()
    &&& exists|fresh: PopupState, rr: Result<()>|
        is_fresh(fresh, before.max()) && #[trigger] refresh_outcome(
            after.service().popup(),
            fresh,
            after.service().state_spec(),
            rr,
        ) && match rr {
            Err(e) => r == Err::<PopupResult, MaccyError>(e),
            Ok(_) => r == Ok::<PopupResult, MaccyError>(result_of(after.service().state_spec())),
        }
}

/// Hiding the popup took `before` to `after` with result `r`.
pub open spec fn hide_outcome<R: ClipboardRepository>(
    before: PopupCommand<R>,
    after: PopupCommand<R>,
    r: Result<PopupResult>,
) -> bool {
    &&& after.wf()
    &&& !after.shown()
    &&& after.repo() == before.repo()
    &&& after.max() == before.max()
    &&& r == Ok::<PopupResult, MaccyError>(
        PopupResult { shown: false, item_count: 0, has_selection: false },
    )
}

/// Moving the selection took `before` to `after` with result `r`; a hidden
/// popup refuses.
pub open spec fn move_outcome<R: ClipboardRepository>(
    before: PopupCommand<R>,
    direction: SelectionDirection,
    after: PopupCommand<R>,
    r: Result<PopupResult>,
) -> bool {
    &&& after.wf()
    &&& after.shown() == before.shown()
    &&& after.repo() == before.repo()
    &&& after.max() == before.max()
    &&& !before.shown() ==> (r matches Err(MaccyError::Validation(m)) && m@ == "Popup is not shown"@)
    &&& before.shown() ==> {
        let s = before.service().state_spec();
        let sel = match direction {
            SelectionDirection::Up => if s.selected_index > 0 {
                (s.selected_index - 1) as usize
            } else {
                0
            },
            SelectionDirection::Down => if s.selected_index + 1 < s.items@.len() {
                (s.selected_index + 1) as usize
            } else {
                s.selected_index
            },
        };
        &&& after.service().popup() == before.service().popup()
        &&& after.service().state_spec() == (PopupState { selected_index: sel, ..s })
        &&& r == Ok::<PopupResult, MaccyError>(result_of(after.service().state_spec()))
    }
}

/// Searching for `query` took `before` to `after` with result `r`; a hidden
/// popup refuses.
pub open spec fn search_outcome<R: ClipboardRepository>(
    before: PopupCommand<R>,
    query: String,
    after: PopupCommand<R>,
    r: Result<PopupResult>,
) -> bool {
    &&& after.wf()
    &&& after.shown() == before.shown()
    &&& after.repo() == before.repo()
    &&& after.max() == before.max()
    &&& !before.shown() ==> (r matches Err(MaccyError::Validation(m)) && m@ == "Popup is not shown"@)
    &&& before.shown() ==> after.service().popup() == before.service().popup() && exists|
        rr: Result<()>,
    |
        #[trigger] refresh_outcome(
            before.service().popup(),
            with_query(before.service().state_spec(), query),
            after.service().state_spec(),
            rr,
        ) && match rr {
            Err(e) => r == Err::<PopupResult, MaccyError>(e),
            Ok(_) => r == Ok::<PopupResult, MaccyError>(result_of(after.service().state_spec())),
        }
}

/// The popup, hidden or shown.
enum PopupSlot<R: ClipboardRepository> {
    Hidden(R),
    Shown(PresentationService<R>),
    Vacant,
}

/// The popup as the command line drives it.
pub struct PopupCommand<R: ClipboardRepository> {
    slot: PopupSlot<R>,
    max_items: usize,
}

impl<R: ClipboardRepository> PopupCommand<R> {
    /// The command holds its repository.
    pub closed spec fn wf(&self) -> bool {
        !(self.slot is Vacant)
    }

    pub closed spec fn shown(&self) -> bool {
        self.slot is Shown
    }

    /// The popup's behaviour, while it is shown.
    pub closed spec fn service(&self) -> PresentationService<R> {
        self.slot->Shown_0
    }

    /// The repository.
    pub closed spec fn repo(&self) -> R {
        match self.slot {
            PopupSlot::Hidden(r) => r,
            PopupSlot::Shown(s) => s.popup().repo(),
            PopupSlot::Vacant => arbitrary(),
        }
    }

    pub closed spec fn max(&self) -> usize {
        self.max_items
    }

    /// The command over repository `r` in place of its own.
    pub closed spec fn with_repo(self, r: R) -> Self {
        PopupCommand {
            slot: match self.slot {
                PopupSlot::Hidden(_) => PopupSlot::Hidden(r),
                PopupSlot::Shown(s) => PopupSlot::Shown(s.with_repo(r)),
                PopupSlot::Vacant => PopupSlot::Vacant,
            },
            ..self
        }
    }

    /// The command's repository, for changes made beside it.
    pub fn repository_mut(&mut self) -> (r: &mut R)
        requires
            old(self).wf(),
        ensures
            *r == old(self).repo(),
            *final(self) == old(self).with_repo(*final(r)),
    {
        match &mut self.slot {
            PopupSlot::Hidden(repo) => repo,
            PopupSlot::Shown(service) => service.repository_mut(),
            PopupSlot::Vacant => vstd::pervasive::unreached(),
        }
    }

    /// A hidden popup over `repository`, listing at most `max_items` items.
    pub fn new(repository: R, max_items: usize) -> (c: Self)
        ensures
            c.wf(),
            !c.shown(),
            c.repo() == repository,
            c.max() == max_items,
    {
        PopupCommand { slot: PopupSlot::Hidden(repository), max_items }
    }

    /// Shows the popup afresh and lists all items.
    pub fn show(&mut self) -> (r: Result<PopupResult>)
        requires
            old(self).wf(),
        ensures
            show_outcome(*old(self), *final(self), r),
    {
        let mut slot = PopupSlot::Vacant;
        std::mem::swap(&mut slot, &mut self.slot);
        let repository = match slot {
            PopupSlot::Hidden(r) => r,
            PopupSlot::Shown(s) => s.into_repository(),
            PopupSlot::Vacant => {
                assert(false);
                return Err(MaccyError::Validation(owned("Popup is not available")));
            },
        };
        let mut service = PresentationService::new(repository, self.max_items);
        let ghost fresh = service.state_spec();
        let rr = service.refresh();
        let stats = service.get_stats();
        assert(is_fresh(fresh, self.max_items));
        assert(refresh_outcome(service.popup(), fresh, service.state_spec(), rr));
        self.slot = PopupSlot::Shown(service);
        assert(refresh_outcome(self.service().popup(), fresh, self.service().state_spec(), rr));
        match rr {
            Err(e) => Err(e),
            Ok(_) => Ok(
                PopupResult {
                    shown: true,
                    item_count: stats.total_items,
                    has_selection: stats.has_selection,
                },
            ),
        }
    }

    /// Hides the popup; its state is dropped.
    pub fn hide_popup(&mut self) -> (r: Result<PopupResult>)
        requires
            old(self).wf(),
        ensures
            hide_outcome(*old(self), *final(self), r),
    {
        let mut slot = PopupSlot::Vacant;
        std::mem::swap(&mut slot, &mut self.slot);
        let repository = match slot {
            PopupSlot::Hidden(r) => r,
            PopupSlot::Shown(s) => s.into_repository(),
            PopupSlot::Vacant => {
                assert(false);
                return Err(MaccyError::Validation(owned("Popup is not available")));
            },
        };
        self.slot = PopupSlot::Hidden(repository);
        Ok(PopupResult { shown: false, item_count: 0, has_selection: false })
    }

    /// Moves the selection of the shown popup.
    pub fn move_selection(&mut self, direction: SelectionDirection) -> (r: Result<PopupResult>)
        requires
            old(self).wf(),
        ensures
            move_outcome(*old(self), direction, *final(self), r),
    {
        match &mut self.slot {
            PopupSlot::Shown(service) => {
                match direction {
                    SelectionDirection::Up => service.move_selection_up(),
                    SelectionDirection::Down => service.move_selection_down(),
                }
                let stats = service.get_stats();
                Ok(
                    PopupResult {
                        shown: true,
                        item_count: stats.total_items,
                        has_selection: stats.has_selection,
                    },
                )
            },
            _ => Err(MaccyError::Validation(owned("Popup is not shown"))),
        }
    }

    /// The text pasted for the selected item of the shown popup.
    pub fn select_and_paste(&self) -> (r: Result<Option<String>>)
        requires
            self.wf(),
        ensures
            !self.shown() ==> (r matches Err(MaccyError::Validation(m)) && m@
                == "Popup is not shown"@),
            self.shown() ==> call_ensures(
                PresentationService::<R>::get_selected_for_paste,
                (&self.service(),),
                r,
            ),
    {
        match &self.slot {
            PopupSlot::Shown(service) => service.get_selected_for_paste(),
            _ => Err(MaccyError::Validation(owned("Popup is not shown"))),
        }
    }

    /// Searches the shown popup for `query`.
    pub fn search(&mut self, query: String) -> (r: Result<PopupResult>)
        requires
            old(self).wf(),
        ensures
            search_outcome(*old(self), query, *final(self), r),
    {
        let mut slot = PopupSlot::Vacant;
        std::mem::swap(&mut slot, &mut self.slot);
        match slot {
            PopupSlot::Shown(mut service) => {
                let ghost q = query;
                let ghost before = service;
                let rr = service.set_search_query(query);
                let stats = service.get_stats();
                self.slot = PopupSlot::Shown(service);
                assert(refresh_outcome(
                    before.popup(),
                    with_query(before.state_spec(), q),
                    self.service().state_spec(),
                    rr,
                ));
                let r: Result<PopupResult> = match rr {
                    Err(e) => Err(e),
                    Ok(_) => Ok(
                        PopupResult {
                            shown: true,
                            item_count: stats.total_items,
                            has_selection: stats.has_selection,
                        },
                    ),
                };
                assert(before == old(self).service());
                assert(self.service().popup() == old(self).service().popup());
                assert(match rr {
                    Err(e) => r == Err::<PopupResult, MaccyError>(e),
                    Ok(_) => r == Ok::<PopupResult, MaccyError>(result_of(self.service().state_spec())),
                });
                r
            },
            other => {
                self.slot = other;
                Err(MaccyError::Validation(owned("Popup is not shown")))
            },
        }
    }

    /// Figures of the shown popup; `None` when it is hidden.
    pub fn get_stats(&self) -> (r: Result<Option<PresentationStats>>)
        requires
            self.wf(),
        ensures
            !self.shown() ==> (r matches Ok(None)),
            self.shown() ==> (r matches Ok(Some(st)) && call_ensures(
                PresentationService::<R>::get_stats,
                (&self.service(),),
                st,
            )),
    {
        match &self.slot {
            PopupSlot::Shown(service) => Ok(Some(service.get_stats())),
            _ => Ok(None),
        }
    }

    pub fn is_shown(&self) -> (r: bool)
        ensures
            r == self.shown(),
    {
        match &self.slot {
            PopupSlot::Shown(_) => true,
            _ => false,
        }
    }
}

/// A command over another repository keeps whether it is shown and what it
/// shows; over its own repository it is itself.
pub broadcast proof fn lemma_popup_command_with_repo<R: ClipboardRepository>(c: PopupCommand<R>, r: R)
    ensures
        (#[trigger] c.with_repo(r)).wf() == c.wf(),
        c.with_repo(r).shown() == c.shown(),
        c.with_repo(r).max() == c.max(),
        c.wf() ==> c.with_repo(r).repo() == r,
        c.shown() ==> c.with_repo(r).service() == c.service().with_repo(r),
        c.wf() && c.repo() == r ==> c.with_repo(r) == c,
{
    if c.shown() {
        lemma_presentation_with_repo(c.service(), r);
        crate::application::popup_service::lemma_popup_with_repo(c.service().popup(), r);
    }
}

/// Replacing the repository twice is replacing it once.
pub broadcast proof fn lemma_popup_command_with_repo_twice<R: ClipboardRepository>(
    c: PopupCommand<R>,
    a: R,
    b: R,
)
    ensures
        #[trigger] c.with_repo(a).with_repo(b) == c.with_repo(b),
{
    if c.shown() {
        lemma_presentation_with_repo_twice(c.service(), a, b);
    }
}

} // verus!
