//! The background service: item management and clipboard watching over one
//! repository.
use vstd::prelude::*;
use crate::domain::repositories::ClipboardRepository;
use crate::domain::entities::ClipboardItem;
use crate::shared::{MaccyError, Result};
use super::item_management_service::{lemma_items_with_repo, lemma_items_with_repo_twice, ItemManagementService};
use super::monitor_service::{observed, MonitorService};

verus! {

/// Figures reported by the daemon.
#[derive(Debug, Clone)]
pub struct DaemonStats {
    pub total_items: usize,
    pub pinned_items: usize,
    pub is_running: bool,
}

/// The daemon's figures for `repo`: the count, then the pinned items, each
/// as the repository gives it; the first error met is returned.
pub open spec fn stats_outcome<R: ClipboardRepository>(
    repo: R,
    running: bool,
    r: Result<DaemonStats>,
) -> bool {
    exists|t: Result<usize>|
        #[trigger] call_ensures(R::count, (&repo,), t) && match t {
            Err(e) => r == Err::<DaemonStats, MaccyError>(e),
            Ok(n) => exists|p: Result<Vec<ClipboardItem>>|
                #[trigger] call_ensures(R::find_pinned, (&repo,), p) && match p {
                    Err(e) => r == Err::<DaemonStats, MaccyError>(e),
                    Ok(v) => r == Ok::<DaemonStats, MaccyError>(
                        DaemonStats { total_items: n, pinned_items: v.len(), is_running: running },
                    ),
                },
        }
}

/// The background service.
pub struct DaemonService<R: ClipboardRepository> {
    item_service: ItemManagementService<R>,
    monitor_service: MonitorService,
    is_running: bool,
}

impl<R: ClipboardRepository> DaemonService<R> {
    pub closed spec fn items(&self) -> ItemManagementService<R> {
        self.item_service
    }

    pub closed spec fn monitor(&self) -> MonitorService {
        self.monitor_service
    }

    pub closed spec fn running(&self) -> bool {
        self.is_running
    }

    /// A stopped daemon over `repository`, its watcher not started.
    pub fn new(repository: R) -> (d: Self)
        ensures
            d.items().repo() == repository,
            d.monitor().last_text_spec() == Seq::<char>::empty(),
            !d.monitor().running(),
            !d.running(),
    {
        DaemonService {
            item_service: ItemManagementService::new(repository),
            monitor_service: MonitorService::new(),
            is_running: false,
        }
    }

    /// Marks the daemon as running.
    pub fn start(&mut self) -> (r: Result<()>)
        ensures
            r is Ok,
            final(self).running(),
            final(self).items() == old(self).items(),
            final(self).monitor() == old(self).monitor(),
    {
        self.is_running = true;
        Ok(())
    }

    /// Stops the daemon and its watcher.
    pub fn stop(&mut self)
        ensures
            !final(self).running(),
            !final(self).monitor().running(),
            final(self).monitor().last_text_spec() == old(self).monitor().last_text_spec(),
            final(self).items() == old(self).items(),
    {
        self.is_running = false;
        self.monitor_service.stop();
    }

    pub fn is_running(&self) -> (r: bool)
        ensures
            r == self.running(),
    {
        self.is_running
    }

    pub fn item_service(&self) -> (r: &ItemManagementService<R>)
        ensures
            *r == self.items(),
    {
        &self.item_service
    }

    /// The daemon over repository `r` in place of its own.
    pub closed spec fn with_repo(self, r: R) -> Self {
        DaemonService { item_service: self.item_service.with_repo(r), ..self }
    }

    /// The daemon's repository, for changes made beside it.
    pub fn repository_mut(&mut self) -> (r: &mut R)
        ensures
            *r == old(self).items().repo(),
            *final(self) == old(self).with_repo(*final(r)),
    {
        self.item_service.repository_mut()
    }

    pub fn item_service_mut(&mut self) -> (r: &mut ItemManagementService<R>)
        ensures
            *r == old(self).items(),
            final(self).items() == *final(r),
            final(self).monitor() == old(self).monitor(),
            final(self).running() == old(self).running(),
    {
        &mut self.item_service
    }

    pub fn monitor_service(&self) -> (r: &MonitorService)
        ensures
            *r == self.monitor(),
    {
        &self.monitor_service
    }

    /// One look at the clipboard, which held `clip`, recorded in the
    /// daemon's repository.
    pub fn observe_clipboard(&mut self, clip: Option<String>) -> (r: Result<()>)
        ensures
            observed(
                old(self).monitor(),
                old(self).items().repo(),
                clip,
                final(self).monitor(),
                final(self).items().repo(),
                r,
            ),
            final(self).running() == old(self).running(),
    {
        self.monitor_service.observe_clipboard(self.item_service.repository_mut(), clip)
    }

    /// The number of items, the number of pinned items and whether the daemon
    /// runs; the first error met is returned.
    pub fn get_stats(&self) -> (r: Result<DaemonStats>)
        ensures
            stats_outcome(self.items().repo(), self.running(), r),
    {
        let t = self.item_service.get_total_count();
        let total = match t {
            Ok(n) => n,
            Err(e) => {
                assert(call_ensures(R::count, (&self.items().repo(),), t));
                return Err(e);
            },
        };
        let p = self.item_service.get_pinned_items();
        assert(call_ensures(R::count, (&self.items().repo(),), t));
        assert(call_ensures(R::find_pinned, (&self.items().repo(),), p));
        match p {
            Ok(pinned) => Ok(
                DaemonStats {
                    total_items: total,
                    pinned_items: pinned.len(),
                    is_running: self.is_running,
                },
            ),
            Err(e) => Err(e),
        }
    }
}

/// A daemon over another repository keeps its watcher and state; over its
/// own repository it is itself.
pub broadcast proof fn lemma_daemon_with_repo<R: ClipboardRepository>(d: DaemonService<R>, r: R)
    ensures
        (#[trigger] d.with_repo(r)).items() == d.items().with_repo(r),
        d.with_repo(r).monitor() == d.monitor(),
        d.with_repo(r).running() == d.running(),
        d.items().repo() == r ==> d.with_repo(r) == d,
{
    lemma_items_with_repo(d.items(), r);
}

/// Replacing the repository twice is replacing it once.
pub broadcast proof fn lemma_daemon_with_repo_twice<R: ClipboardRepository>(
    d: DaemonService<R>,
    a: R,
    b: R,
)
    ensures
        #[trigger] d.with_repo(a).with_repo(b) == d.with_repo(b),
{
    lemma_items_with_repo_twice(d.items(), a, b);
}

} // verus!
