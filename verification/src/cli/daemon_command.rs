//! Starting, stopping and querying the daemon from the command line.
use vstd::prelude::*;
use crate::application::daemon_service::{
    lemma_daemon_with_repo, lemma_daemon_with_repo_twice, stats_outcome, DaemonService, DaemonStats,
};
use crate::domain::repositories::ClipboardRepository;
use crate::shared::{MaccyError, Result};

verus! {

/// Whether the daemon runs, and its figures when it does.
#[derive(Debug, Clone)]
pub struct DaemonStatus {
    pub is_running: bool,
    pub stats: Option<DaemonStats>,
}

/// The daemon as the command line manages it.
pub struct DaemonCommand<R: ClipboardRepository> {
    service: DaemonService<R>,
    running: bool,
}

impl<R: ClipboardRepository> DaemonCommand<R> {
    /// The daemon service the figures come from; it is never started itself.
    pub closed spec fn daemon(&self) -> DaemonService<R> {
        self.service
    }

    /// Whether the daemon was started and not stopped since.
    pub closed spec fn started(&self) -> bool {
        self.running
    }

    pub fn new(repository: R) -> (c: Self)
        ensures
            c.daemon().items().repo() == repository,
            !c.daemon().running(),
            !c.started(),
    {
        DaemonCommand { service: DaemonService::new(repository), running: false }
    }

    /// The command over repository `r` in place of its own.
    pub closed spec fn with_repo(self, r: R) -> Self {
        DaemonCommand { service: self.service.with_repo(r), ..self }
    }

    /// The command's repository, for changes made beside it.
    pub fn repository_mut(&mut self) -> (r: &mut R)
        ensures
            *r == old(self).daemon().items().repo(),
            *final(self) == old(self).with_repo(*final(r)),
    {
        self.service.repository_mut()
    }

    /// Whether the daemon was started and not stopped since.
    pub fn is_started(&self) -> (r: bool)
        ensures
            r == self.started(),
    {
        self.running
    }

    /// Starts the daemon.
    pub fn start(&mut self) -> (r: Result<()>)
        ensures
            r is Ok,
            final(self).started(),
            final(self).daemon() == old(self).daemon(),
    {
        self.running = true;
        Ok(())
    }

    /// Stops the daemon, if it runs.
    pub fn stop(&mut self) -> (r: Result<()>)
        ensures
            r is Ok,
            !final(self).started(),
            final(self).daemon() == old(self).daemon(),
    {
        self.running = false;
        Ok(())
    }

    /// Whether the daemon runs; when it does, the figures of a daemon service
    /// over the repository (which itself reports that it is not running).
    pub fn status(&self) -> (r: Result<DaemonStatus>)
        ensures
            !self.started() ==> (r matches Ok(s) && !s.is_running && s.stats is None),
            self.started() ==> exists|st: Result<DaemonStats>|
                #[trigger] stats_outcome(self.daemon().items().repo(), self.daemon().running(), st)
                    && match st {
                    Err(e) => r == Err::<DaemonStatus, MaccyError>(e),
                    Ok(s) => r matches Ok(ds) && ds.is_running && ds.stats == Some(s),
                },
    {
        if self.running {
            let st = self.service.get_stats();
            assert(stats_outcome(self.daemon().items().repo(), self.daemon().running(), st));
            match st {
                Ok(s) => Ok(DaemonStatus { is_running: true, stats: Some(s) }),
                Err(e) => Err(e),
            }
        } else {
            Ok(DaemonStatus { is_running: false, stats: None })
        }
    }

    /// Stops, then starts the daemon.
    pub fn restart(&mut self) -> (r: Result<()>)
        ensures
            r is Ok,
            final(self).started(),
            final(self).daemon() == old(self).daemon(),
    {
        match self.stop() {
            Ok(_) => {},
            Err(e) => return Err(e),
        }
        self.start()
    }
}

/// A command over another repository keeps its state; over its own
/// repository it is itself.
pub broadcast proof fn lemma_daemon_command_with_repo<R: ClipboardRepository>(c: DaemonCommand<R>, r: R)
    ensures
        (#[trigger] c.with_repo(r)).daemon() == c.daemon().with_repo(r),
        c.with_repo(r).started() == c.started(),
        c.daemon().items().repo() == r ==> c.with_repo(r) == c,
{
    lemma_daemon_with_repo(c.daemon(), r);
}

/// Replacing the repository twice is replacing it once.
pub broadcast proof fn lemma_daemon_command_with_repo_twice<R: ClipboardRepository>(
    c: DaemonCommand<R>,
    a: R,
    b: R,
)
    ensures
        #[trigger] c.with_repo(a).with_repo(b) == c.with_repo(b),
{
    lemma_daemon_with_repo_twice(c.daemon(), a, b);
}

} // verus!
