//! Parsing and running command lines.
use vstd::prelude::*;
use crate::domain::repositories::ClipboardRepository;
use crate::shared::{MaccyError, Result};
use crate::text::{concat, decimal, format_usize, owned, parse_int_spec, parse_usize, same_str};
use super::daemon_command::{
    lemma_daemon_command_with_repo, lemma_daemon_command_with_repo_twice, DaemonCommand,
    DaemonStatus,
};
use super::item_command::{
    clear_outcome, delete_outcome, lemma_item_command_with_repo, lemma_item_command_with_repo_twice,
    summaries_of, toggle_outcome, ItemCommand, ItemSummary,
};
use super::popup_command::{
    hide_outcome, lemma_popup_command_with_repo, lemma_popup_command_with_repo_twice, move_outcome,
    search_outcome, show_outcome, PopupCommand, PopupResult, SelectionDirection,
};

verus! {

broadcast use {
    crate::application::item_management_service::lemma_items_with_repo,
    crate::application::item_management_service::lemma_items_with_repo_twice,
    crate::application::daemon_service::lemma_daemon_with_repo,
    crate::application::daemon_service::lemma_daemon_with_repo_twice,
    crate::application::popup_service::lemma_popup_with_repo,
    crate::application::popup_service::lemma_popup_with_repo_twice,
    crate::presentation::presentation_service::lemma_presentation_with_repo,
    crate::presentation::presentation_service::lemma_presentation_with_repo_twice,
    lemma_daemon_command_with_repo,
    lemma_daemon_command_with_repo_twice,
    lemma_item_command_with_repo,
    lemma_item_command_with_repo_twice,
    lemma_popup_command_with_repo,
    lemma_popup_command_with_repo_twice,
};

/// The version the help text names.
pub const VERSION: &'static str = "0.1.0";

/// What a command line produced.
#[derive(Debug, Clone)]
pub enum CliResult {
    Help(String),
    Success(String),
    Error(String),
    DaemonStatus(DaemonStatus),
    PopupShown(usize),
    Pasted(String),
    ItemList(Vec<ItemSummary>),
    Count(usize),
}

/// The help text.
pub open spec fn help_text() -> Seq<char> {
    "maccy-kde CLI v"@ + VERSION@ + "\n\nCommands:\ndaemon [start|stop|restart|status] - Manage daemon\npopup [show|hide|search <query>|up|down|paste] - Manage popup\nitem [list <n>|pinned|delete <id>|pin <id>|clear|count] - Manage items\nhelp - Show this help"@
}

pub open spec fn is_help(r: Result<CliResult>) -> bool {
    r matches Ok(CliResult::Help(h)) && h@ == help_text()
}

pub open spec fn is_message(r: Result<CliResult>, text: Seq<char>) -> bool {
    r matches Ok(CliResult::Success(m)) && m@ == text
}

pub open spec fn is_error_text(r: Result<CliResult>, text: Seq<char>) -> bool {
    r matches Ok(CliResult::Error(m)) && m@ == text
}

/// `r` is `message` when `d` succeeded, else `d`'s error.
pub open spec fn success_or_error<T>(d: Result<T>, r: Result<CliResult>, message: Seq<char>) -> bool {
    match d {
        Ok(_) => is_message(r, message),
        Err(e) => r == Err::<CliResult, MaccyError>(e),
    }
}

/// `r` lists what `lr` lists, or is its error.
pub open spec fn list_result(lr: Result<Vec<ItemSummary>>, r: Result<CliResult>) -> bool {
    match lr {
        Ok(v) => r matches Ok(CliResult::ItemList(w)) && w@ == v@,
        Err(e) => r == Err::<CliResult, MaccyError>(e),
    }
}

/// `r` shows the popup as `pr` describes it, or is its error.
pub open spec fn shown_result(pr: Result<PopupResult>, r: Result<CliResult>) -> bool {
    match pr {
        Ok(p) => r == Ok::<CliResult, MaccyError>(CliResult::PopupShown(p.item_count)),
        Err(e) => r == Err::<CliResult, MaccyError>(e),
    }
}

/// The number written `s`, or 10 when it is not a number.
pub open spec fn limit_or_ten(s: Seq<char>) -> usize {
    match parse_int_spec(s, false, 0, usize::MAX as int) {
        Ok(n) => n as usize,
        Err(_) => 10,
    }
}

/// How many items `item list` lists: the number after `list`, else 10.
pub open spec fn list_limit(args: Seq<String>) -> usize {
    if args.len() > 2 {
        limit_or_ten(args[2]@)
    } else {
        10
    }
}

/// Parses and runs command lines over one repository that its commands share.
/// The item command holds the repository; the daemon and popup commands are
/// handed it for the time they run.
pub struct CliParser<R: ClipboardRepository + Clone> {
    daemon_command: DaemonCommand<R>,
    popup_command: PopupCommand<R>,
    item_command: ItemCommand<R>,
}

/// `after` differs from `before` at most in its item command; the daemon and
/// popup commands work on the repository as the item command left it.
pub open spec fn only_items_changed<R: ClipboardRepository + Clone>(before: CliParser<R>, after: CliParser<R>) -> bool {
    &&& after.daemon() == before.daemon().with_repo(after.item().repo())
    &&& after.popup() == before.popup().with_repo(after.item().repo())
    &&& after.wf()
}

/// Running the item command line `args` (its first word is `item`) took
/// `before` to `after` with result `r`.
pub open spec fn item_dispatch<R: ClipboardRepository + Clone>(
    before: CliParser<R>,
    args: Seq<String>,
    after: CliParser<R>,
    r: Result<CliResult>,
) -> bool {
    &&& only_items_changed(before, after)
    &&& if args.len() < 2 {
        after.item() == before.item() && exists|lr: Result<Vec<ItemSummary>>|
            #[trigger] call_ensures(ItemCommand::<R>::list_recent, (&before.item(), 10usize), lr)
                && list_result(lr, r)
    } else {
        let w = args[1]@;
        if w == "list"@ {
            after.item() == before.item() && exists|lr: Result<Vec<ItemSummary>>|
                #[trigger] call_ensures(
                    ItemCommand::<R>::list_recent,
                    (&before.item(), list_limit(args)),
                    lr,
                ) && list_result(lr, r)
        } else if w == "pinned"@ {
            after.item() == before.item() && exists|lr: Result<Vec<ItemSummary>>|
                #[trigger] call_ensures(ItemCommand::<R>::list_pinned, (&before.item(),), lr)
                    && list_result(lr, r)
        } else if w == "delete"@ || w == "pin"@ {
            if args.len() < 3 {
                after.item() == before.item() && is_error_text(r, "Item ID required"@)
            } else if w == "delete"@ {
                exists|d: Result<()>|
                    #[trigger] delete_outcome(before.item().repo(), args[2]@, after.item().repo(), d)
                        && success_or_error(d, r, "Item "@ + args[2]@ + " deleted"@)
            } else {
                exists|d: Result<()>|
                    #[trigger] toggle_outcome(before.item().repo(), args[2]@, after.item().repo(), d)
                        && success_or_error(d, r, "Item "@ + args[2]@ + " pinned/unpinned"@)
            }
        } else if w == "clear"@ {
            exists|d: Result<usize>|
                #[trigger] clear_outcome(before.item().repo(), after.item().repo(), d) && match d {
                    Ok(n) => is_message(r, "Cleared "@ + decimal(n as int) + " unpinned items"@),
                    Err(e) => r == Err::<CliResult, MaccyError>(e),
                }
        } else if w == "count"@ {
            after.item() == before.item() && exists|c: Result<usize>|
                #[trigger] call_ensures(ItemCommand::<R>::count, (&before.item(),), c) && match c {
                    Ok(n) => r == Ok::<CliResult, MaccyError>(CliResult::Count(n)),
                    Err(e) => r == Err::<CliResult, MaccyError>(e),
                }
        } else {
            after.item() == before.item() && is_error_text(r, "Unknown item command: "@ + w)
        }
    }
}

/// Running the daemon command line `args` (its first word is `daemon`) took
/// `before` to `after` with result `r`.
pub open spec fn daemon_dispatch<R: ClipboardRepository + Clone>(
    before: CliParser<R>,
    args: Seq<String>,
    after: CliParser<R>,
    r: Result<CliResult>,
) -> bool {
    &&& after.item() == before.item()
    &&& after.popup() == before.popup()
    &&& after.wf()
    &&& daemon_step(before.daemon(), args, after.daemon(), r)
}

/// Running the daemon command line `args` took daemon command `d0` to `d1`
/// with result `r`.
pub open spec fn daemon_step<R: ClipboardRepository>(
    d0: DaemonCommand<R>,
    args: Seq<String>,
    d1: DaemonCommand<R>,
    r: Result<CliResult>,
) -> bool {
    &&& d1.daemon() == d0.daemon()
    &&& if args.len() < 2 || args[1]@ == "status"@ {
        d1 == d0 && exists|st: Result<DaemonStatus>|
            #[trigger] call_ensures(DaemonCommand::<R>::status, (&d0,), st) && match st {
                Ok(s) => r matches Ok(CliResult::DaemonStatus(t)) && t == s,
                Err(e) => r == Err::<CliResult, MaccyError>(e),
            }
    } else {
        let w = args[1]@;
        if w == "start"@ {
            d1.started() && is_message(r, "Daemon started"@)
        } else if w == "stop"@ {
            !d1.started() && is_message(r, "Daemon stopped"@)
        } else if w == "restart"@ {
            d1.started() && is_message(r, "Daemon restarted"@)
        } else {
            d1 == d0 && is_error_text(r, "Unknown daemon command: "@ + w)
        }
    }
}

/// Running the popup command line `args` (its first word is `popup`) took
/// `before` to `after` with result `r`.
pub open spec fn popup_dispatch<R: ClipboardRepository + Clone>(
    before: CliParser<R>,
    args: Seq<String>,
    after: CliParser<R>,
    r: Result<CliResult>,
) -> bool {
    &&& after.item() == before.item()
    &&& after.daemon() == before.daemon()
    &&& after.wf()
    &&& popup_step(before.popup(), args, after.popup(), r)
}

/// Running the popup command line `args` took popup command `p0` to `p1`
/// with result `r`.
pub open spec fn popup_step<R: ClipboardRepository>(
    p0: PopupCommand<R>,
    args: Seq<String>,
    p1: PopupCommand<R>,
    r: Result<CliResult>,
) -> bool {
    &&& p1.wf()
    &&& p1.repo() == p0.repo()
    &&& if args.len() < 2 || args[1]@ == "show"@ {
        exists|pr: Result<PopupResult>| #[trigger] show_outcome(p0, p1, pr) && shown_result(pr, r)
    } else {
        let w = args[1]@;
        if w == "hide"@ {
            exists|pr: Result<PopupResult>|
                #[trigger] hide_outcome(p0, p1, pr) && is_message(r, "Popup hidden"@)
        } else if w == "search"@ {
            if args.len() < 3 {
                p1 == p0 && is_error_text(r, "Search query required"@)
            } else {
                exists|q: String, pr: Result<PopupResult>|
                    q@ == args[2]@ && #[trigger] search_outcome(p0, q, p1, pr) && shown_result(pr, r)
            }
        } else if w == "up"@ {
            exists|pr: Result<PopupResult>|
                #[trigger] move_outcome(p0, SelectionDirection::Up, p1, pr) && success_or_error(
                    pr,
                    r,
                    "Selection moved up"@,
                )
        } else if w == "down"@ {
            exists|pr: Result<PopupResult>|
                #[trigger] move_outcome(p0, SelectionDirection::Down, p1, pr) && success_or_error(
                    pr,
                    r,
                    "Selection moved down"@,
                )
        } else if w == "paste"@ {
            p1 == p0 && exists|c: Result<Option<String>>|
                #[trigger] call_ensures(PopupCommand::<R>::select_and_paste, (&p0,), c) && match c {
                    Ok(Some(t)) => r matches Ok(CliResult::Pasted(u)) && u@ == t@,
                    Ok(None) => is_error_text(r, "No selection"@),
                    Err(e) => r == Err::<CliResult, MaccyError>(e),
                }
        } else {
            p1 == p0 && is_error_text(r, "Unknown popup command: "@ + w)
        }
    }
}

impl<R: ClipboardRepository + Clone> CliParser<R> {
    pub closed spec fn wf(&self) -> bool {
        self.popup_command.wf()
    }

    pub closed spec fn item(&self) -> ItemCommand<R> {
        self.item_command
    }

    /// The daemon command, over the shared repository.
    pub closed spec fn daemon(&self) -> DaemonCommand<R> {
        self.daemon_command.with_repo(self.item_command.repo())
    }

    /// The popup command, over the shared repository.
    pub closed spec fn popup(&self) -> PopupCommand<R> {
        self.popup_command.with_repo(self.item_command.repo())
    }

    /// A parser whose commands share `repository`; the daemon is stopped,
    /// the popup hidden and listing at most 100 items.
    pub fn new(repository: R) -> (p: Self)
        ensures
            p.wf(),
            p.item().repo() == repository,
            p.daemon().daemon().items().repo() == repository,
            !p.daemon().started(),
            p.popup().repo() == repository,
            !p.popup().shown(),
            p.popup().max() == 100,
    {
        let daemon_command = DaemonCommand::new(repository.clone());
        let popup_command = PopupCommand::new(repository.clone(), 100);
        let item_command = ItemCommand::new(repository);
        CliParser { daemon_command, popup_command, item_command }
    }

    fn help(&self) -> (r: String)
        ensures
            r@ == help_text(),
    {
        let head = concat("maccy-kde CLI v", VERSION);
        concat(
            head.as_str(),
            "\n\nCommands:\ndaemon [start|stop|restart|status] - Manage daemon\npopup [show|hide|search <query>|up|down|paste] - Manage popup\nitem [list <n>|pinned|delete <id>|pin <id>|clear|count] - Manage items\nhelp - Show this help",
        )
    }

    /// Runs command line `args`: `daemon`, `popup` or `item` with their own
    /// words, or `help`.
    pub fn execute(&mut self, args: &[String]) -> (r: Result<CliResult>)
        requires
            old(self).wf(),
        ensures
            final(self).wf(),
            args@.len() == 0 ==> is_help(r) && *final(self) == *old(self),
            args@.len() > 0 ==> {
                let w = args@[0]@;
                if w == "daemon"@ {
                    daemon_dispatch(*old(self), args@, *final(self), r)
                } else if w == "popup"@ {
                    popup_dispatch(*old(self), args@, *final(self), r)
                } else if w == "item"@ {
                    item_dispatch(*old(self), args@, *final(self), r)
                } else if w == "help"@ || w == "--help"@ || w == "-h"@ {
                    is_help(r) && *final(self) == *old(self)
                } else {
                    is_error_text(r, "Unknown command: "@ + w) && *final(self) == *old(self)
                }
            },
    {
        if args.len() == 0 {
            return Ok(CliResult::Help(self.help()));
        }
        let w = args[0].as_str();
        if same_str(w, "daemon") {
            self.execute_daemon(args)
        } else if same_str(w, "popup") {
            self.execute_popup(args)
        } else if same_str(w, "item") {
            self.execute_item(args)
        } else if same_str(w, "help") || same_str(w, "--help") || same_str(w, "-h") {
            Ok(CliResult::Help(self.help()))
        } else {
            Ok(CliResult::Error(concat("Unknown command: ", w)))
        }
    }

    fn run_daemon(cmd: &mut DaemonCommand<R>, args: &[String]) -> (r: Result<CliResult>)
        requires
            args@.len() > 0,
        ensures
            daemon_step(*old(cmd), args@, *final(cmd), r),
    {
        if args.len() < 2 || same_str(args[1].as_str(), "status") {
            let st = cmd.status();
            assert(call_ensures(DaemonCommand::<R>::status, (&*cmd,), st));
            return match st {
                Ok(s) => Ok(CliResult::DaemonStatus(s)),
                Err(e) => Err(e),
            };
        }
        let w = args[1].as_str();
        if same_str(w, "start") {
            match cmd.start() {
                Ok(_) => Ok(CliResult::Success(owned("Daemon started"))),
                Err(e) => Err(e),
            }
        } else if same_str(w, "stop") {
            match cmd.stop() {
                Ok(_) => Ok(CliResult::Success(owned("Daemon stopped"))),
                Err(e) => Err(e),
            }
        } else if same_str(w, "restart") {
            match cmd.restart() {
                Ok(_) => Ok(CliResult::Success(owned("Daemon restarted"))),
                Err(e) => Err(e),
            }
        } else {
            Ok(CliResult::Error(concat("Unknown daemon command: ", w)))
        }
    }

    fn execute_daemon(&mut self, args: &[String]) -> (r: Result<CliResult>)
        requires
            old(self).wf(),
            args@.len() > 0,
        ensures
            daemon_dispatch(*old(self), args@, *final(self), r),
    {
        std::mem::swap(self.item_command.repository_mut(), self.daemon_command.repository_mut());
        let r = Self::run_daemon(&mut self.daemon_command, args);
        std::mem::swap(self.item_command.repository_mut(), self.daemon_command.repository_mut());
        r
    }

    fn run_popup(cmd: &mut PopupCommand<R>, args: &[String]) -> (r: Result<CliResult>)
        requires
            old(cmd).wf(),
            args@.len() > 0,
        ensures
            popup_step(*old(cmd), args@, *final(cmd), r),
    {
        if args.len() < 2 || same_str(args[1].as_str(), "show") {
            let ghost p0 = *cmd;
            let pr = cmd.show();
            assert(show_outcome(p0, *cmd, pr));
            return match pr {
                Ok(p) => Ok(CliResult::PopupShown(p.item_count)),
                Err(e) => Err(e),
            };
        }
        let w = args[1].as_str();
        if same_str(w, "hide") {
            let ghost p0 = *cmd;
            let pr = cmd.hide_popup();
            assert(hide_outcome(p0, *cmd, pr));
            match pr {
                Ok(_) => Ok(CliResult::Success(owned("Popup hidden"))),
                Err(e) => Err(e),
            }
        } else if same_str(w, "search") {
            if args.len() < 3 {
                return Ok(CliResult::Error(owned("Search query required")));
            }
            let q = args[2].clone();
            let ghost qg = q;
            let ghost p0 = *cmd;
            let pr = cmd.search(q);
            assert(qg@ == args@[2]@ && search_outcome(p0, qg, *cmd, pr));
            match pr {
                Ok(p) => Ok(CliResult::PopupShown(p.item_count)),
                Err(e) => Err(e),
            }
        } else if same_str(w, "up") {
            let ghost p0 = *cmd;
            let pr = cmd.move_selection(SelectionDirection::Up);
            assert(move_outcome(p0, SelectionDirection::Up, *cmd, pr));
            match pr {
                Ok(_) => Ok(CliResult::Success(owned("Selection moved up"))),
                Err(e) => Err(e),
            }
        } else if same_str(w, "down") {
            let ghost p0 = *cmd;
            let pr = cmd.move_selection(SelectionDirection::Down);
            assert(move_outcome(p0, SelectionDirection::Down, *cmd, pr));
            match pr {
                Ok(_) => Ok(CliResult::Success(owned("Selection moved down"))),
                Err(e) => Err(e),
            }
        } else if same_str(w, "paste") {
            let c = cmd.select_and_paste();
            assert(call_ensures(PopupCommand::<R>::select_and_paste, (&*cmd,), c));
            match c {
                Ok(Some(text)) => Ok(CliResult::Pasted(text)),
                Ok(None) => Ok(CliResult::Error(owned("No selection"))),
                Err(e) => Err(e),
            }
        } else {
            Ok(CliResult::Error(concat("Unknown popup command: ", w)))
        }
    }

    fn execute_popup(&mut self, args: &[String]) -> (r: Result<CliResult>)
        requires
            old(self).wf(),
            args@.len() > 0,
        ensures
            popup_dispatch(*old(self), args@, *final(self), r),
    {
        std::mem::swap(self.item_command.repository_mut(), self.popup_command.repository_mut());
        let r = Self::run_popup(&mut self.popup_command, args);
        std::mem::swap(self.item_command.repository_mut(), self.popup_command.repository_mut());
        r
    }

    #[verifier::spinoff_prover]
    #[verifier::rlimit(40)]
    fn execute_item(&mut self, args: &[String]) -> (r: Result<CliResult>)
        requires
            old(self).wf(),
            args@.len() > 0,
        ensures
            item_dispatch(*old(self), args@, *final(self), r),
    {
        if args.len() < 2 {
            let lr = self.item_command.list_recent(10);
            assert(call_ensures(ItemCommand::<R>::list_recent, (&self.item(), 10usize), lr));
            return match lr {
                Ok(items) => Ok(CliResult::ItemList(items)),
                Err(e) => Err(e),
            };
        }
        let w = args[1].as_str();
        if same_str(w, "list") {
            let limit: usize = if args.len() > 2 {
                match parse_usize(args[2].as_str()) {
                    Ok(n) => n,
                    Err(_) => 10,
                }
            } else {
                10
            };
            let lr = self.item_command.list_recent(limit);
            assert(call_ensures(ItemCommand::<R>::list_recent, (&self.item(), limit), lr));
            assert(limit == list_limit(args@));
            let r: Result<CliResult> = match lr {
                Ok(items) => Ok(CliResult::ItemList(items)),
                Err(e) => Err(e),
            };
            assert(list_result(lr, r));
            assert(item_dispatch(*old(self), args@, *self, r));
            r
        } else if same_str(w, "pinned") {
            let lr = self.item_command.list_pinned();
            assert(call_ensures(ItemCommand::<R>::list_pinned, (&self.item(),), lr));
            let r: Result<CliResult> = match lr {
                Ok(items) => Ok(CliResult::ItemList(items)),
                Err(e) => Err(e),
            };
            assert(item_dispatch(*old(self), args@, *self, r));
            r
        } else if same_str(w, "delete") || same_str(w, "pin") {
            if args.len() < 3 {
                return Ok(CliResult::Error(owned("Item ID required")));
            }
            let id = args[2].as_str();
            if same_str(w, "delete") {
                let ghost i0 = self.item().repo();
                let d = self.item_command.delete(id);
                assert(delete_outcome(i0, args@[2]@, self.item().repo(), d));
                let r: Result<CliResult> = match d {
                    Ok(_) => {
                        let m = concat("Item ", id);
                        Ok(CliResult::Success(concat(m.as_str(), " deleted")))
                    },
                    Err(e) => Err(e),
                };
                assert(item_dispatch(*old(self), args@, *self, r));
                r
            } else {
                let ghost i0 = self.item().repo();
                let d = self.item_command.toggle_pin(id);
                assert(toggle_outcome(i0, args@[2]@, self.item().repo(), d));
                let r: Result<CliResult> = match d {
                    Ok(_) => {
                        let m = concat("Item ", id);
                        Ok(CliResult::Success(concat(m.as_str(), " pinned/unpinned")))
                    },
                    Err(e) => Err(e),
                };
                assert(item_dispatch(*old(self), args@, *self, r));
                r
            }
        } else if same_str(w, "clear") {
            let ghost i0 = self.item().repo();
            let d = self.item_command.clear_unpinned();
            assert(clear_outcome(i0, self.item().repo(), d));
            let r: Result<CliResult> = match d {
                Ok(n) => {
                    let count = format_usize(n);
                    let m = concat("Cleared ", count.as_str());
                    Ok(CliResult::Success(concat(m.as_str(), " unpinned items")))
                },
                Err(e) => Err(e),
            };
            assert(item_dispatch(*old(self), args@, *self, r));
            r
        } else if same_str(w, "count") {
            let c = self.item_command.count();
            assert(call_ensures(ItemCommand::<R>::count, (&self.item(),), c));
            let r: Result<CliResult> = match c {
                Ok(n) => Ok(CliResult::Count(n)),
                Err(e) => Err(e),
            };
            assert(item_dispatch(*old(self), args@, *self, r));
            r
        } else {
            let r: Result<CliResult> = Ok(CliResult::Error(concat("Unknown item command: ", w)));
            assert(item_dispatch(*old(self), args@, *self, r));
            r
        }
    }
}

/// `item list` with no number lists ten items: as many as a bare `item`,
/// with the same outcome in every respect.
pub proof fn lemma_item_list_defaults_to_ten<R: ClipboardRepository + Clone>(
    before: CliParser<R>,
    args: Seq<String>,
    bare: Seq<String>,
    after: CliParser<R>,
    r: Result<CliResult>,
)
    requires
        args.len() == 2,
        args[1]@ == "list"@,
        bare.len() == 1,
    ensures
        list_limit(args) == 10,
        item_dispatch(before, args, after, r) == item_dispatch(before, bare, after, r),
{
}

/// `item list 10` lists ten items, and so does `item list` followed by a
/// word that is not a number.
pub proof fn lemma_item_list_limit(args: Seq<String>)
    requires
        args.len() > 2,
    ensures
        args[2]@ == seq!['1', '0'] ==> list_limit(args) == 10,
        (forall|k: int| 0 <= k < args[2]@.len() ==> !('0' <= #[trigger] args[2]@[k] <= '9')) ==> list_limit(
            args,
        ) == 10,
{
    let s = args[2]@;
    if s == seq!['1', '0'] {
        assert(s.drop_first().drop_first().len() == 0);
        assert(crate::text::accumulate(s.drop_first().drop_first(), 10, true, 0, usize::MAX as int) == Ok::<
            int,
            crate::text::IntErrorKind,
        >(10));
        assert(crate::text::accumulate(s.drop_first(), 1, true, 0, usize::MAX as int) == Ok::<
            int,
            crate::text::IntErrorKind,
        >(10));
        assert(crate::text::accumulate(s, 0, true, 0, usize::MAX as int) == Ok::<
            int,
            crate::text::IntErrorKind,
        >(10));
    }
    if forall|k: int| 0 <= k < s.len() ==> !('0' <= #[trigger] s[k] <= '9') {
        if s.len() > 0 {
            assert(!crate::text::is_digit(s[0]));
            if s.len() > 1 {
                assert(!crate::text::is_digit(s.drop_first()[0]));
            }
        }
    }
}

} // verus!
