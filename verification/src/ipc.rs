//! Requests from the popup to the daemon, and how the daemon answers them.
use vstd::prelude::*;
use crate::database::{
    history, id_row, is_no_row_error, other_id, records_of, strings_view, text_recorded, text_row,
    toggle_record, ClipboardItem, DataType, Database, ItemRecord,
};
use crate::integration::repository_bridge::{first_index, has_id, image_of, RepositoryBridge};
use crate::shared::MaccyError;
use crate::text::{concat, owned};

verus! {

/// A request to the daemon.
#[derive(Debug, Clone, Copy, PartialEq, Eq, Structural)]
pub enum IpcCommand {
    GetHistory,
    SelectItem { id: i64 },
    TogglePin { id: i64 },
    DeleteItem { id: i64 },
}

/// The daemon's answer.
#[derive(Debug, Clone, PartialEq)]
pub enum IpcResponse {
    History(Vec<ClipboardItem>),
    Success,
    Error(String),
}

/// What the daemon does about a request: the answer, the text to paste into
/// the active window, and the image files of dropped rows to remove.
#[derive(Debug, Clone, PartialEq)]
pub struct IpcOutcome {
    pub response: IpcResponse,
    pub paste: Option<String>,
    pub removed_images: Vec<String>,
}

/// `resp` lists the history of rows `recs`.
pub open spec fn lists_history(resp: IpcResponse, recs: Seq<ItemRecord>) -> bool {
    resp matches IpcResponse::History(h) && records_of(h@) == history(recs)
}

/// Copying text `t` again took rows `before` (last identifier `lb`) to
/// `after` (last identifier `la`), dropping images `removed`; when it fails
/// nothing changes.
pub open spec fn text_copied(
    before: Seq<ItemRecord>,
    lb: i64,
    t: Seq<char>,
    after: Seq<ItemRecord>,
    la: i64,
    removed: Seq<Seq<char>>,
) -> bool {
    if text_row(before, t) is Some || lb < i64::MAX {
        exists|now: i64| #[trigger] text_recorded(before, lb, t, now, after, la, removed)
    } else {
        after == before && la == lb && removed == Seq::<Seq<char>>::empty()
    }
}

/// How the daemon answered `cmd` with store `before` (last identifier
/// `lb`), leaving store `after` (last identifier `la`).
pub open spec fn answered(
    cmd: IpcCommand,
    before: Seq<ItemRecord>,
    lb: i64,
    after: Seq<ItemRecord>,
    la: i64,
    out: IpcOutcome,
) -> bool {
    match cmd {
        IpcCommand::GetHistory => {
            &&& after == before && la == lb
            &&& lists_history(out.response, before)
            &&& out.paste is None
            &&& out.removed_images@ == Seq::<String>::empty()
        },
        IpcCommand::SelectItem { id } => match first_index(history(before), has_id(id)) {
            None => {
                &&& after == before && la == lb
                &&& out.response matches IpcResponse::Error(m) && m@ == "Item not found"@
                &&& out.paste is None
                &&& out.removed_images@ == Seq::<String>::empty()
            },
            Some(i) => {
                let row = history(before)[i];
                &&& lists_history(out.response, after)
                &&& if row.data_type == DataType::Text && row.value_text is Some {
                    &&& text_copied(
                        before,
                        lb,
                        row.value_text->0,
                        after,
                        la,
                        strings_view(out.removed_images@),
                    )
                    &&& out.paste matches Some(p) && p@ == row.value_text->0
                } else {
                    &&& after == before && la == lb
                    &&& out.paste is None
                    &&& out.removed_images@ == Seq::<String>::empty()
                }
            },
        },
        IpcCommand::TogglePin { id } => {
            &&& la == lb
            &&& out.paste is None
            &&& out.removed_images@ == Seq::<String>::empty()
            &&& match id_row(before, id) {
                Some(i) => after == toggle_record(before, i) && lists_history(out.response, after),
                None => after == before && (out.response matches IpcResponse::Error(m) && m@
                    == "Failed to toggle pin: Query returned no rows"@),
            }
        },
        IpcCommand::DeleteItem { id } => {
            &&& after == before.filter(other_id(id)) && la == lb
            &&& lists_history(out.response, after)
            &&& out.paste is None
            &&& strings_view(out.removed_images@) == image_of(before, id)
        },
    }
}

fn history_response(db: &Database) -> (r: IpcResponse)
    ensures
        lists_history(r, db.records()),
{
    match db.get_history() {
        Ok(items) => IpcResponse::History(items),
        Err(_) => IpcResponse::Error(owned("Failed to get history")),
    }
}

/// Answers a request from the popup, changing the store as it asks.
pub fn handle_command(cmd: IpcCommand, db: &mut Database) -> (r: IpcOutcome)
    ensures
        answered(
            cmd,
            old(db).records(),
            old(db).last_id_spec(),
            final(db).records(),
            final(db).last_id_spec(),
            r,
        ),
{
    match cmd {
        IpcCommand::GetHistory => IpcOutcome {
            response: history_response(db),
            paste: None,
            removed_images: Vec::new(),
        },
        IpcCommand::SelectItem { id } => {
            let h = match db.get_history() {
                Ok(h) => h,
                Err(_) => Vec::new(),
            };
            let i = match RepositoryBridge::first_with_id(&h, id) {
                Some(i) => i,
                None => {
                    return IpcOutcome {
                        response: IpcResponse::Error(owned("Item not found")),
                        paste: None,
                        removed_images: Vec::new(),
                    };
                },
            };
            let row = &h[i];
            let ghost before = db.records();
            let ghost lb = db.last_id_spec();
            let mut paste: Option<String> = None;
            let mut removed: Vec<String> = Vec::new();
            assert(strings_view(removed@) =~= Seq::<Seq<char>>::empty());
            if row.data_type == DataType::Text {
                match &row.value_text {
                    Some(text) => {
                        match db.add_text_item(text.as_str()) {
                            Ok(rm) => {
                                removed = rm;
                            },
                            Err(_) => {},
                        }
                        assert(text_copied(
                            before,
                            lb,
                            text@,
                            db.records(),
                            db.last_id_spec(),
                            strings_view(removed@),
                        ));
                        paste = Some(text.clone());
                    },
                    None => {},
                }
            }
            let out = IpcOutcome { response: history_response(db), paste, removed_images: removed };
            assert(answered(cmd, before, lb, db.records(), db.last_id_spec(), out));
            out
        },
        IpcCommand::TogglePin { id } => {
            match db.toggle_pin(id) {
                Ok(_) => IpcOutcome {
                    response: history_response(db),
                    paste: None,
                    removed_images: Vec::new(),
                },
                Err(e) => {
                    let detail = match &e {
                        MaccyError::Database(m) => m.clone(),
                        _ => owned(""),
                    };
                    let msg = concat("Failed to toggle pin: ", detail.as_str());
                    proof {
                        reveal_strlit("Failed to toggle pin: ");
                        reveal_strlit("Query returned no rows");
                        reveal_strlit("Failed to toggle pin: Query returned no rows");
                        assert(msg@ =~= "Failed to toggle pin: Query returned no rows"@);
                    }
                    IpcOutcome {
                        response: IpcResponse::Error(msg),
                        paste: None,
                        removed_images: Vec::new(),
                    }
                },
            }
        },
        IpcCommand::DeleteItem { id } => {
            let ghost before = db.records();
            let removed = match db.delete_item(id) {
                Ok(Some(p)) => {
                    let mut v: Vec<String> = Vec::new();
                    v.push(p);
                    assert(strings_view(v@) =~= image_of(before, id));
                    v
                },
                _ => {
                    let v: Vec<String> = Vec::new();
                    assert(strings_view(v@) =~= image_of(before, id));
                    v
                },
            };
            IpcOutcome { response: history_response(db), paste: None, removed_images: removed }
        },
    }
}

} // verus!
