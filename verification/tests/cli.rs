use maccy_kde::cli::cli_parser::{CliParser, CliResult};
use maccy_kde::cli::daemon_command::DaemonCommand;
use maccy_kde::cli::item_command::ItemCommand;
use maccy_kde::cli::popup_command::{PopupCommand, SelectionDirection};
use maccy_kde::domain::entities::{Category, ClipboardItem, Content, ItemId, MimeType};
use maccy_kde::domain::repositories::ClipboardRepository;
use maccy_kde::shared::{MaccyError, Result};

/// An in-memory repository: `save` numbers items from 1, `find_recent` gives
/// the latest first.
#[derive(Clone)]
struct MockRepo {
    items: Vec<ClipboardItem>,
}

impl MockRepo {
    fn new() -> Self {
        MockRepo { items: Vec::new() }
    }

    fn add_item(&mut self, id: i64, text: &str, category: Option<Category>) {
        self.items.push(ClipboardItem::new(
            ItemId(id),
            Content::Text(text.to_string()),
            MimeType::text_plain(),
            category,
        ));
    }
}

impl ClipboardRepository for MockRepo {
    fn save(&mut self, item: &ClipboardItem) -> Result<()> {
        let mut new_item = item.clone();
        new_item.id = ItemId(self.items.len() as i64 + 1);
        self.items.push(new_item);
        Ok(())
    }

    fn find_by_id(&self, id: ItemId) -> Result<Option<ClipboardItem>> {
        Ok(self.items.iter().find(|i| i.id == id).cloned())
    }

    fn find_all(&self) -> Result<Vec<ClipboardItem>> {
        Ok(self.items.clone())
    }

    fn find_recent(&self, limit: usize) -> Result<Vec<ClipboardItem>> {
        Ok(self.items.iter().rev().take(limit).cloned().collect())
    }

    fn find_pinned(&self) -> Result<Vec<ClipboardItem>> {
        Ok(self.items.iter().filter(|i| i.is_pinned).cloned().collect())
    }

    fn delete(&mut self, id: ItemId) -> Result<()> {
        self.items.retain(|i| i.id != id);
        Ok(())
    }

    fn update_pin(&mut self, id: ItemId, pinned: bool, order: i64) -> Result<()> {
        if let Some(item) = self.items.iter_mut().find(|i| i.id == id) {
            item.is_pinned = pinned;
            item.pin_order = order;
        }
        Ok(())
    }

    fn toggle_pin(&mut self, id: ItemId) -> Result<()> {
        if let Some(item) = self.items.iter_mut().find(|i| i.id == id) {
            item.is_pinned = !item.is_pinned;
        }
        Ok(())
    }

    fn count(&self) -> Result<usize> {
        Ok(self.items.len())
    }

    fn rotate_history(&mut self, _max_items: usize) -> Result<()> {
        Ok(())
    }

    fn find_by_content(&self, content: &str) -> Result<Option<ClipboardItem>> {
        Ok(self
            .items
            .iter()
            .find(|i| matches!(&i.content, Content::Text(t) if t == content))
            .cloned())
    }

    fn update_last_used(&mut self, id: ItemId) -> Result<()> {
        if let Some(item) = self.items.iter_mut().find(|i| i.id == id) {
            item.update_last_used();
        }
        Ok(())
    }
}

fn repo_with(texts: &[&str]) -> MockRepo {
    let mut repo = MockRepo::new();
    for (k, t) in texts.iter().enumerate() {
        repo.add_item(k as i64 + 1, t, None);
    }
    repo
}

fn args(words: &[&str]) -> Vec<String> {
    words.iter().map(|w| w.to_string()).collect()
}

// ---- item command ----

#[test]
fn test_item_command_creation() {
    let command = ItemCommand::new(MockRepo::new());

    assert_eq!(command.count().unwrap(), 0);
}

#[test]
fn test_list_recent() {
    let command = ItemCommand::new(repo_with(&["item1", "item2"]));
    let items = command.list_recent(10).unwrap();

    assert_eq!(items.len(), 2);
}

#[test]
fn test_list_pinned() {
    let mut repo = MockRepo::new();
    repo.add_item(1, "pinned", Some(Category::Url));
    repo.update_pin(ItemId(1), true, 1).unwrap();

    let command = ItemCommand::new(repo);
    let items = command.list_pinned().unwrap();

    assert_eq!(items.len(), 1);
}

#[test]
fn item_command_test_delete_item() {
    let mut command = ItemCommand::new(repo_with(&["to delete"]));
    command.delete("1").unwrap();

    assert_eq!(command.count().unwrap(), 0);
}

#[test]
fn test_delete_invalid_id() {
    let mut command = ItemCommand::new(MockRepo::new());

    let result = command.delete("invalid");
    assert!(result.is_err());
}

#[test]
fn item_command_test_toggle_pin() {
    let mut command = ItemCommand::new(repo_with(&["item"]));
    command.toggle_pin("1").unwrap();

    let items = command.list_pinned().unwrap();
    assert_eq!(items.len(), 1);
}

#[test]
fn test_get_item() {
    let command = ItemCommand::new(repo_with(&["test item"]));
    let item = command.get_item("1").unwrap();

    assert!(item.is_some());
    assert_eq!(item.unwrap().display_text, "test item");
}

#[test]
fn test_get_item_not_found() {
    let command = ItemCommand::new(MockRepo::new());

    let item = command.get_item("999");
    assert!(item.is_ok());
    assert!(item.unwrap().is_none());
}

#[test]
fn test_clear_unpinned() {
    let mut command = ItemCommand::new(repo_with(&["unpinned"]));
    let deleted = command.clear_unpinned().unwrap();

    assert_eq!(deleted, 1);
    assert_eq!(command.count().unwrap(), 0);
}

#[test]
fn clear_unpinned_keeps_pinned_items() {
    let mut repo = repo_with(&["a", "b", "c"]);
    repo.update_pin(ItemId(2), true, 1).unwrap();
    let mut command = ItemCommand::new(repo);
    assert_eq!(command.clear_unpinned().unwrap(), 2);
    let left = command.list_recent(10).unwrap();
    assert_eq!(left.len(), 1);
    assert_eq!(left[0].id, "2");
    assert!(left[0].is_pinned);
}

#[test]
fn item_details_and_summaries() {
    let mut repo = MockRepo::new();
    repo.add_item(5, "https://example.com", Some(Category::Url));
    repo.add_item(6, "plain", None);
    let command = ItemCommand::new(repo);
    let d = command.get_item("5").unwrap().unwrap();
    assert_eq!(d.id, "5");
    assert_eq!(d.category, Some("Url".to_string()));
    assert_eq!(d.mime_type, "text/plain");
    assert!(!d.is_pinned);
    let list = command.list_recent(1).unwrap();
    assert_eq!(list.len(), 1);
    assert_eq!(list[0].id, "6");
    assert_eq!(list[0].display_text, "plain");
    assert!(!list[0].has_category);
    assert_eq!(command.get_item("-0").unwrap().is_none(), true);
}

#[test]
fn malformed_ids_are_validation_errors() {
    let mut command = ItemCommand::new(MockRepo::new());
    match command.get_item("invalid") {
        Err(MaccyError::Validation(m)) => assert_eq!(m, "Invalid ID: invalid digit found in string"),
        _ => panic!("expected a validation error"),
    }
    match command.toggle_pin("") {
        Err(MaccyError::Validation(m)) => assert_eq!(m, "Invalid ID: cannot parse integer from empty string"),
        _ => panic!("expected a validation error"),
    }
    match command.delete("99999999999999999999") {
        Err(MaccyError::Validation(m)) => assert_eq!(m, "Invalid ID: number too large to fit in target type"),
        _ => panic!("expected a validation error"),
    }
    match command.delete("-99999999999999999999") {
        Err(MaccyError::Validation(m)) => assert_eq!(m, "Invalid ID: number too small to fit in target type"),
        _ => panic!("expected a validation error"),
    }
    assert!(command.delete("+1").is_ok());
}

// ---- daemon command ----

#[test]
fn test_daemon_command_creation() {
    let command = DaemonCommand::new(MockRepo::new());

    assert!(!command.is_started());
}

#[test]
fn test_start_daemon() {
    let mut command = DaemonCommand::new(MockRepo::new());

    let result = command.start();
    assert!(result.is_ok());
    assert!(command.is_started());
}

#[test]
fn test_stop_daemon() {
    let mut command = DaemonCommand::new(MockRepo::new());

    command.start().unwrap();
    let result = command.stop();
    assert!(result.is_ok());
    assert!(!command.is_started());
}

#[test]
fn test_status_not_running() {
    let command = DaemonCommand::new(MockRepo::new());

    let status = command.status().unwrap();
    assert!(!status.is_running);
    assert!(status.stats.is_none());
}

#[test]
fn test_status_running() {
    let mut command = DaemonCommand::new(MockRepo::new());

    command.start().unwrap();
    let status = command.status().unwrap();

    assert!(status.is_running);
    assert!(status.stats.is_some());
}

#[test]
fn test_restart_daemon() {
    let mut command = DaemonCommand::new(MockRepo::new());

    command.start().unwrap();
    let result = command.restart();
    assert!(result.is_ok());
    assert!(command.is_started());
}

#[test]
fn running_status_counts_items() {
    let mut repo = repo_with(&["a", "b"]);
    repo.update_pin(ItemId(1), true, 1).unwrap();
    let mut command = DaemonCommand::new(repo);
    command.start().unwrap();
    let stats = command.status().unwrap().stats.unwrap();
    assert_eq!(stats.total_items, 2);
    assert_eq!(stats.pinned_items, 1);
}

// ---- popup command ----

#[test]
fn test_popup_command_creation() {
    let command = PopupCommand::new(MockRepo::new(), 100);

    assert!(!command.is_shown());
}

#[test]
fn test_show_popup() {
    let mut command = PopupCommand::new(repo_with(&["test item"]), 100);
    let result = command.show().unwrap();

    assert!(result.shown);
    assert!(result.item_count >= 1);
}

#[test]
fn test_hide_popup() {
    let mut command = PopupCommand::new(MockRepo::new(), 100);

    command.show().unwrap();
    assert!(command.is_shown());

    let result = command.hide_popup().unwrap();
    assert!(!result.shown);
    assert!(!command.is_shown());
}

#[test]
fn popup_command_test_move_selection() {
    let mut command = PopupCommand::new(repo_with(&["item1", "item2"]), 100);
    command.show().unwrap();

    let result = command.move_selection(SelectionDirection::Down).unwrap();
    assert!(result.shown);
}

#[test]
fn test_move_selection_not_shown() {
    let mut command = PopupCommand::new(MockRepo::new(), 100);

    let result = command.move_selection(SelectionDirection::Down);
    assert!(result.is_err());
}

#[test]
fn test_select_and_paste() {
    let mut command = PopupCommand::new(repo_with(&["paste me"]), 100);
    command.show().unwrap();

    let content = command.select_and_paste().unwrap();
    assert_eq!(content, Some("paste me".to_string()));
}

#[test]
fn test_search() {
    let mut command = PopupCommand::new(repo_with(&["hello world", "goodbye world"]), 100);
    command.show().unwrap();

    let result = command.search("hello".to_string()).unwrap();
    assert!(result.shown);
    assert!(result.item_count >= 1);
}

#[test]
fn popup_command_test_get_stats() {
    let mut command = PopupCommand::new(repo_with(&["item"]), 100);
    command.show().unwrap();

    let stats = command.get_stats().unwrap();
    assert!(stats.is_some());
}

#[test]
fn test_get_stats_not_shown() {
    let command = PopupCommand::new(MockRepo::new(), 100);

    let stats = command.get_stats().unwrap();
    assert!(stats.is_none());
}

#[test]
fn popup_command_round_trip() {
    let mut command = PopupCommand::new(repo_with(&["one", "two", "three"]), 2);
    assert!(command.select_and_paste().is_err());
    assert!(command.search("x".to_string()).is_err());
    let shown = command.show().unwrap();
    assert_eq!(shown.item_count, 2);
    assert!(shown.has_selection);
    let moved = command.move_selection(SelectionDirection::Down).unwrap();
    assert_eq!(moved.item_count, 2);
    let stats = command.get_stats().unwrap().unwrap();
    assert_eq!(stats.selected_index, 1);
    let up = command.move_selection(SelectionDirection::Up).unwrap();
    assert!(up.has_selection);
    let found = command.search("two".to_string()).unwrap();
    assert_eq!(found.item_count, 1);
    assert_eq!(command.select_and_paste().unwrap(), Some("two".to_string()));
    let hidden = command.hide_popup().unwrap();
    assert_eq!(hidden.item_count, 0);
    assert!(!hidden.has_selection);
    assert!(command.hide_popup().is_ok());
}

// ---- parser ----

#[test]
fn test_cli_parser_creation() {
    let mut parser = CliParser::new(MockRepo::new());

    let result = parser.execute(&[]).unwrap();
    assert!(matches!(result, CliResult::Help(_)));
}

#[test]
fn test_execute_help() {
    let mut parser = CliParser::new(MockRepo::new());

    let result = parser.execute(&[String::from("help")]).unwrap();
    assert!(matches!(result, CliResult::Help(_)));
}

#[test]
fn test_execute_unknown_command() {
    let mut parser = CliParser::new(MockRepo::new());

    let result = parser.execute(&[String::from("unknown")]).unwrap();
    assert!(matches!(result, CliResult::Error(_)));
}

#[test]
fn test_execute_daemon_start() {
    let mut parser = CliParser::new(MockRepo::new());

    let args = vec![String::from("daemon"), String::from("start")];
    let result = parser.execute(&args).unwrap();

    assert!(matches!(result, CliResult::Success(_)));
}

#[test]
fn test_execute_item_count() {
    let mut parser = CliParser::new(repo_with(&["item"]));
    let args = vec![String::from("item"), String::from("count")];
    let result = parser.execute(&args).unwrap();

    assert!(matches!(result, CliResult::Count(_)));
}

#[test]
fn test_execute_item_list() {
    let mut parser = CliParser::new(repo_with(&["item1", "item2"]));
    let args = vec![String::from("item"), String::from("list")];
    let result = parser.execute(&args).unwrap();

    assert!(matches!(result, CliResult::ItemList(_)));
}

#[test]
fn parser_messages() {
    let mut parser = CliParser::new(repo_with(&["a", "b", "c"]));
    match parser.execute(&args(&["help"])).unwrap() {
        CliResult::Help(h) => {
            assert!(h.starts_with("maccy-kde CLI v0.1.0\n\nCommands:\n"));
            assert!(h.ends_with("help - Show this help"));
        },
        _ => panic!("expected help"),
    }
    assert!(matches!(parser.execute(&args(&["-h"])).unwrap(), CliResult::Help(_)));
    match parser.execute(&args(&["bogus"])).unwrap() {
        CliResult::Error(m) => assert_eq!(m, "Unknown command: bogus"),
        _ => panic!("expected an error"),
    }
    match parser.execute(&args(&["item", "list", "2"])).unwrap() {
        CliResult::ItemList(v) => assert_eq!(v.len(), 2),
        _ => panic!("expected a list"),
    }
    match parser.execute(&args(&["item", "list", "many"])).unwrap() {
        CliResult::ItemList(v) => assert_eq!(v.len(), 3),
        _ => panic!("expected a list"),
    }
    match parser.execute(&args(&["item", "pin"])).unwrap() {
        CliResult::Error(m) => assert_eq!(m, "Item ID required"),
        _ => panic!("expected an error"),
    }
    match parser.execute(&args(&["item", "pin", "2"])).unwrap() {
        CliResult::Success(m) => assert_eq!(m, "Item 2 pinned/unpinned"),
        _ => panic!("expected success"),
    }
    match parser.execute(&args(&["item", "pinned"])).unwrap() {
        CliResult::ItemList(v) => assert_eq!(v.len(), 1),
        _ => panic!("expected a list"),
    }
    match parser.execute(&args(&["item", "delete", "1"])).unwrap() {
        CliResult::Success(m) => assert_eq!(m, "Item 1 deleted"),
        _ => panic!("expected success"),
    }
    match parser.execute(&args(&["item", "clear"])).unwrap() {
        CliResult::Success(m) => assert_eq!(m, "Cleared 1 unpinned items"),
        _ => panic!("expected success"),
    }
    match parser.execute(&args(&["item", "count"])).unwrap() {
        CliResult::Count(n) => assert_eq!(n, 1),
        _ => panic!("expected a count"),
    }
    match parser.execute(&args(&["item", "frob"])).unwrap() {
        CliResult::Error(m) => assert_eq!(m, "Unknown item command: frob"),
        _ => panic!("expected an error"),
    }
    assert!(parser.execute(&args(&["item", "delete", "x"])).is_err());
}

#[test]
fn parser_daemon_and_popup() {
    let mut parser = CliParser::new(repo_with(&["alpha", "beta"]));
    match parser.execute(&args(&["daemon"])).unwrap() {
        CliResult::DaemonStatus(s) => assert!(!s.is_running),
        _ => panic!("expected a status"),
    }
    match parser.execute(&args(&["daemon", "restart"])).unwrap() {
        CliResult::Success(m) => assert_eq!(m, "Daemon restarted"),
        _ => panic!("expected success"),
    }
    match parser.execute(&args(&["daemon", "status"])).unwrap() {
        CliResult::DaemonStatus(s) => {
            assert!(s.is_running);
            assert_eq!(s.stats.unwrap().total_items, 2);
        },
        _ => panic!("expected a status"),
    }
    match parser.execute(&args(&["daemon", "stop"])).unwrap() {
        CliResult::Success(m) => assert_eq!(m, "Daemon stopped"),
        _ => panic!("expected success"),
    }
    match parser.execute(&args(&["daemon", "fly"])).unwrap() {
        CliResult::Error(m) => assert_eq!(m, "Unknown daemon command: fly"),
        _ => panic!("expected an error"),
    }
    assert!(parser.execute(&args(&["popup", "up"])).is_err());
    match parser.execute(&args(&["popup"])).unwrap() {
        CliResult::PopupShown(n) => assert_eq!(n, 2),
        _ => panic!("expected the popup"),
    }
    match parser.execute(&args(&["popup", "down"])).unwrap() {
        CliResult::Success(m) => assert_eq!(m, "Selection moved down"),
        _ => panic!("expected success"),
    }
    match parser.execute(&args(&["popup", "search"])).unwrap() {
        CliResult::Error(m) => assert_eq!(m, "Search query required"),
        _ => panic!("expected an error"),
    }
    match parser.execute(&args(&["popup", "search", "beta"])).unwrap() {
        CliResult::PopupShown(n) => assert_eq!(n, 1),
        _ => panic!("expected the popup"),
    }
    match parser.execute(&args(&["popup", "paste"])).unwrap() {
        CliResult::Pasted(t) => assert_eq!(t, "beta"),
        _ => panic!("expected a paste"),
    }
    match parser.execute(&args(&["popup", "search", "zzz"])).unwrap() {
        CliResult::PopupShown(n) => assert_eq!(n, 0),
        _ => panic!("expected the popup"),
    }
    match parser.execute(&args(&["popup", "paste"])).unwrap() {
        CliResult::Error(m) => assert_eq!(m, "No selection"),
        _ => panic!("expected an error"),
    }
    match parser.execute(&args(&["popup", "hide"])).unwrap() {
        CliResult::Success(m) => assert_eq!(m, "Popup hidden"),
        _ => panic!("expected success"),
    }
    match parser.execute(&args(&["popup", "spin"])).unwrap() {
        CliResult::Error(m) => assert_eq!(m, "Unknown popup command: spin"),
        _ => panic!("expected an error"),
    }
}

#[test]
fn parser_commands_share_the_repository() {
    let mut parser = CliParser::new(repo_with(&["a", "b", "c"]));
    match parser.execute(&args(&["item", "delete", "1"])).unwrap() {
        CliResult::Success(m) => assert_eq!(m, "Item 1 deleted"),
        _ => panic!("expected success"),
    }
    match parser.execute(&args(&["popup", "show"])).unwrap() {
        CliResult::PopupShown(n) => assert_eq!(n, 2),
        _ => panic!("expected the popup"),
    }
    parser.execute(&args(&["item", "pin", "2"])).unwrap();
    parser.execute(&args(&["daemon", "start"])).unwrap();
    match parser.execute(&args(&["daemon", "status"])).unwrap() {
        CliResult::DaemonStatus(s) => {
            let stats = s.stats.unwrap();
            assert_eq!(stats.total_items, 2);
            assert_eq!(stats.pinned_items, 1);
        },
        _ => panic!("expected a status"),
    }
    parser.execute(&args(&["item", "delete", "2"])).unwrap();
    match parser.execute(&args(&["popup", "search", "c"])).unwrap() {
        CliResult::PopupShown(n) => assert_eq!(n, 1),
        _ => panic!("expected the popup"),
    }
    match parser.execute(&args(&["item", "count"])).unwrap() {
        CliResult::Count(n) => assert_eq!(n, 1),
        _ => panic!("expected a count"),
    }
}
