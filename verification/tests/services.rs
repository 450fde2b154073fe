use maccy_kde::application::category_filter_service::CategoryFilterService;
use maccy_kde::application::category_service::CategoryService;
use maccy_kde::application::daemon_service::DaemonService;
use maccy_kde::application::fuzzy_search_service::{
    parse_query_filter, split_query, tag_category_exec, FuzzySearchService,
};
use maccy_kde::application::item_management_service::ItemManagementService;
use maccy_kde::application::monitor_service::MonitorService;
use maccy_kde::application::popup_service::{badge, PopupService};
use maccy_kde::presentation::presentation_service::PresentationService;
use maccy_kde::domain::entities::{Category, ClipboardItem, Content, ItemId, MimeType, Timestamp};
use maccy_kde::domain::repositories::ClipboardRepository;
use maccy_kde::shared::{MaccyError, Result};
use std::sync::Arc;

/// An in-memory repository: `save` numbers items from 1, `find_recent` gives
/// the latest saved first.
#[derive(Clone)]
struct MockRepo {
    items: Vec<ClipboardItem>,
    fail: bool,
}

impl MockRepo {
    fn new() -> Self {
        MockRepo { items: Vec::new(), fail: false }
    }

    fn failing() -> Self {
        MockRepo { items: Vec::new(), fail: true }
    }

    fn add_item(&mut self, id: i64, text: &str, category: Option<Category>) {
        self.items.push(ClipboardItem::new(
            ItemId(id),
            Content::Text(text.to_string()),
            MimeType::text_plain(),
            category,
        ));
    }

    fn check(&self) -> Result<()> {
        if self.fail {
            Err(MaccyError::Database("unavailable".to_string()))
        } else {
            Ok(())
        }
    }
}

impl ClipboardRepository for MockRepo {
    fn save(&mut self, item: &ClipboardItem) -> Result<()> {
        self.check()?;
        let mut new_item = item.clone();
        new_item.id = ItemId(self.items.len() as i64 + 1);
        self.items.push(new_item);
        Ok(())
    }

    fn find_by_id(&self, id: ItemId) -> Result<Option<ClipboardItem>> {
        self.check()?;
        Ok(self.items.iter().find(|i| i.id == id).cloned())
    }

    fn find_all(&self) -> Result<Vec<ClipboardItem>> {
        self.check()?;
        Ok(self.items.clone())
    }

    fn find_recent(&self, limit: usize) -> Result<Vec<ClipboardItem>> {
        self.check()?;
        Ok(self.items.iter().rev().take(limit).cloned().collect())
    }

    fn find_pinned(&self) -> Result<Vec<ClipboardItem>> {
        self.check()?;
        Ok(self.items.iter().filter(|i| i.is_pinned).cloned().collect())
    }

    fn delete(&mut self, id: ItemId) -> Result<()> {
        self.check()?;
        self.items.retain(|i| i.id != id);
        Ok(())
    }

    fn update_pin(&mut self, id: ItemId, pinned: bool, order: i64) -> Result<()> {
        self.check()?;
        if let Some(item) = self.items.iter_mut().find(|i| i.id == id) {
            item.is_pinned = pinned;
            item.pin_order = order;
        }
        Ok(())
    }

    fn toggle_pin(&mut self, id: ItemId) -> Result<()> {
        self.check()?;
        let len = self.items.len() as i64;
        if let Some(item) = self.items.iter_mut().find(|i| i.id == id) {
            item.is_pinned = !item.is_pinned;
            item.pin_order = if item.is_pinned { len } else { 0 };
        }
        Ok(())
    }

    fn count(&self) -> Result<usize> {
        self.check()?;
        Ok(self.items.len())
    }

    fn rotate_history(&mut self, _max_items: usize) -> Result<()> {
        self.check()
    }

    fn find_by_content(&self, content: &str) -> Result<Option<ClipboardItem>> {
        self.check()?;
        Ok(self
            .items
            .iter()
            .find(|i| match &i.content {
                Content::Text(text) => text == content,
                Content::Image(_) => false,
            })
            .cloned())
    }

    fn update_last_used(&mut self, id: ItemId) -> Result<()> {
        self.check()?;
        if let Some(item) = self.items.iter_mut().find(|i| i.id == id) {
            item.update_last_used();
        }
        Ok(())
    }
}

fn create_item(id: i64, text: &str, category: Option<Category>) -> ClipboardItem {
    ClipboardItem::new(ItemId(id), Content::Text(text.to_string()), MimeType::text_plain(), category)
}

fn create_test_item(id: i64, text: &str) -> ClipboardItem {
    create_item(id, text, None)
}

fn create_image_item(id: i64) -> ClipboardItem {
    ClipboardItem::new(
        ItemId(id),
        Content::Image("/test/image.png".to_string()),
        MimeType::image_png(),
        Some(Category::Picture),
    )
}

fn ids(v: &[&ClipboardItem]) -> Vec<i64> {
    v.iter().map(|i| i.id.0).collect()
}

// ---- item management ----

#[test]
fn test_add_text_item() {
    let mut service = ItemManagementService::new(MockRepo::new());

    let id = service.add_text_item("test text").unwrap();
    assert!(id.value() > 0);
}

#[test]
fn test_get_recent_items() {
    let mut service = ItemManagementService::new(MockRepo::new());

    service.add_text_item("item1").unwrap();
    service.add_text_item("item2").unwrap();

    let recent = service.get_recent_items(1).unwrap();
    assert_eq!(recent.len(), 1);
}

#[test]
fn item_management_service_test_toggle_pin() {
    let mut service = ItemManagementService::new(MockRepo::new());

    let id = service.add_text_item("test").unwrap();
    service.toggle_pin(id).unwrap();

    let item = service.get_item(id).unwrap();
    assert!(item.unwrap().pinned());
}

#[test]
fn item_management_service_test_delete_item() {
    let mut service = ItemManagementService::new(MockRepo::new());

    let id = service.add_text_item("test").unwrap();
    service.delete_item(id).unwrap();

    let item = service.get_item(id).unwrap();
    assert!(item.is_none());
}

#[test]
fn test_duplicate_detection() {
    let mut service = ItemManagementService::new(MockRepo::new());

    let id1 = service.add_text_item("duplicate").unwrap();
    let id2 = service.add_text_item("duplicate").unwrap();

    assert_eq!(id1, id2);
}

#[test]
fn test_get_total_count() {
    let mut service = ItemManagementService::new(MockRepo::new());

    service.add_text_item("item1").unwrap();
    service.add_text_item("item2").unwrap();

    let count = service.get_total_count().unwrap();
    assert_eq!(count, 2);
}

#[test]
fn added_item_is_categorized_text() {
    let mut service = ItemManagementService::new(MockRepo::new());
    let id = service.add_text_item("https://example.com").unwrap();
    let item = service.get_item(id).unwrap().unwrap();
    assert_eq!(item.content, Content::Text("https://example.com".to_string()));
    assert_eq!(item.category, Some(Category::Url));
    assert_eq!(item.mime_type.value(), "text/plain");
    assert!(!item.is_pinned);
    assert_eq!(service.get_pinned_items().unwrap().len(), 0);
}

#[test]
fn repeated_text_is_marked_used_not_saved_again() {
    let mut service = ItemManagementService::new(MockRepo::new());
    let id = service.add_text_item("again").unwrap();
    service.repository_mut().items[0].last_used_at = Timestamp::new(1);
    let id2 = service.add_text_item("again").unwrap();
    assert_eq!(id, id2);
    assert_eq!(service.get_total_count().unwrap(), 1);
    assert!(service.repository().items[0].last_used_at.value() > 1);
}

#[test]
fn repository_errors_come_back() {
    let mut service = ItemManagementService::new(MockRepo::failing());
    assert!(matches!(service.add_text_item("x"), Err(MaccyError::Database(_))));
    assert!(service.get_total_count().is_err());
    assert!(service.get_item(ItemId(1)).is_err());
    assert!(service.toggle_pin(ItemId(1)).is_err());
    assert!(service.delete_item(ItemId(1)).is_err());
    assert!(service.rotate_history(3).is_err());
}

// ---- monitor ----

#[test]
fn test_monitor_start_stop() {
    let mut service = MonitorService::new();

    assert!(!service.is_running());
    service.stop();
    assert!(!service.is_running());
}

#[test]
fn test_get_last_text() {
    let service = MonitorService::new();

    assert_eq!(service.get_last_text(), "");
}

#[test]
fn test_duplicate_prevention() {
    let _service = MonitorService::new();

    let text1 = "same text".to_string();
    let text2 = "same text".to_string();

    assert_eq!(text1, text2);
}

#[test]
fn monitor_saves_new_text_once() {
    let mut service = MonitorService::new();
    let mut repo = MockRepo::new();
    service.start();
    assert!(service.is_running());
    service.observe_clipboard(&mut repo, Some("  test text \n".to_string())).unwrap();
    assert_eq!(repo.items.len(), 1);
    assert_eq!(repo.items[0].content, Content::Text("test text".to_string()));
    assert_eq!(service.get_last_text(), "test text");
    // the same text again, however padded, is not saved again
    service.observe_clipboard(&mut repo, Some("test text".to_string())).unwrap();
    assert_eq!(repo.items.len(), 1);
    // blank text and an empty clipboard are ignored
    service.observe_clipboard(&mut repo, Some("   ".to_string())).unwrap();
    service.observe_clipboard(&mut repo, None).unwrap();
    assert_eq!(repo.items.len(), 1);
    assert_eq!(service.get_last_text(), "test text");
    service.observe_clipboard(&mut repo, Some("other".to_string())).unwrap();
    assert_eq!(repo.items.len(), 2);
    assert_eq!(repo.items[1].category, Some(Category::Account));
}

#[test]
fn monitor_reports_a_failed_save() {
    let mut service = MonitorService::new();
    let mut repo = MockRepo::failing();
    assert!(service.observe_clipboard(&mut repo, Some("x".to_string())).is_err());
}

// ---- daemon ----

#[test]
fn test_daemon_service_creation() {
    let daemon = DaemonService::new(MockRepo::new());

    assert!(!daemon.is_running());
    assert_eq!(daemon.get_stats().unwrap().total_items, 0);
}

#[test]
fn test_daemon_start_stop() {
    let mut daemon = DaemonService::new(MockRepo::new());

    assert!(!daemon.is_running());
    daemon.stop();
    assert!(!daemon.is_running());
}

#[test]
fn test_daemon_item_service_access() {
    let daemon = DaemonService::new(MockRepo::new());

    let item_service = daemon.item_service();
    let monitor_service = daemon.monitor_service();

    assert!(item_service.get_total_count().is_ok());
    assert!(!monitor_service.is_running());
}

#[test]
fn test_daemon_stats() {
    let daemon = DaemonService::new(MockRepo::new());

    let stats = daemon.get_stats().unwrap();
    assert_eq!(stats.total_items, 0);
    assert_eq!(stats.pinned_items, 0);
    assert!(!stats.is_running);
}

#[test]
fn test_daemon_service_cloning() {
    let daemon = DaemonService::new(MockRepo::new());

    let daemon_arc = Arc::new(daemon);
    assert!(Arc::strong_count(&daemon_arc) >= 1);
}

#[test]
fn daemon_runs_and_records_the_clipboard() {
    let mut daemon = DaemonService::new(MockRepo::new());
    daemon.start().unwrap();
    assert!(daemon.is_running());
    daemon.observe_clipboard(Some("hello".to_string())).unwrap();
    daemon.observe_clipboard(Some("hello".to_string())).unwrap();
    let id = daemon.item_service_mut().add_text_item("pin me").unwrap();
    daemon.item_service_mut().toggle_pin(id).unwrap();
    let stats = daemon.get_stats().unwrap();
    assert_eq!(stats.total_items, 2);
    assert_eq!(stats.pinned_items, 1);
    assert!(stats.is_running);
    daemon.stop();
    assert!(!daemon.is_running());
    assert!(!daemon.get_stats().unwrap().is_running);
}

#[test]
fn daemon_stats_report_the_repository_error() {
    let daemon = DaemonService::new(MockRepo::failing());
    assert!(daemon.get_stats().is_err());
}

// ---- categories ----

#[test]
fn test_detect_from_text() {
    assert!(matches!(CategoryService::detect_from_text("https://example.com"), Category::Url));
    assert!(matches!(CategoryService::detect_from_text("user@example.com"), Category::Email));
    assert!(matches!(CategoryService::detect_from_text("@username"), Category::Account));
    assert!(matches!(CategoryService::detect_from_text("plain text"), Category::Other));
}

#[test]
fn test_ensure_item_category() {
    let mut item = ClipboardItem {
        id: ItemId::new(1),
        content: Content::Text("https://example.com".to_string()),
        mime_type: MimeType::new("text/plain".to_string()),
        category: None,
        is_pinned: false,
        pin_order: 0,
        last_used_at: Timestamp::now(),
    };

    CategoryService::ensure_item_category(&mut item);

    assert!(matches!(item.category, Some(Category::Url)));
}

#[test]
fn test_detect_for_items() {
    let mut items = vec![
        ClipboardItem {
            id: ItemId::new(1),
            content: Content::Text("https://example.com".to_string()),
            mime_type: MimeType::new("text/plain".to_string()),
            category: None,
            is_pinned: false,
            pin_order: 0,
            last_used_at: Timestamp::now(),
        },
        ClipboardItem {
            id: ItemId::new(2),
            content: Content::Text("user@example.com".to_string()),
            mime_type: MimeType::new("text/plain".to_string()),
            category: None,
            is_pinned: false,
            pin_order: 0,
            last_used_at: Timestamp::now(),
        },
    ];

    CategoryService::detect_for_items(&mut items);

    assert!(matches!(items[0].category, Some(Category::Url)));
    assert!(matches!(items[1].category, Some(Category::Email)));
}

#[test]
fn test_existing_category_preserved() {
    let mut item = ClipboardItem {
        id: ItemId::new(1),
        content: Content::Text("https://example.com".to_string()),
        mime_type: MimeType::new("text/plain".to_string()),
        category: Some(Category::Other),
        is_pinned: false,
        pin_order: 0,
        last_used_at: Timestamp::now(),
    };

    CategoryService::ensure_item_category(&mut item);

    assert!(matches!(item.category, Some(Category::Other)));
}

#[test]
fn ensuring_a_category_twice_changes_nothing_more() {
    let mut item = create_test_item(1, "@someone");
    CategoryService::ensure_item_category(&mut item);
    let once = item.clone();
    CategoryService::ensure_item_category(&mut item);
    assert_eq!(item, once);
    assert_eq!(item.category, Some(Category::Account));
}

#[test]
fn test_filter_by_category_url() {
    let items = vec![
        create_item(1, "https://example.com", Some(Category::Url)),
        create_item(2, "user@example.com", Some(Category::Email)),
        create_item(3, "plain text", Some(Category::Other)),
    ];

    let result = CategoryFilterService::filter_by_category(&items, &Category::Url);
    assert_eq!(result.len(), 1);
    assert_eq!(result[0].id, ItemId(1));
}

#[test]
fn test_filter_by_multiple_categories() {
    let items = vec![
        create_item(1, "https://example.com", Some(Category::Url)),
        create_item(2, "https://github.com", Some(Category::Url)),
        create_item(3, "user@example.com", Some(Category::Email)),
        create_item(4, "plain text", Some(Category::Other)),
    ];

    let categories = vec![Category::Url, Category::Email];
    let result = CategoryFilterService::filter_by_categories(&items, &categories);
    assert_eq!(result.len(), 3);
}

#[test]
fn test_filter_without_category() {
    let items = vec![
        create_item(1, "https://example.com", Some(Category::Url)),
        create_item(2, "uncategorized text", None),
        create_item(3, "user@example.com", Some(Category::Email)),
    ];

    let result = CategoryFilterService::filter_without_category(&items);
    assert_eq!(result.len(), 1);
    assert_eq!(result[0].id, ItemId(2));
}

#[test]
fn category_filter_service_test_count_by_category() {
    let items = vec![
        create_item(1, "https://example.com", Some(Category::Url)),
        create_item(2, "https://github.com", Some(Category::Url)),
        create_item(3, "user@example.com", Some(Category::Email)),
    ];

    let count = CategoryFilterService::count_by_category(&items, &Category::Url);
    assert_eq!(count, 2);

    let email_count = CategoryFilterService::count_by_category(&items, &Category::Email);
    assert_eq!(email_count, 1);
}

#[test]
fn test_filter_empty_items() {
    let items: Vec<ClipboardItem> = vec![];
    let result = CategoryFilterService::filter_by_category(&items, &Category::Url);
    assert_eq!(result.len(), 0);
}

#[test]
fn category_filter_service_test_filter_no_match() {
    let items = vec![
        create_item(1, "https://example.com", Some(Category::Url)),
        create_item(2, "user@example.com", Some(Category::Email)),
    ];

    let result = CategoryFilterService::filter_by_category(&items, &Category::Account);
    assert_eq!(result.len(), 0);
}

#[test]
fn filters_keep_the_order() {
    let items = vec![
        create_item(1, "a", Some(Category::Url)),
        create_item(2, "b", Some(Category::Other)),
        create_item(3, "c", Some(Category::Url)),
        create_item(4, "d", None),
    ];
    assert_eq!(ids(&CategoryFilterService::filter_by_category(&items, &Category::Url)), vec![1, 3]);
    assert_eq!(
        ids(&CategoryFilterService::filter_by_categories(&items, &[Category::Other, Category::Url])),
        vec![1, 2, 3]
    );
    assert_eq!(ids(&CategoryFilterService::filter_by_categories(&items, &[])), Vec::<i64>::new());
}

// ---- fuzzy search ----

#[test]
fn test_search_empty_query() {
    let service = FuzzySearchService::new();
    let items = vec![create_test_item(1, "Hello World"), create_test_item(2, "Test Item")];

    let result = service.search(&items, "");
    assert_eq!(result.len(), 2);
}

#[test]
fn test_search_exact_match() {
    let service = FuzzySearchService::new();
    let items = vec![create_test_item(1, "Hello World"), create_test_item(2, "Test Item")];

    let result = service.search(&items, "Hello");
    assert_eq!(result.len(), 1);
    assert_eq!(result[0].id, ItemId(1));
}

#[test]
fn test_search_partial_match() {
    let service = FuzzySearchService::new();
    let items = vec![
        create_test_item(1, "Hello World"),
        create_test_item(2, "Hello There"),
        create_test_item(3, "Test Item"),
    ];

    let result = service.search(&items, "He");
    assert_eq!(result.len(), 2);
}

#[test]
fn test_search_no_match() {
    let service = FuzzySearchService::new();
    let items = vec![create_test_item(1, "Hello World"), create_test_item(2, "Test Item")];

    let result = service.search(&items, "xyz");
    assert_eq!(result.len(), 0);
}

#[test]
fn test_search_cyrillic() {
    let service = FuzzySearchService::new();
    let items = vec![create_test_item(1, "Привет мир"), create_test_item(2, "Тестовый элемент")];

    let result = service.search(&items, "Прив");
    assert_eq!(result.len(), 1);
    assert_eq!(result[0].id, ItemId(1));
}

#[test]
fn test_search_emoji() {
    let service = FuzzySearchService::new();
    let items = vec![create_test_item(1, "Hello 🌍"), create_test_item(2, "Test 🚀")];

    let result = service.search(&items, "🌍");
    assert_eq!(result.len(), 1);
    assert_eq!(result[0].id, ItemId(1));
}

#[test]
fn test_search_image_item() {
    let service = FuzzySearchService::new();
    let items = vec![create_image_item(1), create_test_item(2, "Test Item")];

    let result = service.search(&items, "Изображение");
    assert_eq!(result.len(), 1);
    assert_eq!(result[0].id, ItemId(1));
}

#[test]
fn test_search_category_url() {
    let service = FuzzySearchService::new();
    let items = vec![
        create_item(1, "https://example.com", Some(Category::Url)),
        create_item(2, "user@example.com", Some(Category::Email)),
    ];

    let result = service.search(&items, "@url");
    assert_eq!(result.len(), 1);
    assert_eq!(result[0].id, ItemId(1));
}

#[test]
fn test_search_category_email() {
    let service = FuzzySearchService::new();
    let items = vec![
        create_item(1, "https://example.com", Some(Category::Url)),
        create_item(2, "user@example.com", Some(Category::Email)),
    ];

    let result = service.search(&items, "@email");
    assert_eq!(result.len(), 1);
    assert_eq!(result[0].id, ItemId(2));
}

#[test]
fn test_search_category_with_text() {
    let service = FuzzySearchService::new();
    let items = vec![
        create_item(1, "https://github.com", Some(Category::Url)),
        create_item(2, "https://example.com", Some(Category::Url)),
    ];

    let result = service.search(&items, "@url github");
    assert_eq!(result.len(), 1);
    assert_eq!(result[0].id, ItemId(1));
}

#[test]
fn test_search_case_insensitive() {
    let service = FuzzySearchService::new();
    let items = vec![create_test_item(1, "Hello World"), create_test_item(2, "HELLO THERE")];

    let result = service.search(&items, "hello");
    assert!(result.len() >= 1);
}

#[test]
fn search_with_an_unknown_tag_filters_nothing_by_category() {
    let service = FuzzySearchService::new();
    let items = vec![
        create_item(1, "https://example.com", Some(Category::Url)),
        create_item(2, "plain", None),
    ];
    // "@nothing" names no category; with no text after it every item passes
    assert_eq!(service.search(&items, "@nothing").len(), 2);
    // the tag is read whatever its case
    assert_eq!(ids(&service.search(&items, "@URL")), vec![1]);
}

#[test]
fn query_parts() {
    assert_eq!(split_query("@url github  "), ("@url".to_string(), "github".to_string()));
    assert_eq!(split_query("@email"), ("@email".to_string(), String::new()));
    assert_eq!(split_query(""), (String::new(), String::new()));
    assert_eq!(tag_category_exec("@Picture"), Some(Category::Picture));
    assert_eq!(tag_category_exec("@other"), Some(Category::Other));
    assert_eq!(tag_category_exec("@account"), Some(Category::Account));
    assert_eq!(tag_category_exec("@urls"), None);
    assert_eq!(parse_query_filter("@url  x y"), (Some(Category::Url), "x y".to_string()));
    assert_eq!(parse_query_filter("plain @url"), (None, "plain @url".to_string()));
    assert_eq!(parse_query_filter("@bogus text"), (None, "text".to_string()));
}

// ---- popup ----

fn popup_repo(entries: &[(i64, &str, Option<Category>)]) -> MockRepo {
    let mut repo = MockRepo::new();
    for (id, text, cat) in entries {
        repo.add_item(*id, text, *cat);
    }
    repo
}

#[test]
fn test_popup_service_creation() {
    let service = PopupService::new(MockRepo::new(), 100);
    assert_eq!(service.max_items(), 100);
}

#[test]
fn test_get_display_items_empty() {
    let service = PopupService::new(MockRepo::new(), 100);

    let items = service.get_display_items(None).unwrap();
    assert_eq!(items.len(), 0);
}

#[test]
fn test_get_display_items() {
    let repo = popup_repo(&[(1, "item1", None), (2, "item2", None)]);
    let service = PopupService::new(repo, 100);
    let items = service.get_display_items(None).unwrap();
    assert_eq!(items.len(), 2);
}

#[test]
fn test_get_display_items_with_search() {
    let repo = popup_repo(&[(1, "hello world", None), (2, "goodbye", None)]);
    let service = PopupService::new(repo, 100);
    let items = service.get_display_items(Some("hello")).unwrap();
    assert_eq!(items.len(), 1);
    assert!(items[0].display_text().contains("hello"));
}

#[test]
fn test_get_item_at_index() {
    let repo = popup_repo(&[(1, "first", None), (2, "second", None)]);
    let service = PopupService::new(repo, 100);
    let item = service.get_item_at_index(0, None).unwrap();
    assert!(item.is_some());
}

#[test]
fn test_get_item_for_paste_text() {
    let repo = popup_repo(&[(1, "test text", None)]);
    let service = PopupService::new(repo, 100);
    let content = service.get_item_for_paste(ItemId(1)).unwrap();
    assert_eq!(content, Some("test text".to_string()));
}

#[test]
fn test_get_display_text() {
    let repo = popup_repo(&[(1, "short text", None)]);
    let service = PopupService::new(repo, 100);
    let text = service.get_display_text(ItemId(1), 10).unwrap();
    assert_eq!(text, Some("short text".to_string()));
}

#[test]
fn test_get_display_text_truncated() {
    let repo = popup_repo(&[(1, "this is a very long text that should be truncated", None)]);
    let service = PopupService::new(repo, 100);
    let text = service.get_display_text(ItemId(1), 10).unwrap();
    assert!(text.unwrap().ends_with("..."));
}

#[test]
fn test_get_category_badge() {
    let repo = popup_repo(&[(1, "https://example.com", Some(Category::Url))]);
    let service = PopupService::new(repo, 100);
    let badge = service.get_category_badge(ItemId(1)).unwrap();
    assert_eq!(badge, Some("🔗".to_string()));
}

#[test]
fn test_get_category_badge_none() {
    let repo = popup_repo(&[(1, "plain text", None)]);
    let service = PopupService::new(repo, 100);
    let badge = service.get_category_badge(ItemId(1)).unwrap();
    assert_eq!(badge, None);
}

#[test]
fn test_is_item_pinned() {
    let repo = popup_repo(&[(1, "test", None)]);
    let service = PopupService::new(repo, 100);
    let is_pinned = service.is_item_pinned(ItemId(1)).unwrap();
    assert!(!is_pinned);
}

#[test]
fn test_get_display_count() {
    let repo = popup_repo(&[(1, "item1", None), (2, "item2", None)]);
    let service = PopupService::new(repo, 100);
    let count = service.get_display_count(None).unwrap();
    assert_eq!(count, 2);
}

#[test]
fn test_get_items_by_category() {
    let repo = popup_repo(&[
        (1, "https://example.com", Some(Category::Url)),
        (2, "https://github.com", Some(Category::Url)),
        (3, "user@example.com", Some(Category::Email)),
        (4, "plain text", Some(Category::Other)),
    ]);
    let service = PopupService::new(repo, 100);
    let url_items = service.get_items_by_category(&Category::Url).unwrap();
    assert_eq!(url_items.len(), 2);

    let email_items = service.get_items_by_category(&Category::Email).unwrap();
    assert_eq!(email_items.len(), 1);
}

#[test]
fn popup_service_test_count_by_category() {
    let repo = popup_repo(&[
        (1, "https://example.com", Some(Category::Url)),
        (2, "https://github.com", Some(Category::Url)),
        (3, "user@example.com", Some(Category::Email)),
    ]);
    let service = PopupService::new(repo, 100);
    let url_count = service.count_by_category(&Category::Url).unwrap();
    assert_eq!(url_count, 2);

    let email_count = service.count_by_category(&Category::Email).unwrap();
    assert_eq!(email_count, 1);

    let account_count = service.count_by_category(&Category::Account).unwrap();
    assert_eq!(account_count, 0);
}

#[test]
fn test_max_items_limit() {
    let mut repo = MockRepo::new();
    for i in 1..=150 {
        repo.add_item(i, &format!("item{}", i), None);
    }

    let service = PopupService::new(repo, 50);
    let items = service.get_display_items(None).unwrap();
    assert!(items.len() <= 50);
}

#[test]
fn display_order_pinned_first_then_most_recent() {
    let mut repo = MockRepo::new();
    repo.add_item(1, "old", None);
    repo.add_item(2, "pinned late", None);
    repo.add_item(3, "new", None);
    repo.add_item(4, "pinned early", None);
    repo.items[0].last_used_at = Timestamp::new(10);
    repo.items[2].last_used_at = Timestamp::new(30);
    repo.items[1].is_pinned = true;
    repo.items[1].pin_order = 5;
    repo.items[3].is_pinned = true;
    repo.items[3].pin_order = 1;
    let service = PopupService::new(repo, 3);
    let shown: Vec<i64> = service.get_display_items(None).unwrap().iter().map(|i| i.id.0).collect();
    assert_eq!(shown, vec![4, 2, 3]);
    // every listed item carries a category
    assert!(service.get_display_items(None).unwrap().iter().all(|i| i.category.is_some()));
    let third = service.get_item_at_index(2, None).unwrap().unwrap();
    assert_eq!(third.id, ItemId(3));
    assert_eq!(service.get_item_at_index(3, None).unwrap(), None);
}

#[test]
fn recommended_items_most_recent_first() {
    let mut repo = MockRepo::new();
    repo.add_item(1, "a", None);
    repo.add_item(2, "b", None);
    repo.add_item(3, "c", None);
    repo.items[0].last_used_at = Timestamp::new(20);
    repo.items[1].last_used_at = Timestamp::new(30);
    repo.items[2].last_used_at = Timestamp::new(10);
    let service = PopupService::new(repo, 10);
    let rec: Vec<i64> = service.get_recommended_items(2).unwrap().iter().map(|i| i.id.0).collect();
    assert_eq!(rec, vec![2, 1]);
    assert_eq!(service.get_recommended_items(10).unwrap().len(), 3);
}

#[test]
fn popup_answers_for_missing_and_image_items() {
    let mut repo = MockRepo::new();
    repo.items.push(create_image_item(7));
    let service = PopupService::new(repo, 10);
    assert_eq!(service.get_item_for_paste(ItemId(7)).unwrap(), Some("[Image]".to_string()));
    assert_eq!(service.get_item_for_paste(ItemId(8)).unwrap(), None);
    assert_eq!(service.get_display_text(ItemId(8), 5).unwrap(), None);
    assert_eq!(service.get_category_badge(ItemId(7)).unwrap(), Some("🖼️".to_string()));
    assert!(!service.is_item_pinned(ItemId(8)).unwrap());
}

#[test]
fn display_text_cut_inside_a_character_is_refused() {
    let repo = popup_repo(&[(1, "жжж", None)]);
    let service = PopupService::new(repo, 10);
    assert!(matches!(service.get_display_text(ItemId(1), 3), Err(MaccyError::Validation(_))));
    assert_eq!(service.get_display_text(ItemId(1), 4).unwrap(), Some("жж...".to_string()));
}

#[test]
fn popup_reports_repository_errors() {
    let service = PopupService::new(MockRepo::failing(), 10);
    assert!(service.get_display_items(None).is_err());
    assert!(service.get_display_count(Some("x")).is_err());
    assert!(service.count_by_category(&Category::Url).is_err());
    assert!(service.get_item_for_paste(ItemId(1)).is_err());
}

#[test]
fn badges() {
    assert_eq!(badge(Category::Url), "🔗");
    assert_eq!(badge(Category::Email), "📧");
    assert_eq!(badge(Category::Account), "👤");
    assert_eq!(badge(Category::Picture), "🖼️");
    assert_eq!(badge(Category::Other), "📝");
}

// ---- presentation service ----

fn presentation_repo(texts: &[&str]) -> MockRepo {
    let mut repo = MockRepo::new();
    for (k, t) in texts.iter().enumerate() {
        repo.add_item(k as i64 + 1, t, None);
    }
    repo
}

#[test]
fn test_presentation_service_creation() {
    let service = PresentationService::new(MockRepo::new(), 100);

    assert_eq!(service.get_state().max_items, 100);
    assert_eq!(service.get_state().item_count(), 0);
}

#[test]
fn test_update_state() {
    let mut service = PresentationService::new(presentation_repo(&["test item"]), 100);
    service.update_state().unwrap();

    assert_eq!(service.get_state().item_count(), 1);
}

#[test]
fn test_set_search_query() {
    let mut service = PresentationService::new(presentation_repo(&["hello world", "goodbye world"]), 100);
    service.set_search_query("hello".to_string()).unwrap();

    assert_eq!(service.get_state().query, "hello");
    assert_eq!(service.get_state().item_count(), 1);
}

#[test]
fn presentation_service_test_move_selection() {
    let mut service = PresentationService::new(presentation_repo(&["item1", "item2"]), 100);
    service.update_state().unwrap();

    service.move_selection_down();
    assert_eq!(service.get_state().selected_index, 1);

    service.move_selection_up();
    assert_eq!(service.get_state().selected_index, 0);
}

#[test]
fn test_get_selected_for_paste() {
    let mut service = PresentationService::new(presentation_repo(&["paste me"]), 100);
    service.update_state().unwrap();

    let content = service.get_selected_for_paste().unwrap();
    assert_eq!(content, Some("paste me".to_string()));
}

#[test]
fn test_clear_search() {
    let mut service = PresentationService::new(presentation_repo(&["item1", "item2"]), 100);
    service.set_search_query("test".to_string()).unwrap();
    service.clear_search().unwrap();

    assert_eq!(service.get_state().query, "");
    assert_eq!(service.get_state().selected_index, 0);
}

#[test]
fn test_add_query_to_history() {
    let mut service = PresentationService::new(MockRepo::new(), 100);

    service.set_search_query("query1".to_string()).unwrap();
    service.add_query_to_history();

    let history = service.get_previous_query();
    assert_eq!(history, Some("query1".to_string()));
}

#[test]
fn presentation_service_test_get_stats() {
    let mut service = PresentationService::new(presentation_repo(&["item1"]), 100);
    service.update_state().unwrap();

    let stats = service.get_stats();
    assert_eq!(stats.total_items, 1);
    assert!(stats.has_selection);
}

#[test]
fn test_refresh() {
    let mut service = PresentationService::new(presentation_repo(&["item1"]), 100);
    service.refresh().unwrap();

    assert_eq!(service.get_state().item_count(), 1);
}

#[test]
fn presentation_paste_of_the_selected_item() {
    let mut repo = presentation_repo(&["first", "second"]);
    repo.items[0].last_used_at = Timestamp::new(100);
    repo.items[1].last_used_at = Timestamp::new(50);
    let mut service = PresentationService::new(repo, 10);
    service.update_state().unwrap();
    assert_eq!(service.get_state().items[0].display_text, "first");
    service.move_selection_down();
    assert_eq!(service.get_selected_for_paste().unwrap(), Some("second".to_string()));
    let stats = service.get_stats();
    assert_eq!(stats.selected_index, 1);
    assert_eq!(stats.query_length, 0);
    service.set_search_query("sec".to_string()).unwrap();
    assert_eq!(service.get_stats().query_length, 3);
    assert_eq!(service.get_state().selected_index, 0);
    assert_eq!(service.get_selected_for_paste().unwrap(), Some("second".to_string()));
}

#[test]
fn presentation_paste_with_nothing_listed() {
    let mut service = PresentationService::new(MockRepo::new(), 10);
    service.update_state().unwrap();
    assert_eq!(service.get_selected_for_paste().unwrap(), None);
    assert!(!service.get_stats().has_selection);
    // an empty query is not recorded
    service.add_query_to_history();
    assert_eq!(service.get_previous_query(), None);
}

#[test]
fn presentation_reports_repository_errors() {
    let mut service = PresentationService::new(MockRepo::failing(), 10);
    assert!(service.update_state().is_err());
    assert!(service.refresh().is_err());
}

#[test]
fn category_counts_add_up_to_the_items() {
    let items = vec![
        create_item(1, "a", Some(Category::Url)),
        create_item(2, "b", Some(Category::Url)),
        create_item(3, "c", Some(Category::Email)),
        create_item(4, "d", Some(Category::Account)),
        create_item(5, "e", Some(Category::Picture)),
        create_item(6, "f", Some(Category::Other)),
        create_item(7, "g", None),
        create_item(8, "h", None),
    ];
    let all = [Category::Url, Category::Email, Category::Account, Category::Picture, Category::Other];
    let mut total = CategoryFilterService::filter_without_category(&items).len();
    for c in all.iter() {
        let n = CategoryFilterService::count_by_category(&items, c);
        assert_eq!(n, CategoryFilterService::filter_by_category(&items, c).len());
        total += n;
    }
    assert_eq!(total, items.len());
    assert_eq!(CategoryFilterService::count_by_category(&items, &Category::Url), 2);
}
