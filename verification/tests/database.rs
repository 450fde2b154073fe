use maccy_kde::database::{Category, ClipboardItem as LegacyClipboardItem, DataType, Database, MAX_HISTORY_ITEMS};
use maccy_kde::domain::entities::{
    Category as DomainCategory, ClipboardItem, Content, ItemId, MimeType, Timestamp,
};
use maccy_kde::domain::repositories::ClipboardRepository;
use maccy_kde::infrastructure::sqlite_repository::SqliteClipboardRepository;
use maccy_kde::integration::{DatabaseAdapter, RepositoryBridge};
use maccy_kde::shared::MaccyError;

/// Waits until the millisecond clock has moved on.
fn wait_a_moment() {
    let start = std::time::Instant::now();
    while start.elapsed() < std::time::Duration::from_millis(2) {}
}

fn text_row(id: i64, text: &str, pinned: bool, last_used: i64) -> LegacyClipboardItem {
    LegacyClipboardItem {
        id,
        value_text: Some(text.to_string()),
        image_path: None,
        data_type: DataType::Text,
        raw_mime_type: "text/plain".to_string(),
        category: Some(Category::Other),
        is_pinned: pinned,
        pin_order: 0,
        last_used_at: last_used,
    }
}

fn domain_text(id: i64, text: &str) -> ClipboardItem {
    ClipboardItem {
        id: ItemId::new(id),
        content: Content::Text(text.to_string()),
        mime_type: MimeType::new("text/plain".to_string()),
        category: Some(DomainCategory::Other),
        is_pinned: false,
        pin_order: 0,
        last_used_at: Timestamp::now(),
    }
}

#[test]
fn test_add_and_get_history() {
    let mut db = Database::in_memory().unwrap();
    db.add_text_item("Hello").unwrap();
    wait_a_moment();
    db.add_text_item("World").unwrap();

    let history = db.get_history().unwrap();
    assert_eq!(history.len(), 2);
    assert_eq!(history[0].value_text, Some("World".to_string()));
    assert_eq!(history[1].value_text, Some("Hello".to_string()));
}

#[test]
fn database_test_toggle_pin() {
    let mut db = Database::in_memory().unwrap();
    db.add_text_item("To be pinned").unwrap();
    db.add_text_item("Normal").unwrap();

    let history = db.get_history().unwrap();
    let pin_id = history.iter().find(|i| i.value_text == Some("To be pinned".to_string())).unwrap().id;

    db.toggle_pin(pin_id).unwrap();

    let new_history = db.get_history().unwrap();
    assert_eq!(new_history[0].value_text, Some("To be pinned".to_string()));
    assert!(new_history[0].is_pinned);
}

#[test]
fn test_empty_string() {
    let mut db = Database::in_memory().unwrap();
    db.add_text_item("").unwrap();

    let history = db.get_history().unwrap();
    assert_eq!(history.len(), 1);
    assert_eq!(history[0].value_text, Some("".to_string()));
}

#[test]
fn test_category_detection_url() {
    assert_eq!(Database::detect_category("https://example.com"), Some(Category::Url));
    assert_eq!(Database::detect_category("http://test.org"), Some(Category::Url));
    assert_eq!(Database::detect_category("www.example.com"), Some(Category::Url));
    assert_eq!(Database::detect_category("example.com/path"), Some(Category::Url));
}

#[test]
fn test_category_detection_email() {
    assert_eq!(Database::detect_category("test@example.com"), Some(Category::Email));
    assert_eq!(Database::detect_category("user.name@domain.org"), Some(Category::Email));
    assert_eq!(Database::detect_category("not-an-email"), Some(Category::Other));
}

#[test]
fn test_category_detection_account() {
    assert_eq!(Database::detect_category("@username"), Some(Category::Account));
    assert_eq!(Database::detect_category("john_doe"), Some(Category::Account));
    assert_eq!(Database::detect_category("user123"), Some(Category::Account));
    assert_eq!(Database::detect_category("not a username"), Some(Category::Other));
    assert_eq!(Database::detect_category("user@example.com"), Some(Category::Email));
}

#[test]
fn test_category_classification_in_db() {
    let mut db = Database::in_memory().unwrap();

    db.add_text_item("https://github.com").unwrap();
    db.add_text_item("user@example.com").unwrap();
    db.add_text_item("@myusername").unwrap();
    db.add_text_item("regular text").unwrap();

    let history = db.get_history().unwrap();

    let url_item = history.iter().find(|i| i.value_text == Some("https://github.com".to_string())).unwrap();
    assert_eq!(url_item.category, Some(Category::Url));

    let email_item = history.iter().find(|i| i.value_text == Some("user@example.com".to_string())).unwrap();
    assert_eq!(email_item.category, Some(Category::Email));

    let account_item = history.iter().find(|i| i.value_text == Some("@myusername".to_string())).unwrap();
    assert_eq!(account_item.category, Some(Category::Account));

    let other_item = history.iter().find(|i| i.value_text == Some("regular text".to_string())).unwrap();
    assert_eq!(other_item.category, Some(Category::Other));
}

#[test]
fn test_whitespace_only_string() {
    let mut db = Database::in_memory().unwrap();
    db.add_text_item("   ").unwrap();

    let history = db.get_history().unwrap();
    assert_eq!(history.len(), 1);
    assert_eq!(history[0].value_text, Some("   ".to_string()));
}

#[test]
fn test_very_long_string() {
    let mut db = Database::in_memory().unwrap();
    let long_text = "A".repeat(100000);
    db.add_text_item(&long_text).unwrap();

    let history = db.get_history().unwrap();
    assert_eq!(history.len(), 1);
    assert_eq!(history[0].value_text, Some(long_text));
}

#[test]
fn test_special_characters() {
    let mut db = Database::in_memory().unwrap();
    let special_text = "Test with émojis 🎉 and spëcial çhars\n\tand \"quotes\"";
    db.add_text_item(special_text).unwrap();

    let history = db.get_history().unwrap();
    assert_eq!(history.len(), 1);
    assert_eq!(history[0].value_text, Some(special_text.to_string()));
}

#[test]
fn test_cyrillic_text() {
    let mut db = Database::in_memory().unwrap();
    let cyrillic_text = "Привет мир! Тест кириллицы";
    db.add_text_item(cyrillic_text).unwrap();

    let history = db.get_history().unwrap();
    assert_eq!(history.len(), 1);
    assert_eq!(history[0].value_text, Some(cyrillic_text.to_string()));
}

#[test]
fn test_duplicate_items() {
    let mut db = Database::in_memory().unwrap();
    db.add_text_item("Duplicate").unwrap();
    wait_a_moment();
    db.add_text_item("Duplicate").unwrap();

    let history = db.get_history().unwrap();
    assert_eq!(history.len(), 1);
    assert_eq!(history[0].value_text, Some("Duplicate".to_string()));
}

#[test]
fn test_delete_nonexistent_item() {
    let mut db = Database::in_memory().unwrap();
    let result = db.delete_item(999999);
    assert!(result.is_ok());
}

#[test]
fn test_toggle_pin_nonexistent_item() {
    let mut db = Database::in_memory().unwrap();
    let result = db.toggle_pin(999999);
    assert!(result.is_err());
}

#[test]
fn test_rotation() {
    let mut db = Database::in_memory().unwrap();
    for i in 0..205 {
        db.add_text_item(&format!("Item {}", i)).unwrap();
        wait_a_moment();
    }

    let history = db.get_history().unwrap();
    assert_eq!(history.len(), 200);
    assert_eq!(history[0].value_text, Some("Item 204".to_string()));
}

#[test]
fn test_add_image() {
    let mut db = Database::in_memory().unwrap();
    db.add_image_item("/cache/picture.png".to_string(), "image/png").unwrap();
    let history = db.get_history().unwrap();
    assert_eq!(history.len(), 1);
    assert!(matches!(history[0].data_type, DataType::Image));
    assert_eq!(history[0].category, Some(Category::Picture));
    assert_eq!(history[0].image_path, Some("/cache/picture.png".to_string()));
    assert_eq!(history[0].raw_mime_type, "image/png");
    assert_eq!(history[0].value_text, None);
}

#[test]
fn rotation_counts_pinned_rows_and_returns_dropped_images() {
    let mut db = Database::in_memory().unwrap();
    db.add_image_item("/cache/old.png".to_string(), "image/png").unwrap();
    wait_a_moment();
    db.add_text_item("pinned").unwrap();
    let pinned_id = db.get_history().unwrap()[0].id;
    db.toggle_pin(pinned_id).unwrap();
    let mut removed: Vec<String> = Vec::new();
    for i in 0..MAX_HISTORY_ITEMS {
        wait_a_moment();
        removed.extend(db.add_text_item(&format!("t{}", i)).unwrap());
    }
    assert_eq!(removed, vec!["/cache/old.png".to_string()]);
    let history = db.get_history().unwrap();
    assert_eq!(history.len(), 200);
    assert_eq!(history[0].id, pinned_id);
    assert!(history[0].is_pinned);
    // the pinned row counts toward the 200: the 199 latest texts stay
    assert_eq!(db.rows().len(), 200);
    assert!(history.iter().all(|r| r.value_text != Some("t0".to_string())));
    assert!(history.iter().any(|r| r.value_text == Some("t1".to_string())));
}

#[test]
fn identifiers_count_up() {
    let mut db = Database::in_memory().unwrap();
    assert_eq!(db.last_id(), 0);
    db.add_text_item("a").unwrap();
    db.add_text_item("b").unwrap();
    db.add_text_item("a").unwrap();
    assert_eq!(db.last_id(), 2);
    let ids: Vec<i64> = db.rows().iter().map(|r| r.id).collect();
    assert_eq!(ids, vec![1, 2]);
    assert_eq!(db.delete_item(1).unwrap(), None);
    db.add_text_item("c").unwrap();
    assert_eq!(db.last_id(), 3);
}

#[test]
fn deleting_an_image_row_gives_its_file() {
    let mut db = Database::in_memory().unwrap();
    db.add_image_item("/c/x.png".to_string(), "image/png").unwrap();
    assert_eq!(db.delete_item(1).unwrap(), Some("/c/x.png".to_string()));
    assert!(db.get_history().unwrap().is_empty());
}

#[test]
fn toggling_twice_restores_the_row() {
    let mut db = Database::in_memory().unwrap();
    db.add_text_item("x").unwrap();
    let before = db.rows().clone();
    db.toggle_pin(1).unwrap();
    assert!(db.rows()[0].is_pinned);
    db.toggle_pin(1).unwrap();
    assert_eq!(db.rows(), &before);
}

#[test]
fn toggle_of_a_missing_row_names_the_error() {
    let mut db = Database::in_memory().unwrap();
    match db.toggle_pin(5) {
        Err(MaccyError::Database(m)) => assert_eq!(m, "Query returned no rows"),
        _ => panic!("expected a database error"),
    }
}

#[test]
fn a_full_store_refuses_new_rows() {
    let mut db = Database::from_rows(vec![text_row(i64::MAX, "last", false, 5)], i64::MAX).unwrap();
    match db.add_text_item("new") {
        Err(MaccyError::Database(m)) => assert_eq!(m, "database or disk is full"),
        _ => panic!("expected a full store"),
    }
    assert!(db.add_image_item("/p.png".to_string(), "image/png").is_err());
    // a text already held is only marked used
    assert!(db.add_text_item("last").is_ok());
    assert_eq!(db.rows().len(), 1);
    assert!(db.rows()[0].last_used_at > 5);
}

#[test]
fn from_rows_checks_the_invariant() {
    assert!(Database::from_rows(vec![text_row(1, "a", false, 1), text_row(2, "b", false, 2)], 2).is_some());
    // identifiers out of order
    assert!(Database::from_rows(vec![text_row(2, "a", false, 1), text_row(1, "b", false, 2)], 2).is_none());
    // an identifier above the last one handed out
    assert!(Database::from_rows(vec![text_row(3, "a", false, 1)], 2).is_none());
    // the same text twice
    assert!(Database::from_rows(vec![text_row(1, "a", false, 1), text_row(2, "a", false, 2)], 2).is_none());
    assert!(Database::from_rows(Vec::new(), -1).is_none());
}

#[test]
fn history_order() {
    let rows = vec![
        text_row(1, "old", false, 10),
        text_row(2, "new", false, 30),
        LegacyClipboardItem { pin_order: 2, ..text_row(3, "pin b", true, 5) },
        LegacyClipboardItem { pin_order: 1, ..text_row(4, "pin a", true, 1) },
        text_row(5, "mid", false, 20),
    ];
    let db = Database::from_rows(rows, 5).unwrap();
    let ids: Vec<i64> = db.get_history().unwrap().iter().map(|r| r.id).collect();
    assert_eq!(ids, vec![4, 3, 2, 5, 1]);
}

#[test]
fn legacy_category_names() {
    assert_eq!(Category::Url.to_string(), "Url");
    assert_eq!(Category::Picture.to_string(), "Picture");
    assert_eq!(Category::from_domain(DomainCategory::Email), Category::Email);
}

// ---- adapters ----

#[test]
fn test_adapter_creation() {
    let adapter = DatabaseAdapter::new(Database::in_memory().unwrap());
    assert!(adapter.is_ok());
}

#[test]
fn test_legacy_to_domain_conversion() {
    let legacy = LegacyClipboardItem {
        id: 1,
        value_text: Some("test".to_string()),
        image_path: None,
        data_type: DataType::Text,
        raw_mime_type: "text/plain".to_string(),
        category: None,
        is_pinned: false,
        pin_order: 0,
        last_used_at: 0,
    };

    let domain = ClipboardItem::from_legacy(&legacy);
    assert_eq!(domain.id.value(), 1);
}

#[test]
fn test_domain_to_legacy_conversion() {
    let domain = ClipboardItem::new(ItemId(1), Content::Text("test".to_string()), MimeType::text_plain(), None);

    let legacy = LegacyClipboardItem::from_domain(&domain);
    assert_eq!(legacy.id, 1);
}

#[test]
fn conversions_in_detail() {
    let legacy = LegacyClipboardItem {
        id: 4,
        value_text: None,
        image_path: Some("/i.png".to_string()),
        data_type: DataType::Image,
        raw_mime_type: "image/jpeg".to_string(),
        category: Some(Category::Picture),
        is_pinned: true,
        pin_order: 3,
        last_used_at: 77,
    };
    let d = ClipboardItem::from_legacy(&legacy);
    assert_eq!(d.content, Content::Image("/i.png".to_string()));
    assert_eq!(d.mime_type.value(), "image/png");
    assert_eq!(d.category, Some(DomainCategory::Picture));
    // the conversion makes a fresh item: unpinned, used now
    assert!(!d.is_pinned);
    assert_eq!(d.pin_order, 0);
    assert!(d.last_used_at.value() > 77);
    let text_without_value = LegacyClipboardItem { value_text: None, ..text_row(2, "x", false, 1) };
    assert_eq!(ClipboardItem::from_legacy(&text_without_value).content, Content::Text(String::new()));

    let mut item = ClipboardItem::text("https://e.org".to_string(), ItemId(9));
    item.pin(4);
    let back = LegacyClipboardItem::from_domain(&item);
    assert_eq!(back.value_text, Some("https://e.org".to_string()));
    assert_eq!(back.image_path, None);
    assert_eq!(back.data_type, DataType::Text);
    assert_eq!(back.category, Some(Category::Url));
    assert!(back.is_pinned);
    assert_eq!(back.pin_order, 4);
    assert_eq!(back.last_used_at, item.last_used_at.value());
}

#[test]
fn adapter_workflow() {
    let mut adapter = DatabaseAdapter::new(Database::in_memory().unwrap()).unwrap();
    assert_eq!(adapter.add_text_item("one").unwrap(), 0);
    wait_a_moment();
    assert_eq!(adapter.add_text_item("two").unwrap(), 0);
    let h = adapter.get_history().unwrap();
    assert_eq!(h.len(), 2);
    assert_eq!(h[0].value_text, Some("two".to_string()));
    adapter.toggle_pin(1).unwrap();
    assert_eq!(adapter.get_history().unwrap()[0].id, 1);
    assert!(adapter.toggle_pin(7).is_err());
    adapter.delete_item(2).unwrap();
    assert_eq!(adapter.get_history().unwrap().len(), 1);
    adapter.rotate_history(0).unwrap();
    assert_eq!(adapter.get_history().unwrap().len(), 1);
    adapter.set_use_new_architecture(true);
    assert!(adapter.take_removed_images().is_empty());
}

#[test]
fn test_bridge_creation() {
    let bridge = RepositoryBridge::new(Database::in_memory().unwrap());
    let count = bridge.count().unwrap();
    assert_eq!(count, 0);
}

#[test]
fn test_repository_bridge_integration() {
    let db = Database::in_memory().expect("Failed to create in-memory database");
    let mut bridge = RepositoryBridge::new(db);

    let test_text = "Test clipboard content";
    let item = domain_text(1, test_text);

    let result = bridge.save(&item);
    assert!(result.is_ok(), "Failed to save item through RepositoryBridge");

    let all_items = bridge.find_all().expect("Failed to get all items");
    assert!(!all_items.is_empty(), "No items found in database");

    let saved_item = all_items.iter().find(|i| match &i.content {
        Content::Text(text) => text == test_text,
        _ => false,
    });
    assert!(saved_item.is_some(), "Saved item not found by content");
}

#[test]
fn test_repository_bridge_text_workflow() {
    let db = Database::in_memory().expect("Failed to create in-memory database");
    let mut bridge = RepositoryBridge::new(db);

    let workflow_texts = vec!["First clipboard item", "Second clipboard item", "Third clipboard item"];

    for (i, text) in workflow_texts.iter().enumerate() {
        let mut item = domain_text(i as i64 + 1, text);
        item.pin_order = i as i64;
        assert!(bridge.save(&item).is_ok());
    }

    let all_items = bridge.find_all().expect("Failed to retrieve all items");
    assert_eq!(all_items.len(), 3);

    for text in &workflow_texts {
        let found = all_items.iter().any(|i| match &i.content {
            Content::Text(t) => t == text,
            _ => false,
        });
        assert!(found, "Text '{}' not found in retrieved items", text);
    }
}

#[test]
fn bridge_operations() {
    let mut bridge = RepositoryBridge::new(Database::in_memory().unwrap());
    bridge.save(&domain_text(0, "a")).unwrap();
    wait_a_moment();
    bridge.save(&domain_text(0, "b")).unwrap();
    wait_a_moment();
    bridge.save(&domain_text(0, "c")).unwrap();
    assert_eq!(bridge.count().unwrap(), 3);
    let a = bridge.find_by_content("a").unwrap().unwrap();
    assert_eq!(a.id, ItemId(1));
    assert_eq!(bridge.find_by_content("zzz").unwrap(), None);
    assert_eq!(bridge.find_by_id(ItemId(2)).unwrap().unwrap().content, Content::Text("b".to_string()));
    assert_eq!(bridge.find_by_id(ItemId(9)).unwrap(), None);
    // items read back from the store are stamped when read, so the recent
    // list's order follows the clock; its length does not
    assert_eq!(bridge.find_recent(2).unwrap().len(), 2);
    assert_eq!(bridge.find_recent(9).unwrap().len(), 3);
    let listed: Vec<i64> = bridge.find_all().unwrap().iter().map(|i| i.id.0).collect();
    assert_eq!(listed, vec![3, 2, 1]);
    bridge.update_pin(ItemId(1), true, 0).unwrap();
    assert_eq!(bridge.find_pinned().unwrap().len(), 1);
    // items read back from the store come unpinned, so asking again flips the pin back
    bridge.update_pin(ItemId(1), true, 0).unwrap();
    assert!(bridge.find_pinned().unwrap().is_empty());
    bridge.toggle_pin(ItemId(1)).unwrap();
    assert_eq!(bridge.find_pinned().unwrap().len(), 1);
    bridge.toggle_pin(ItemId(1)).unwrap();
    assert!(bridge.find_pinned().unwrap().is_empty());
    assert!(bridge.toggle_pin(ItemId(42)).is_err());
    wait_a_moment();
    bridge.update_last_used(ItemId(1)).unwrap();
    assert_eq!(bridge.find_all().unwrap()[0].id, ItemId(1));
    // items read back from the store are stamped in history order, so the
    // first one listed counts as the oldest
    bridge.rotate_history(2).unwrap();
    let left: Vec<i64> = bridge.find_all().unwrap().iter().map(|i| i.id.0).collect();
    assert_eq!(left, vec![3, 2]);
    bridge.delete(ItemId(3)).unwrap();
    assert_eq!(bridge.count().unwrap(), 1);
    assert!(bridge.find_by_id(ItemId(1)).unwrap().is_none());
    assert_eq!(bridge.database().rows().len(), 1);
    assert!(bridge.take_removed_images().is_empty());
}

#[test]
fn bridge_keeps_removed_image_files() {
    let mut db = Database::in_memory().unwrap();
    db.add_image_item("/c/a.png".to_string(), "image/png").unwrap();
    let mut bridge = RepositoryBridge::new(db);
    bridge.delete(ItemId(1)).unwrap();
    assert_eq!(bridge.take_removed_images(), vec!["/c/a.png".to_string()]);
    assert!(bridge.take_removed_images().is_empty());
}

#[test]
fn rotation_with_200_pinned_rows_keeps_no_unpinned_row() {
    let rows: Vec<LegacyClipboardItem> = (1..=200).map(|i| text_row(i, &format!("p{}", i), true, i)).collect();
    let mut db = Database::from_rows(rows, 200).unwrap();
    db.add_text_item("fresh").unwrap();
    assert_eq!(db.rows().len(), 200);
    assert!(db.rows().iter().all(|r| r.is_pinned));
}

#[test]
fn sqlite_repository_keeps_nothing_yet() {
    let conn = rusqlite::Connection::open_in_memory().unwrap();
    let mut repo = SqliteClipboardRepository::new(std::sync::Arc::new(std::sync::Mutex::new(conn)));
    assert!(repo.save(&domain_text(1, "x")).is_ok());
    assert_eq!(repo.count().unwrap(), 0);
    assert!(repo.find_all().unwrap().is_empty());
    assert!(repo.find_recent(5).unwrap().is_empty());
    assert!(repo.find_pinned().unwrap().is_empty());
    assert_eq!(repo.find_by_id(ItemId(1)).unwrap(), None);
    assert_eq!(repo.find_by_content("x").unwrap(), None);
    assert!(repo.toggle_pin(ItemId(1)).is_ok());
    assert!(repo.update_pin(ItemId(1), true, 2).is_ok());
    assert!(repo.update_last_used(ItemId(1)).is_ok());
    assert!(repo.rotate_history(1).is_ok());
    assert!(repo.delete(ItemId(1)).is_ok());
}
