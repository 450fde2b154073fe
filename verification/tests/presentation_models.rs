use maccy_kde::domain::entities::{Category, ClipboardItem, Content, ItemId, MimeType};
use maccy_kde::presentation::item_view_model::{format_timestamp_at, ItemViewModel};
use maccy_kde::presentation::popup_state::PopupState;

fn create_test_item(id: i64, text: &str, category: Option<Category>) -> ClipboardItem {
    ClipboardItem::new(ItemId(id), Content::Text(text.to_string()), MimeType::text_plain(), category)
}

fn create_mock_view_model(id: i64, text: &str) -> ItemViewModel {
    let item = ClipboardItem::new(ItemId(id), Content::Text(text.to_string()), MimeType::text_plain(), None);
    ItemViewModel::from_domain(&item)
}

#[test]
fn test_from_domain_text_item() {
    let item = create_test_item(1, "test text", None);
    let view_model = ItemViewModel::from_domain(&item);

    assert_eq!(view_model.id, "1");
    assert!(view_model.display_text.contains("test text"));
    assert!(!view_model.is_pinned);
}

#[test]
fn test_from_domain_url_item() {
    let item = create_test_item(1, "https://example.com", Some(Category::Url));
    let view_model = ItemViewModel::from_domain(&item);

    assert_eq!(view_model.category_badge, Some("🔗".to_string()));
}

#[test]
fn test_from_domain_email_item() {
    let item = create_test_item(1, "user@example.com", Some(Category::Email));
    let view_model = ItemViewModel::from_domain(&item);

    assert_eq!(view_model.category_badge, Some("📧".to_string()));
}

#[test]
fn test_truncate_text_short() {
    let item = create_test_item(1, "short", None);
    let view_model = ItemViewModel::from_domain(&item);

    assert_eq!(view_model.display_text, "short");
}

#[test]
fn test_truncate_text_long() {
    let long_text = "a".repeat(200);
    let item = create_test_item(1, &long_text, None);
    let view_model = ItemViewModel::from_domain(&item);

    assert!(view_model.display_text.len() <= 103);
    assert!(view_model.display_text.ends_with("..."));
}

#[test]
fn test_get_styled_text_with_badge() {
    let item = create_test_item(1, "https://example.com", Some(Category::Url));
    let view_model = ItemViewModel::from_domain(&item);
    let styled = view_model.get_styled_text();

    assert!(styled.contains("🔗"));
}

#[test]
fn test_get_styled_text_without_badge() {
    let item = create_test_item(1, "plain text", None);
    let view_model = ItemViewModel::from_domain(&item);
    let styled = view_model.get_styled_text();

    assert_eq!(styled, "plain text");
}

#[test]
fn test_get_icon_text() {
    let item = create_test_item(1, "text", None);
    let view_model = ItemViewModel::from_domain(&item);

    assert_eq!(view_model.get_icon(), "text");
}

#[test]
fn test_is_text() {
    let item = create_test_item(1, "text", None);
    let view_model = ItemViewModel::from_domain(&item);

    assert!(view_model.is_text());
    assert!(!view_model.is_image());
}

#[test]
fn test_equality() {
    let item1 = create_test_item(1, "same", None);
    let item2 = create_test_item(1, "same", None);

    let vm1 = ItemViewModel::from_domain(&item1);
    let vm2 = ItemViewModel::from_domain(&item2);

    assert_eq!(vm1, vm2);
}

#[test]
fn item_view_model_test_clone() {
    let item = create_test_item(1, "test", None);
    let view_model = ItemViewModel::from_domain(&item);
    let cloned = view_model.clone();

    assert_eq!(view_model, cloned);
}

#[test]
fn styled_text_exact() {
    let item = create_test_item(3, "https://example.com", Some(Category::Url));
    let view_model = ItemViewModel::from_domain(&item);
    assert_eq!(view_model.get_styled_text(), "🔗 https://example.com");
}

#[test]
fn view_model_of_an_image_and_of_a_pinned_item() {
    let mut item = ClipboardItem::image("/a/b.png".to_string(), MimeType::image_png(), ItemId(9));
    item.pin(2);
    let vm = ItemViewModel::from_domain(&item);
    assert_eq!(vm.id, "9");
    assert_eq!(vm.display_text, "📷 Изображение");
    assert_eq!(vm.category_badge, Some("🖼️".to_string()));
    assert!(vm.is_pinned);
    assert_eq!(vm.pin_order, 2);
    assert_eq!(vm.mime_type, "image/png");
    assert_eq!(vm.get_icon(), "image");
    assert!(vm.is_image());
    assert!(!vm.is_text());
}

#[test]
fn icon_of_another_type_is_file() {
    let item = ClipboardItem::new(
        ItemId(1),
        Content::Text("x".to_string()),
        MimeType::new("application/octet-stream".to_string()),
        None,
    );
    let vm = ItemViewModel::from_domain(&item);
    assert_eq!(vm.get_icon(), "file");
    assert!(!vm.is_text());
}

#[test]
fn truncate_text_exact() {
    assert_eq!(ItemViewModel::truncate_text("hello world", 5), "hello...");
    assert_eq!(ItemViewModel::truncate_text("hello", 5), "hello");
    assert_eq!(ItemViewModel::truncate_text("", 0), "");
    // "ж" takes two bytes: a cut after it is fine
    assert_eq!(ItemViewModel::truncate_text("жжж", 2), "ж...");
}

#[test]
fn timestamps_at_a_given_now() {
    let t: i64 = 1_700_000_000;
    assert_eq!(format_timestamp_at(t, t + 5, 0), "5s ago");
    assert_eq!(format_timestamp_at(t, t + 59, 999), "59s ago");
    assert_eq!(format_timestamp_at(t, t + 60, 0), "1m ago");
    assert_eq!(format_timestamp_at(t, t + 3599, 0), "59m ago");
    assert_eq!(format_timestamp_at(t, t + 3600, 0), "1h ago");
    assert_eq!(format_timestamp_at(t, t + 86399, 0), "23h ago");
    assert_eq!(format_timestamp_at(t, t + 86400, 0), "2023-11-14");
    assert_eq!(format_timestamp_at(t, t - 10, 0), "-10s ago");
    assert_eq!(format_timestamp_at(t, t - 10, 5), "-9s ago");
    assert_eq!(format_timestamp_at(i64::MAX, 0, 0), "Unknown");
}

#[test]
fn test_popup_state_creation() {
    let state = PopupState::new(50, 5);
    assert_eq!(state.max_items, 50);
    assert_eq!(state.max_history, 5);
    assert_eq!(state.selected_index, 0);
    assert!(state.items.is_empty());
}

#[test]
fn test_set_query() {
    let mut state = PopupState::default();
    state.set_query("test".to_string());
    assert_eq!(state.query, "test");
    assert_eq!(state.selected_index, 0);
}

#[test]
fn test_set_items() {
    let mut state = PopupState::default();
    let items = vec![create_mock_view_model(1, "item1"), create_mock_view_model(2, "item2")];
    state.set_items(items);

    assert_eq!(state.item_count(), 2);
    assert_eq!(state.selected_index, 0);
}

#[test]
fn test_move_selection_down() {
    let mut state = PopupState::default();
    let items = vec![create_mock_view_model(1, "item1"), create_mock_view_model(2, "item2")];
    state.set_items(items);

    state.move_selection_down();
    assert_eq!(state.selected_index, 1);

    state.move_selection_down();
    assert_eq!(state.selected_index, 1);
}

#[test]
fn test_move_selection_up() {
    let mut state = PopupState::default();
    let items = vec![create_mock_view_model(1, "item1"), create_mock_view_model(2, "item2")];
    state.set_items(items);
    state.set_selected_index(1);

    state.move_selection_up();
    assert_eq!(state.selected_index, 0);

    state.move_selection_up();
    assert_eq!(state.selected_index, 0);
}

#[test]
fn test_get_selected_item() {
    let mut state = PopupState::default();
    let items = vec![create_mock_view_model(1, "item1"), create_mock_view_model(2, "item2")];
    state.set_items(items);

    let selected = state.get_selected_item();
    assert!(selected.is_some());
    assert_eq!(selected.unwrap().id, "1");
}

#[test]
fn test_get_selected_item_none() {
    let state = PopupState::default();
    let selected = state.get_selected_item();
    assert!(selected.is_none());
}

#[test]
fn test_has_selection() {
    let mut state = PopupState::default();
    assert!(!state.has_selection());

    let items = vec![create_mock_view_model(1, "item1")];
    state.set_items(items);
    assert!(state.has_selection());
}

#[test]
fn test_add_to_history() {
    let mut state = PopupState::default();
    state.add_to_history("query1".to_string());
    state.add_to_history("query2".to_string());

    assert_eq!(state.query_history.len(), 2);
    assert_eq!(state.get_previous_query(), Some(&"query2".to_string()));
}

#[test]
fn test_add_duplicate_to_history() {
    let mut state = PopupState::default();
    state.add_to_history("query".to_string());
    state.add_to_history("query".to_string());

    assert_eq!(state.query_history.len(), 1);
}

#[test]
fn test_history_max_size() {
    let mut state = PopupState::default();
    state.max_history = 3;

    for i in 0..5 {
        state.add_to_history(format!("query{}", i));
    }

    assert_eq!(state.query_history.len(), 3);
}

#[test]
fn test_clear_query() {
    let mut state = PopupState::default();
    state.set_query("test".to_string());
    state.clear_query();

    assert_eq!(state.query, "");
    assert_eq!(state.selected_index, 0);
}

#[test]
fn test_is_empty() {
    let state = PopupState::default();
    assert!(state.is_empty());
}

#[test]
fn test_get_visible_items() {
    let mut state = PopupState::default();
    state.max_items = 2;

    let items = vec![
        create_mock_view_model(1, "item1"),
        create_mock_view_model(2, "item2"),
        create_mock_view_model(3, "item3"),
    ];
    state.set_items(items);

    let visible = state.get_visible_items();
    assert_eq!(visible.len(), 2);
}

#[test]
fn test_set_selected_index() {
    let mut state = PopupState::default();
    let items = vec![create_mock_view_model(1, "item1"), create_mock_view_model(2, "item2")];
    state.set_items(items);

    state.set_selected_index(1);
    assert_eq!(state.selected_index, 1);

    state.set_selected_index(5);
    assert_eq!(state.selected_index, 1);
}

#[test]
fn popup_state_test_clone() {
    let mut state = PopupState::default();
    state.set_query("test".to_string());
    let cloned = state.clone();

    assert_eq!(state.query, cloned.query);
}

#[test]
fn default_state_sizes() {
    let state = PopupState::default();
    assert_eq!(state.max_items, 100);
    assert_eq!(state.max_history, 10);
    assert!(state.query.is_empty());
    assert!(state.query_history.is_empty());
}

#[test]
fn history_order_and_trimming() {
    let mut state = PopupState::new(10, 3);
    state.add_to_history("a".to_string());
    state.add_to_history("b".to_string());
    state.add_to_history("c".to_string());
    state.add_to_history("a".to_string());
    let h: Vec<String> = state.query_history.iter().cloned().collect();
    assert_eq!(h, vec!["a".to_string(), "c".to_string(), "b".to_string()]);
    state.add_to_history("d".to_string());
    let h: Vec<String> = state.query_history.iter().cloned().collect();
    assert_eq!(h, vec!["d".to_string(), "a".to_string(), "c".to_string()]);
    // the empty query is never recorded
    state.add_to_history(String::new());
    assert_eq!(state.query_history.len(), 3);
}

#[test]
fn history_of_size_zero_keeps_nothing() {
    let mut state = PopupState::new(10, 0);
    state.add_to_history("q".to_string());
    assert!(state.query_history.is_empty());
    assert_eq!(state.get_previous_query(), None);
}

#[test]
fn set_items_clamps_the_selection() {
    let mut state = PopupState::default();
    state.set_items(vec![
        create_mock_view_model(1, "a"),
        create_mock_view_model(2, "b"),
        create_mock_view_model(3, "c"),
    ]);
    state.set_selected_index(2);
    state.set_items(vec![create_mock_view_model(4, "d")]);
    assert_eq!(state.selected_index, 0);
    assert_eq!(state.get_selected_id(), Some("4".to_string()));
    state.set_items(Vec::new());
    assert_eq!(state.selected_index, 0);
    assert!(!state.has_selection());
    assert_eq!(state.get_selected_id(), None);
}

#[test]
fn reset_selection_goes_to_the_first_item() {
    let mut state = PopupState::default();
    state.set_items(vec![create_mock_view_model(1, "a"), create_mock_view_model(2, "b")]);
    state.move_selection_down();
    state.reset_selection();
    assert_eq!(state.selected_index, 0);
}
