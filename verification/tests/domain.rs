use maccy_kde::domain::entities::{
    Category, ClipboardItem, Content, ItemId, MimeType, Timestamp,
};
use maccy_kde::domain::services::{CategoryDetector, DeduplicationService, RotationService};

fn create_test_item(id: i64, is_pinned: bool, last_used: i64) -> ClipboardItem {
    ClipboardItem {
        id: ItemId::new(id),
        content: Content::Text(format!("Item {}", id)),
        mime_type: MimeType::new("text/plain".to_string()),
        category: Some(Category::Other),
        is_pinned,
        pin_order: 0,
        last_used_at: Timestamp::new(last_used),
    }
}

#[test]
fn test_detect_url() {
    assert!(matches!(CategoryDetector::detect("https://example.com"), Category::Url));
    assert!(matches!(CategoryDetector::detect("http://test.org"), Category::Url));
    assert!(matches!(CategoryDetector::detect("www.example.com"), Category::Url));
}

#[test]
fn test_detect_email() {
    assert!(matches!(CategoryDetector::detect("user@example.com"), Category::Email));
    assert!(matches!(CategoryDetector::detect("test.name@domain.org"), Category::Email));
}

#[test]
fn test_detect_account() {
    assert!(matches!(CategoryDetector::detect("@username"), Category::Account));
    assert!(matches!(CategoryDetector::detect("user"), Category::Account));
}

#[test]
fn test_detect_other() {
    assert!(matches!(CategoryDetector::detect("plain text"), Category::Other));
    assert!(matches!(CategoryDetector::detect("12"), Category::Other));
    assert!(matches!(CategoryDetector::detect("text with spaces"), Category::Other));
}

#[test]
fn detect_edge_cases() {
    // twenty word characters is still an account, twenty-one is not
    assert_eq!(CategoryDetector::detect("abcdefghijklmnopqrst"), Category::Account);
    assert_eq!(CategoryDetector::detect("abcdefghijklmnopqrstu"), Category::Other);
    assert_eq!(CategoryDetector::detect("ftp://files.example.com"), Category::Url);
    assert_eq!(CategoryDetector::detect("www"), Category::Account);
    assert_eq!(CategoryDetector::detect(""), Category::Other);
    assert_eq!(CategoryDetector::detect("@"), Category::Other);
    assert_eq!(CategoryDetector::detect("user@host"), Category::Other);
}

#[test]
fn category_names() {
    assert_eq!(Category::Url.name(), "Url");
    assert_eq!(Category::Email.name(), "Email");
    assert_eq!(Category::Account.name(), "Account");
    assert_eq!(Category::Picture.name(), "Picture");
    assert_eq!(Category::Other.name(), "Other");
}

#[test]
fn category_from_matches_uses_the_flags() {
    assert_eq!(Category::from_matches("anything", true, false, false), Category::Email);
    assert_eq!(Category::from_matches("anything", false, true, false), Category::Account);
    assert_eq!(Category::from_matches("anything", false, false, true), Category::Account);
    assert_eq!(Category::from_matches("any thing", false, false, true), Category::Other);
    assert_eq!(Category::from_matches("https://x", true, true, true), Category::Url);
}

#[test]
fn test_compute_text_hash() {
    let hash1 = DeduplicationService::compute_text_hash("hello");
    let hash2 = DeduplicationService::compute_text_hash("hello");
    let hash3 = DeduplicationService::compute_text_hash("world");

    assert_eq!(hash1, hash2);
    assert_ne!(hash1, hash3);
}

#[test]
fn test_is_duplicate_text() {
    assert!(DeduplicationService::is_duplicate_text("same", "same"));
    assert!(!DeduplicationService::is_duplicate_text("same", "different"));
}

#[test]
fn test_is_duplicate_bytes() {
    let bytes1 = b"test data";
    let bytes2 = b"test data";
    let bytes3 = b"different data";

    assert!(DeduplicationService::is_duplicate_bytes(bytes1, bytes2));
    assert!(!DeduplicationService::is_duplicate_bytes(bytes1, bytes3));
}

#[test]
fn bytes_hash_is_stable() {
    let a = DeduplicationService::compute_bytes_hash(&[1, 2, 3]);
    let b = DeduplicationService::compute_bytes_hash(&[1, 2, 3]);
    let c = DeduplicationService::compute_bytes_hash(&[3, 2, 1]);
    assert_eq!(a, b);
    assert_ne!(a, c);
}

#[test]
fn test_should_rotate() {
    assert!(!RotationService::should_rotate(10, 20));
    assert!(RotationService::should_rotate(25, 20));
}

#[test]
fn should_rotate_at_the_limit() {
    assert!(!RotationService::should_rotate(20, 20));
}

#[test]
fn test_max_non_pinned_items() {
    assert_eq!(RotationService::max_non_pinned_items(200, 0), 200);
    assert_eq!(RotationService::max_non_pinned_items(200, 10), 190);
    assert_eq!(RotationService::max_non_pinned_items(200, 200), 0);
}

#[test]
fn max_non_pinned_with_more_pinned_than_room() {
    assert_eq!(RotationService::max_non_pinned_items(5, 9), 0);
}

#[test]
fn test_items_to_delete_basic() {
    let items = vec![
        create_test_item(1, true, 100),
        create_test_item(2, false, 90),
        create_test_item(3, false, 80),
    ];

    let to_delete = RotationService::items_to_delete(&items, 2);
    assert_eq!(to_delete.len(), 1);
    assert!(to_delete.contains(&ItemId::new(3)));
}

#[test]
fn test_items_to_delete_preserves_pinned() {
    let items = vec![
        create_test_item(1, true, 100),
        create_test_item(2, false, 90),
        create_test_item(3, false, 80),
        create_test_item(4, true, 70),
    ];

    let to_delete = RotationService::items_to_delete(&items, 2);
    assert!(!to_delete.contains(&ItemId::new(1)));
    assert!(!to_delete.contains(&ItemId::new(4)));
}

#[test]
fn test_items_to_delete_no_rotation_needed() {
    let items = vec![create_test_item(1, false, 100), create_test_item(2, false, 90)];

    let to_delete = RotationService::items_to_delete(&items, 5);
    assert!(to_delete.is_empty());
}

#[test]
fn items_to_delete_oldest_first_with_ties_in_order() {
    let items = vec![
        create_test_item(1, false, 50),
        create_test_item(2, false, 10),
        create_test_item(3, true, 5),
        create_test_item(4, false, 10),
        create_test_item(5, false, 70),
    ];
    // room for 3: one pinned, so two unpinned stay and two go
    let to_delete = RotationService::items_to_delete(&items, 3);
    assert_eq!(to_delete, vec![ItemId::new(2), ItemId::new(4)]);
}

#[test]
fn items_to_delete_all_unpinned_when_pinned_fill_the_room() {
    let items = vec![
        create_test_item(1, true, 1),
        create_test_item(2, true, 2),
        create_test_item(3, false, 3),
    ];
    assert_eq!(RotationService::items_to_delete(&items, 2), vec![ItemId::new(3)]);
    assert_eq!(RotationService::items_to_delete(&items, 1), vec![ItemId::new(3)]);
}

#[test]
fn item_constructors() {
    let t = ClipboardItem::text("https://example.com".to_string(), ItemId::new(7));
    assert_eq!(t.id, ItemId::new(7));
    assert_eq!(t.category, Some(Category::Url));
    assert_eq!(t.mime_type.value(), "text/plain");
    assert!(!t.pinned());
    assert_eq!(t.pin_order, 0);

    let i = ClipboardItem::image("/tmp/a.png".to_string(), MimeType::image_png(), ItemId::new(8));
    assert_eq!(i.category, Some(Category::Picture));
    assert_eq!(i.content, Content::Image("/tmp/a.png".to_string()));
    assert_eq!(i.display_text(), "📷 Изображение");
}

#[test]
fn item_pin_and_unpin() {
    let mut item = create_test_item(1, false, 10);
    item.pin(4);
    assert!(item.pinned());
    assert_eq!(item.pin_order, 4);
    item.unpin();
    assert!(!item.pinned());
    assert_eq!(item.pin_order, 0);
    assert_eq!(item.last_used_at, Timestamp::new(10));
}

#[test]
fn item_update_last_used_keeps_the_rest() {
    let mut item = create_test_item(3, true, 10);
    item.update_last_used();
    assert_eq!(item.id, ItemId::new(3));
    assert!(item.is_pinned);
    assert!(item.last_used_at.value() > 10);
}

#[test]
fn display_text_cuts_long_text() {
    let long: String = "я".repeat(150);
    let item = ClipboardItem::text(long, ItemId::new(1));
    let shown = item.display_text();
    assert_eq!(shown.chars().count(), 101);
    assert!(shown.ends_with('…'));
    let exact: String = "x".repeat(100);
    let item = ClipboardItem::text(exact.clone(), ItemId::new(1));
    assert_eq!(item.display_text(), exact);
}

#[test]
fn content_accessors() {
    let t = Content::Text("abc".to_string());
    assert!(t.is_text());
    assert!(!t.is_image());
    assert_eq!(t.as_text(), Some("abc"));
    assert_eq!(t.as_image_path(), None);
    let i = Content::Image("p.png".to_string());
    assert!(i.is_image());
    assert_eq!(i.as_text(), None);
    assert_eq!(i.as_image_path(), Some(&"p.png".to_string()));
}

#[test]
fn mime_types_and_ids() {
    assert!(MimeType::text_plain().is_text());
    assert!(!MimeType::text_plain().is_image());
    assert!(MimeType::image_png().is_image());
    assert_eq!(MimeType::image_jpeg().value(), "image/jpeg");
    assert_eq!(ItemId::new(-5).value(), -5);
    assert_eq!(ItemId::new(42).to_string(), "42");
    assert_eq!(ItemId::new(-7).to_string(), "-7");
    assert_eq!(ItemId::new(i64::MIN).to_string(), i64::MIN.to_string());
    assert_eq!(Timestamp::new(9).value(), 9);
    assert!(Timestamp::now().value() > 1_600_000_000_000);
    assert_eq!(Timestamp::new(-12).to_string(), "-12");
    let m: MimeType = "image/gif".to_string().into();
    assert_eq!(m, MimeType::new("image/gif".to_string()));
    assert_eq!(m.to_string(), "image/gif");
}

#[test]
fn new_at_sets_the_given_time() {
    let item = ClipboardItem::new_at(ItemId(3), Content::Text("x".to_string()), MimeType::text_plain(), None, 1234);
    assert_eq!(item.last_used_at, Timestamp::new(1234));
    assert_eq!(item.id, ItemId(3));
    assert!(!item.is_pinned);
    assert_eq!(item.pin_order, 0);
    assert_eq!(item.category, None);
    let fresh = ClipboardItem::new(ItemId(4), Content::Text("y".to_string()), MimeType::text_plain(), None);
    assert!(fresh.last_used_at.value() > 1_600_000_000_000);
}
