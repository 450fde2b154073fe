use fuzzy_matcher::skim::SkimMatcherV2;
use fuzzy_matcher::FuzzyMatcher;
use maccy_kde::bootstrap::{Bootstrap, Mode};
use maccy_kde::clipboard::{
    classify_clipboard_bytes, compute_image_hash, copy_action, detect_image_type, ClipboardPayload, CopyAction,
};
use maccy_kde::hotkey::HotkeyRegistry;
use maccy_kde::database::{Category, ClipboardItem, DataType, Database};
use maccy_kde::gui_model::{
    filter_items, format_relative_time, format_relative_time_at, history_entries_at, is_likely_code,
    item_to_entry, item_to_entry_at, parse_query,
};
use maccy_kde::ipc::{handle_command, IpcCommand, IpcResponse};
use maccy_kde::paths::{get_socket_path, join_path, AppPaths, Environment};
use maccy_kde::shared::MaccyError;

fn make_item(id: i64, text: &str) -> ClipboardItem {
    ClipboardItem {
        id,
        value_text: Some(text.to_string()),
        image_path: None,
        data_type: DataType::Text,
        raw_mime_type: "text/plain".to_string(),
        category: None,
        is_pinned: false,
        pin_order: 0,
        last_used_at: 1_700_000_000,
    }
}

fn env() -> Environment {
    Environment {
        xdg_data_home: None,
        xdg_cache_home: None,
        xdg_config_home: None,
        xdg_runtime_dir: None,
        socket_override: None,
        home: Some("/home/u".to_string()),
        temp_dir: "/tmp".to_string(),
    }
}

// ---- clipboard bytes ----

#[test]
fn test_compute_image_hash() {
    let bytes1 = b"test data";
    let bytes2 = b"test data";
    let bytes3 = b"different data";

    assert_eq!(compute_image_hash(bytes1), compute_image_hash(bytes2));
    assert_ne!(compute_image_hash(bytes1), compute_image_hash(bytes3));
}

#[test]
fn test_detect_image_type_png() {
    let png_bytes = [0x89, 0x50, 0x4E, 0x47, 0x0D, 0x0A, 0x1A, 0x0A, 0x00, 0x00];
    assert_eq!(detect_image_type(&png_bytes), Some("image/png"));
}

#[test]
fn test_detect_image_type_jpeg() {
    let jpeg_bytes = [0xFF, 0xD8, 0xFF, 0x00, 0x00, 0x00];
    assert_eq!(detect_image_type(&jpeg_bytes), Some("image/jpeg"));
}

#[test]
fn test_detect_image_type_unknown() {
    let unknown_bytes = [0x00, 0x01, 0x02, 0x03];
    assert_eq!(detect_image_type(&unknown_bytes), None);
}

#[test]
fn test_detect_image_type_too_short() {
    let short_bytes = [0x89, 0x50];
    assert_eq!(detect_image_type(&short_bytes), None);
}

#[test]
fn test_detect_image_type_empty() {
    let empty_bytes: [u8; 0] = [];
    assert_eq!(detect_image_type(&empty_bytes), None);
}

#[test]
fn image_type_edges() {
    assert_eq!(detect_image_type(&[0xFF, 0xD8, 0xFF]), Some("image/jpeg"));
    assert_eq!(detect_image_type(&[0xFF, 0xD8]), None);
    assert_eq!(detect_image_type(&[0x89, 0x50, 0x4E, 0x47, 0x0D, 0x0A, 0x1A, 0x0A]), Some("image/png"));
    assert_eq!(detect_image_type(&[0x89, 0x50, 0x4E, 0x47, 0x0D, 0x0A, 0x1A]), None);
    assert_eq!(detect_image_type(&[0x89, 0x50, 0x4E, 0x47]), None);
}

#[test]
fn classify_copied_bytes() {
    assert_eq!(classify_clipboard_bytes(b"  hello \n".to_vec()), ClipboardPayload::Text("hello".to_string()));
    assert_eq!(classify_clipboard_bytes(b"   ".to_vec()), ClipboardPayload::Nothing);
    assert_eq!(classify_clipboard_bytes(Vec::new()), ClipboardPayload::Nothing);
    assert_eq!(
        classify_clipboard_bytes(vec![0x89, 0x50, 0x4E, 0x47, 0x0D, 0x0A, 0x1A, 0x0A, 0xFF]),
        ClipboardPayload::Image("image/png")
    );
    assert_eq!(classify_clipboard_bytes(vec![0xFF, 0xD8, 0xFF, 0xE0]), ClipboardPayload::Image("image/jpeg"));
    assert_eq!(classify_clipboard_bytes(vec![0xC3, 0x28]), ClipboardPayload::Nothing);
    assert_eq!(classify_clipboard_bytes("Привет".as_bytes().to_vec()), ClipboardPayload::Text("Привет".to_string()));
}

// ---- menu model ----

#[test]
fn test_filter_empty_query() {
    let items = vec![make_item(1, "Hello"), make_item(2, "World")];
    assert_eq!(filter_items(&items, "").len(), 2);
}

#[test]
fn test_filter_exact_match() {
    let items = vec![make_item(1, "Hello World"), make_item(2, "Test")];
    assert_eq!(filter_items(&items, "Hello").len(), 1);
}

#[test]
fn main_test_filter_no_match() {
    let items = vec![make_item(1, "Hello")];
    assert!(filter_items(&items, "xyz").is_empty());
}

#[test]
fn test_filter_cyrillic() {
    let items = vec![make_item(1, "Привет мир")];
    assert_eq!(filter_items(&items, "Прив").len(), 1);
}

#[test]
fn test_filter_emoji() {
    let items = vec![make_item(1, "Hello 🌍")];
    assert_eq!(filter_items(&items, "🌍").len(), 1);
}

#[test]
fn test_filter_by_category() {
    let items = vec![
        ClipboardItem {
            id: 1,
            value_text: Some("https://example.com".to_string()),
            image_path: None,
            data_type: DataType::Text,
            raw_mime_type: "text/plain".to_string(),
            category: Some(Category::Url),
            is_pinned: false,
            pin_order: 0,
            last_used_at: 0,
        },
        ClipboardItem {
            id: 2,
            value_text: Some("user@example.com".to_string()),
            image_path: None,
            data_type: DataType::Text,
            raw_mime_type: "text/plain".to_string(),
            category: Some(Category::Email),
            is_pinned: false,
            pin_order: 0,
            last_used_at: 0,
        },
    ];
    assert_eq!(filter_items(&items, "@url").len(), 1);
    assert_eq!(filter_items(&items, "@email").len(), 1);
}

#[test]
fn test_ui_item_mapping() {
    let item = ClipboardItem {
        id: 1,
        value_text: Some("Test".to_string()),
        image_path: None,
        data_type: DataType::Text,
        raw_mime_type: "text/plain".to_string(),
        category: None,
        is_pinned: false,
        pin_order: 0,
        last_used_at: 12345,
    };

    assert_eq!(item.id, 1);
    assert_eq!(item.value_text.unwrap(), "Test");
}

#[test]
fn query_parsing() {
    assert_eq!(parse_query("@email x"), (Some(Category::Email), "x".to_string()));
    assert_eq!(parse_query("hello"), (None, "hello".to_string()));
    assert_eq!(parse_query("@picture"), (Some(Category::Picture), String::new()));
}

#[test]
fn code_detection() {
    assert!(is_likely_code("fn main() {}"));
    assert!(is_likely_code("line one\nline two"));
    assert!(is_likely_code("a;"));
    assert!(is_likely_code("import os"));
    assert!(!is_likely_code("just words"));
    assert!(!is_likely_code("one line\n"));
    assert!(!is_likely_code(""));
}

#[test]
fn relative_times() {
    let now: i64 = 10_000_000;
    assert_eq!(format_relative_time_at(now - 59_999, now), "just now");
    assert_eq!(format_relative_time_at(now - 60_000, now), "1m ago");
    assert_eq!(format_relative_time_at(now - 3_599_999, now), "59m ago");
    assert_eq!(format_relative_time_at(now - 3_600_000, now), "1h ago");
    assert_eq!(format_relative_time_at(now - 86_400_000, now), "1d ago");
    assert_eq!(format_relative_time_at(now + 120_000, now), "2m ago");
    assert_eq!(format_relative_time_at(i64::MIN, i64::MAX), "213503982334d ago");
    assert_eq!(format_relative_time(i64::MAX - 1).ends_with("ago"), true);
}

#[test]
fn menu_entries() {
    let now: i64 = 1_700_000_000 + 7_200_000;
    let mut long = make_item(3, &"x".repeat(120));
    long.is_pinned = true;
    let e = item_to_entry_at(&long, 0, now);
    assert_eq!(e.id, 3);
    assert_eq!(e.text.chars().count(), 101);
    assert!(e.text.ends_with('…'));
    assert_eq!(e.timestamp, "2h ago");
    assert!(e.is_pinned);
    assert!(!e.is_image);
    assert!(!e.is_code);
    assert_eq!(e.shortcut_index, 1);
    let image = ClipboardItem {
        value_text: None,
        image_path: Some("/p.png".to_string()),
        data_type: DataType::Image,
        ..make_item(4, "")
    };
    let e = item_to_entry_at(&image, 9, now);
    assert_eq!(e.text, "📷 Изображение");
    assert!(e.is_image);
    assert_eq!(e.shortcut_index, 0);
    assert_eq!(item_to_entry_at(&make_item(5, "let x = 1"), 8, now).shortcut_index, 9);
    assert!(item_to_entry_at(&make_item(5, "let x = 1"), 8, now).is_code);
    assert_eq!(item_to_entry(&make_item(6, "a"), 2).shortcut_index, 3);
    let entries = history_entries_at(&[make_item(1, "alpha"), make_item(2, "beta")], "bet", now);
    assert_eq!(entries.len(), 1);
    assert_eq!(entries[0].id, 2);
    assert_eq!(entries[0].shortcut_index, 1);
}

// ---- requests to the daemon ----

#[test]
fn ipc_requests() {
    let mut db = Database::in_memory().unwrap();
    db.add_text_item("first").unwrap();
    db.add_image_item("/c/pic.png".to_string(), "image/png").unwrap();
    let start = std::time::Instant::now();
    while start.elapsed() < std::time::Duration::from_millis(2) {}

    let out = handle_command(IpcCommand::GetHistory, &mut db);
    match &out.response {
        IpcResponse::History(h) => assert_eq!(h.len(), 2),
        _ => panic!("expected the history"),
    }
    assert_eq!(out.paste, None);

    let out = handle_command(IpcCommand::SelectItem { id: 1 }, &mut db);
    assert_eq!(out.paste, Some("first".to_string()));
    match &out.response {
        IpcResponse::History(h) => assert_eq!(h[0].id, 1),
        _ => panic!("expected the history"),
    }

    let out = handle_command(IpcCommand::SelectItem { id: 2 }, &mut db);
    assert_eq!(out.paste, None);

    let out = handle_command(IpcCommand::SelectItem { id: 77 }, &mut db);
    assert_eq!(out.response, IpcResponse::Error("Item not found".to_string()));

    let out = handle_command(IpcCommand::TogglePin { id: 2 }, &mut db);
    match &out.response {
        IpcResponse::History(h) => {
            assert_eq!(h[0].id, 2);
            assert!(h[0].is_pinned);
        },
        _ => panic!("expected the history"),
    }
    let out = handle_command(IpcCommand::TogglePin { id: 9 }, &mut db);
    assert_eq!(out.response, IpcResponse::Error("Failed to toggle pin: Query returned no rows".to_string()));

    let out = handle_command(IpcCommand::DeleteItem { id: 2 }, &mut db);
    assert_eq!(out.removed_images, vec!["/c/pic.png".to_string()]);
    match &out.response {
        IpcResponse::History(h) => assert_eq!(h.len(), 1),
        _ => panic!("expected the history"),
    }
    let out = handle_command(IpcCommand::DeleteItem { id: 2 }, &mut db);
    assert!(out.removed_images.is_empty());
}

// ---- paths and start ----

#[test]
fn default_paths() {
    let e = env();
    assert_eq!(AppPaths::data_dir(&e), "/home/u/.local/share/maccy-kde");
    assert_eq!(AppPaths::cache_dir(&e), "/home/u/.cache/maccy-kde");
    assert_eq!(AppPaths::database_path(&e), "/home/u/.local/share/maccy-kde/history.db");
    assert_eq!(AppPaths::images_cache_path(&e), "/home/u/.cache/maccy-kde/images");
    assert_eq!(AppPaths::socket_path(&e), "/tmp/maccy-kde.socket");
    assert_eq!(AppPaths::autostart_dir(&e), "/home/u/.config/autostart");
    assert_eq!(get_socket_path(&e), "/tmp/maccy-kde.socket");
}

#[test]
fn paths_from_the_environment() {
    let e = Environment {
        xdg_data_home: Some("/data/".to_string()),
        xdg_cache_home: Some("/cache".to_string()),
        xdg_config_home: Some("/conf".to_string()),
        xdg_runtime_dir: Some("/run/user/1000".to_string()),
        socket_override: Some("/x/test.sock".to_string()),
        home: None,
        temp_dir: "/var/tmp".to_string(),
    };
    assert_eq!(AppPaths::data_dir(&e), "/data/maccy-kde");
    assert_eq!(AppPaths::cache_dir(&e), "/cache/maccy-kde");
    assert_eq!(AppPaths::autostart_dir(&e), "/conf/autostart");
    assert_eq!(AppPaths::socket_path(&e), "/run/user/1000/maccy-kde.socket");
    assert_eq!(get_socket_path(&e), "/x/test.sock");
    let no_home = Environment { home: None, ..env() };
    assert_eq!(AppPaths::data_dir(&no_home), "/tmp/.local/share/maccy-kde");
    assert_eq!(AppPaths::autostart_dir(&no_home), "/tmp/.config/autostart");
}

#[test]
fn path_joining() {
    assert_eq!(join_path("/a", "b"), "/a/b");
    assert_eq!(join_path("/a/", "b"), "/a/b");
    assert_eq!(join_path("", "b"), "b");
    assert_eq!(join_path("/a", "/b"), "/b");
    assert_eq!(join_path("a", ""), "a/");
}

#[test]
fn start_modes() {
    let args = |v: &[&str]| -> Vec<String> { v.iter().map(|s| s.to_string()).collect() };
    assert_eq!(Bootstrap::from_args(&args(&["maccy"])).mode(), Mode::All);
    assert_eq!(Bootstrap::from_args(&args(&["maccy", "--install-autostart"])).mode(), Mode::InstallAutostart);
    assert_eq!(Bootstrap::from_args(&args(&["maccy", "--remove-autostart"])).mode(), Mode::RemoveAutostart);
    assert_eq!(Bootstrap::from_args(&args(&["maccy", "--other"])).mode(), Mode::All);
    assert_eq!(Bootstrap::from_args(&[]).mode(), Mode::All);
}

#[test]
fn error_messages() {
    assert_eq!(MaccyError::Database("x".to_string()).to_text(), "Database error: x");
    assert_eq!(MaccyError::Validation("bad".to_string()).to_text(), "Validation error: bad");
    assert_eq!(MaccyError::Ipc("down".to_string()).to_text(), "IPC error: down");
    let io = MaccyError::Io(std::io::Error::new(std::io::ErrorKind::Other, "disk"));
    assert_eq!(io.to_text(), "IO error: disk");
    let converted: MaccyError = std::io::Error::new(std::io::ErrorKind::NotFound, "gone").into();
    assert!(matches!(converted, MaccyError::Io(_)));
    assert_eq!(converted.to_text(), "IO error: gone");
}

fn create_test_item(id: i64, text: &str) -> ClipboardItem {
    ClipboardItem {
        id,
        value_text: Some(text.to_string()),
        image_path: None,
        data_type: DataType::Text,
        raw_mime_type: "text/plain".to_string(),
        category: None,
        is_pinned: false,
        pin_order: 0,
        last_used_at: 0,
    }
}

#[test]
fn test_fuzzy_search_logic() {
    let items = vec![create_test_item(1, "Apple"), create_test_item(2, "Banana"), create_test_item(3, "Apricot")];

    let matcher = SkimMatcherV2::default();
    let query = "Ap";

    let mut scored: Vec<_> = items
        .iter()
        .filter_map(|item| matcher.fuzzy_match(item.value_text.as_ref().unwrap(), query).map(|score| (item, score)))
        .collect();

    scored.sort_by(|a, b| b.1.cmp(&a.1));

    assert_eq!(scored.len(), 2);
    assert_eq!(scored[0].0.value_text.as_ref().unwrap(), "Apple");
    assert_eq!(scored[1].0.value_text.as_ref().unwrap(), "Apricot");

    // the menu's own filter gives the same list
    let found = filter_items(&items, query);
    assert_eq!(found.len(), 2);
    assert_eq!(found[0].value_text.as_ref().unwrap(), "Apple");
    assert_eq!(found[1].value_text.as_ref().unwrap(), "Apricot");
}

fn png_file(width: u32, height: u32, pixels: Vec<u8>) -> Vec<u8> {
    let img = image::RgbaImage::from_raw(width, height, pixels).unwrap();
    let mut buf: Vec<u8> = Vec::new();
    img.write_to(&mut std::io::Cursor::new(&mut buf), image::ImageFormat::Png).unwrap();
    buf
}

#[test]
fn copied_text_is_recorded_trimmed() {
    assert_eq!(copy_action(b"  note \n".to_vec()), CopyAction::Text("note".to_string()));
    assert_eq!(copy_action(b" \t ".to_vec()), CopyAction::Nothing);
    assert_eq!(copy_action(Vec::new()), CopyAction::Nothing);
}

#[test]
fn copied_png_is_decoded_and_stored_as_png() {
    let pixels = vec![255, 0, 0, 255, 0, 0, 255, 128];
    let copied = png_file(2, 1, pixels.clone());
    match copy_action(copied) {
        CopyAction::Image { mime_type, png } => {
            assert_eq!(mime_type, "image/png");
            assert_eq!(&png[..8], &[0x89, 0x50, 0x4E, 0x47, 0x0D, 0x0A, 0x1A, 0x0A]);
            let back = image::load_from_memory(&png).unwrap().to_rgba8();
            assert_eq!((back.width(), back.height()), (2, 1));
            assert_eq!(back.into_raw(), pixels);
        },
        other => panic!("expected an image, got {:?}", other),
    }
}

#[test]
fn copied_jpeg_is_decoded_and_stored_as_png() {
    let (width, height) = (8u32, 8u32);
    let rgb: Vec<u8> = vec![200; (width * height * 3) as usize];
    let mut jpeg: Vec<u8> = Vec::new();
    image::codecs::jpeg::JpegEncoder::new_with_quality(&mut jpeg, 90)
        .encode(&rgb, width, height, image::ExtendedColorType::Rgb8)
        .unwrap();
    assert_eq!(&jpeg[..3], &[0xFF, 0xD8, 0xFF]);
    let expected = image::load_from_memory(&jpeg).unwrap().to_rgba8().into_raw();
    match copy_action(jpeg) {
        CopyAction::Image { mime_type, png } => {
            assert_eq!(mime_type, "image/jpeg");
            assert_eq!(&png[..8], &[0x89, 0x50, 0x4E, 0x47, 0x0D, 0x0A, 0x1A, 0x0A]);
            let back = image::load_from_memory(&png).unwrap().to_rgba8();
            assert_eq!((back.width(), back.height()), (width, height));
            assert_eq!(back.into_raw(), expected);
        },
        other => panic!("expected an image, got {:?}", other),
    }
}

#[test]
fn bytes_that_only_look_like_an_image_are_ignored() {
    let mut fake_png = vec![0x89, 0x50, 0x4E, 0x47, 0x0D, 0x0A, 0x1A, 0x0A];
    fake_png.extend_from_slice(b"not really a png");
    assert_eq!(copy_action(fake_png), CopyAction::Nothing);
    assert_eq!(copy_action(vec![0xFF, 0xD8, 0xFF, 0x00, 0x01]), CopyAction::Nothing);
    assert_eq!(copy_action(vec![0x00, 0x9F, 0x92]), CopyAction::Nothing);
}

#[test]
fn hotkey_callback_registers_once() {
    let mut registry: HotkeyRegistry<u32> = HotkeyRegistry::new();
    assert!(!registry.is_registered());
    assert_eq!(registry.callback(), None);
    assert_eq!(registry.register(7), Ok(()));
    assert_eq!(registry.register(9), Err("Hotkey callback already registered".to_string()));
    assert!(registry.is_registered());
    assert_eq!(registry.callback(), Some(&7));
}
