use std::cell::Cell;

use elbey_cache::icon::populate_icon_data;
use elbey_cache::record::{decode_record, AppDescriptor, CachedAppDescriptor, IconHandle, LegacyRecord};
use elbey_cache::merge::{dedup_by_appid, merge_snapshot};
use elbey_cache::order::sort_snapshot;
use elbey_cache::snapshot::{
    build_snapshot_from_theme, build_snapshot_with_icons, cached_listing, listing, loader_listing, refresh_snapshot, store_snapshot,
    update_snapshot,
};
use image::ImageEncoder;

fn make_app(appid: &str, title: &str, exec_count: usize, icon_path: Option<String>) -> AppDescriptor {
    AppDescriptor {
        appid: appid.to_string(),
        title: title.to_string(),
        lower_title: title.to_lowercase(),
        command: Some("/bin/true".to_string()),
        exec_count,
        icon_name: None,
        icon_path,
        icon_handle: IconHandle::NotLoaded,
    }
}

fn png_pixel(rgba: [u8; 4]) -> Vec<u8> {
    let mut png_bytes = Vec::new();
    let image = image::RgbaImage::from_pixel(1, 1, image::Rgba(rgba));
    let encoder = image::codecs::png::PngEncoder::new(&mut png_bytes);
    encoder
        .write_image(image.as_raw(), image.width(), image.height(), image::ExtendedColorType::Rgba8)
        .expect("encode test icon");
    png_bytes
}

fn no_files(_: &String) -> Option<Vec<u8>> {
    None
}

fn no_theme(_: &String) -> Option<String> {
    None
}

fn titles(apps: &[AppDescriptor]) -> Vec<&str> {
    apps.iter().map(|app| app.title.as_str()).collect()
}

#[test]
fn test_cache_reads_icons_as_rgba() {
    let png = png_pixel([255, 0, 0, 255]);
    let read = |p: &String| if p == "/cache/test-icon.png" { Some(png.clone()) } else { None };
    let app = AppDescriptor {
        appid: "test-app".to_string(),
        title: "Test App".to_string(),
        lower_title: "test app".to_string(),
        command: Some("/bin/true".to_string()),
        exec_count: 0,
        icon_name: None,
        icon_path: Some("/cache/test-icon.png".to_string()),
        icon_handle: IconHandle::NotLoaded,
    };

    let snapshot = store_snapshot(vec![app], Vec::new(), &read);
    let apps = listing(snapshot, usize::MAX);

    assert!(matches!(apps[0].icon_handle, IconHandle::Raster(_)));
}

#[test]
fn test_write_snapshot_sorts_by_count_then_title() {
    let apps = vec![
        make_app("app-1", "Zoo", 5, None),
        make_app("app-2", "Alpha", 5, None),
        make_app("app-3", "Beta", 2, None),
    ];

    let snapshot = store_snapshot(apps, Vec::new(), &no_files);
    let apps = listing(snapshot, usize::MAX);

    assert_eq!(titles(&apps), vec!["Alpha", "Zoo", "Beta"]);
}

#[test]
fn test_refresh_preserves_count_and_cached_icon_data() {
    let png = png_pixel([0, 255, 0, 255]);
    let icon_path = "/cache/test-refresh-icon.png".to_string();
    let read = |p: &String| if *p == icon_path { Some(png.clone()) } else { None };
    let initial_app = make_app("app-1", "Cached App", 3, Some(icon_path.clone()));
    let seeded = build_snapshot_with_icons(vec![initial_app.clone()], &no_theme, &read);

    let refreshed_app = AppDescriptor { icon_path: None, exec_count: 0, ..initial_app };
    let snapshot = refresh_snapshot(vec![refreshed_app], seeded);
    let apps = listing(snapshot, usize::MAX);

    assert_eq!(apps[0].exec_count, 3);
    assert_eq!(apps[0].icon_path.as_ref(), Some(&icon_path));
    assert!(matches!(apps[0].icon_handle, IconHandle::Raster(_)));
}

#[test]
fn test_refresh_drops_missing_apps() {
    let apps = vec![make_app("app-1", "Keep", 1, None), make_app("app-2", "Drop", 2, None)];
    let stored = store_snapshot(apps, Vec::new(), &no_files);

    let snapshot = refresh_snapshot(vec![make_app("app-1", "Keep", 0, None)], stored);

    let apps = listing(snapshot, usize::MAX);
    assert_eq!(apps.len(), 1);
    assert_eq!(apps[0].appid, "app-1");
}

#[test]
fn test_legacy_decode_normalizes_titles() {
    let legacy = LegacyRecord {
        appid: "legacy-app".to_string(),
        title: "Legacy App".to_string(),
        lower_title: String::new(),
        command: "/bin/true".to_string(),
        exec_count: 1,
        icon_name: None,
    };

    let record = decode_record(None, Some(legacy)).expect("read snapshot");
    let apps = listing(vec![record], usize::MAX);
    assert_eq!(apps[0].lower_title, "legacy app");
    assert!(matches!(apps[0].icon_handle, IconHandle::NotLoaded));
}

#[test]
fn update_raises_only_the_selected_count() {
    let stored = store_snapshot(
        vec![make_app("X", "Xray", 3, None), make_app("Y", "Yak", 0, None)],
        Vec::new(),
        &no_files,
    );
    let loader = || vec![make_app("X", "Xray", 0, None), make_app("Y", "Yak", 0, None)];

    let after_x = listing(update_snapshot(loader(), stored.clone(), &make_app("X", "Xray", 0, None)), 10);
    let x = after_x.iter().find(|a| a.appid == "X").expect("X kept");
    assert_eq!(x.exec_count, 4);

    let after_y = listing(update_snapshot(loader(), stored, &make_app("Y", "Yak", 0, None)), 10);
    let x = after_y.iter().find(|a| a.appid == "X").expect("X kept");
    let y = after_y.iter().find(|a| a.appid == "Y").expect("Y kept");
    assert_eq!(x.exec_count, 3);
    assert_eq!(y.exec_count, 1);
}

#[test]
fn update_counts_duplicate_loader_entries_once() {
    let stored = store_snapshot(vec![make_app("X", "Xray", 3, None)], Vec::new(), &no_files);
    let latest = vec![make_app("X", "Xray", 0, None), make_app("X", "Xray again", 0, None)];

    let apps = listing(update_snapshot(latest, stored, &make_app("X", "Xray", 0, None)), 10);

    assert_eq!(apps.len(), 1);
    assert_eq!(apps[0].title, "Xray");
    assert_eq!(apps[0].exec_count, 4);
}

#[test]
fn update_stops_at_the_largest_count() {
    let stored = store_snapshot(vec![make_app("X", "Xray", usize::MAX, None)], Vec::new(), &no_files);
    let apps = listing(
        update_snapshot(vec![make_app("X", "Xray", 0, None)], stored, &make_app("X", "Xray", 0, None)),
        10,
    );
    assert_eq!(apps[0].exec_count, usize::MAX);
}

#[test]
fn refresh_purges_an_uninstalled_app() {
    let stored = store_snapshot(
        vec![make_app("A", "Alpha", 5, None), make_app("B", "Beta", 1, None)],
        Vec::new(),
        &no_files,
    );
    let apps = listing(refresh_snapshot(vec![make_app("B", "Beta", 0, None)], stored), 10);
    assert!(apps.iter().all(|a| a.appid != "A"));
    assert_eq!(apps.len(), 1);
    assert_eq!(apps[0].exec_count, 1);
}

#[test]
fn refresh_starts_new_apps_at_zero_without_icons() {
    let png = png_pixel([0, 0, 255, 255]);
    let read = |_: &String| Some(png.clone());
    let stored = store_snapshot(vec![make_app("A", "Alpha", 5, None)], Vec::new(), &read);
    let new_app = make_app("N", "New", 7, None);

    let apps = listing(refresh_snapshot(vec![make_app("A", "Alpha", 0, None), new_app], stored), 10);

    assert_eq!(titles(&apps), vec!["Alpha", "New"]);
    assert_eq!(apps[1].exec_count, 0);
    assert!(matches!(apps[1].icon_handle, IconHandle::NotLoaded));
}

#[test]
fn refresh_takes_a_fresh_path_over_the_stored_icon() {
    let png = png_pixel([0, 0, 255, 255]);
    let read = |_: &String| Some(png.clone());
    let stored = store_snapshot(vec![make_app("A", "Alpha", 2, Some("/old.png".to_string()))], Vec::new(), &read);
    assert!(stored[0].icon_data.is_some());

    let snapshot = refresh_snapshot(vec![make_app("A", "Alpha", 0, Some("/new.png".to_string()))], stored);

    assert_eq!(snapshot[0].icon_path.as_deref(), Some("/new.png"));
    assert!(snapshot[0].icon_data.is_none());
    assert_eq!(snapshot[0].exec_count, 2);
}

#[test]
fn store_snapshot_reuses_the_stored_icon() {
    let png = png_pixel([255, 0, 0, 255]);
    let read = |_: &String| Some(png.clone());
    let stored = store_snapshot(vec![make_app("A", "Alpha", 0, Some("/a.png".to_string()))], Vec::new(), &read);

    let again = store_snapshot(vec![make_app("A", "Alpha", 0, Some("/a.png".to_string()))], stored, &no_files);

    assert!(matches!(listing(again, 1)[0].icon_handle, IconHandle::Raster(_)));
}

#[test]
fn build_snapshot_reads_a_red_pixel_as_raster() {
    let png = png_pixel([255, 0, 0, 255]);
    let read = |p: &String| if p == "/icons/red.png" { Some(png.clone()) } else { None };
    let app = make_app("red", "Red", 0, Some("/icons/red.png".to_string()));

    let apps = listing(build_snapshot_with_icons(vec![app], &no_theme, &read), 10);

    match &apps[0].icon_handle {
        IconHandle::Raster(elbey_cache::record::RasterImage::Rgba { width, height, pixels }) => {
            assert_eq!((*width, *height), (1, 1));
            assert_eq!(pixels, &vec![255, 0, 0, 255]);
        }
        other => panic!("expected a decoded raster icon, got {:?}", other),
    }
}

#[test]
fn build_snapshot_records_a_missing_icon_once() {
    let lookups = Cell::new(0);
    let lookup = |_: &String| {
        lookups.set(lookups.get() + 1);
        None
    };
    let mut app = make_app("m", "Missing", 0, None);
    app.icon_name = Some("missing-icon".to_string());

    let first = build_snapshot_with_icons(vec![app], &lookup, &no_files);
    assert_eq!(first[0].icon_path.as_deref(), Some(""));
    assert_eq!(lookups.get(), 1);

    let shown = listing(first, 10);
    assert!(matches!(shown[0].icon_handle, IconHandle::Fallback));
    let second = build_snapshot_with_icons(shown, &lookup, &no_files);
    assert_eq!(lookups.get(), 1);
    assert!(matches!(listing(second, 10)[0].icon_handle, IconHandle::Fallback));
}

#[test]
fn build_snapshot_uses_the_theme_path() {
    let png = png_pixel([1, 2, 3, 255]);
    let lookup = |name: &String| if name == "term" { Some("/theme/term.png".to_string()) } else { None };
    let read = |p: &String| if p == "/theme/term.png" { Some(png.clone()) } else { None };
    let mut app = make_app("t", "Terminal", 0, None);
    app.icon_name = Some("term".to_string());

    let snapshot = build_snapshot_with_icons(vec![app], &lookup, &read);

    assert_eq!(snapshot[0].icon_path.as_deref(), Some("/theme/term.png"));
    assert!(matches!(snapshot[0].icon_data, Some(elbey_cache::record::CachedIcon::Rgba { .. })));
}

#[test]
fn resolving_twice_decodes_once() {
    let png = png_pixel([255, 0, 0, 255]);
    let reads = Cell::new(0);
    let read = |_: &String| {
        reads.set(reads.get() + 1);
        Some(png.clone())
    };
    let mut record = CachedAppDescriptor {
        appid: "a".to_string(),
        title: "A".to_string(),
        lower_title: "a".to_string(),
        command: Some("a".to_string()),
        exec_count: 0,
        icon_name: None,
        icon_path: Some("/a.png".to_string()),
        icon_data: None,
    };

    assert!(populate_icon_data(&mut record, &no_theme, &read));
    let after_first = record.clone();
    assert!(!populate_icon_data(&mut record, &no_theme, &read));
    assert_eq!(reads.get(), 1);
    assert_eq!(record, after_first);
}

#[test]
fn resolving_without_path_or_name_changes_nothing() {
    let mut record = CachedAppDescriptor {
        appid: "a".to_string(),
        title: "A".to_string(),
        lower_title: "a".to_string(),
        command: Some("a".to_string()),
        exec_count: 0,
        icon_name: None,
        icon_path: None,
        icon_data: None,
    };
    let before = record.clone();
    assert!(!populate_icon_data(&mut record, &no_theme, &no_files));
    assert_eq!(record, before);
}

#[test]
fn sort_orders_by_count_then_title_bytes() {
    let records: Vec<CachedAppDescriptor> = vec![
        make_app("1", "b", 1, None),
        make_app("2", "B", 1, None),
        make_app("3", "a", 9, None),
        make_app("4", "ab", 1, None),
        make_app("5", "", 1, None),
    ]
    .into_iter()
    .map(|a| CachedAppDescriptor::from_app_descriptor(a, None, &no_files))
    .collect();

    let sorted = sort_snapshot(records);

    let titles: Vec<&str> = sorted.iter().map(|r| r.title.as_str()).collect();
    assert_eq!(titles, vec!["a", "", "B", "ab", "b"]);
}

#[test]
fn sort_of_nothing_is_nothing() {
    assert!(sort_snapshot(Vec::new()).is_empty());
}

#[test]
fn merge_keeps_loader_order_and_first_duplicate() {
    let merged = merge_snapshot(
        vec![make_app("b", "B", 0, None), make_app("a", "A", 0, None), make_app("b", "B2", 0, None)],
        Vec::new(),
        None,
    );
    let ids: Vec<&str> = merged.iter().map(|r| r.appid.as_str()).collect();
    assert_eq!(ids, vec!["b", "a"]);
    assert_eq!(merged[0].title, "B");
}

#[test]
fn dedup_keeps_first_of_each_id() {
    let apps = dedup_by_appid(vec![
        make_app("a", "1", 0, None),
        make_app("b", "2", 0, None),
        make_app("a", "3", 0, None),
    ]);
    assert_eq!(titles(&apps), vec!["1", "2"]);
}

#[test]
fn listing_stops_at_the_limit() {
    let stored = store_snapshot(
        vec![make_app("a", "A", 2, None), make_app("b", "B", 1, None)],
        Vec::new(),
        &no_files,
    );
    assert!(listing(stored.clone(), 0).is_empty());
    assert_eq!(titles(&listing(stored.clone(), 1)), vec!["A"]);
    assert_eq!(listing(stored, 5).len(), 2);
}

#[test]
fn reading_an_empty_store_asks_the_loader() {
    assert!(cached_listing(Vec::new(), true, 5).is_none());
    assert_eq!(cached_listing(Vec::new(), true, 0), Some(Vec::new()));
    assert_eq!(cached_listing(Vec::new(), false, 5), Some(Vec::new()));
}

#[test]
fn reading_a_stored_snapshot_lists_it() {
    let stored = store_snapshot(
        vec![make_app("a", "A", 2, None), make_app("b", "B", 1, None)],
        Vec::new(),
        &no_files,
    );
    let apps = cached_listing(stored, false, 1).expect("listed");
    assert_eq!(titles(&apps), vec!["A"]);
}

#[test]
fn loader_listing_takes_the_first_apps() {
    let apps = vec![make_app("a", "A", 0, None), make_app("b", "B", 0, None)];
    assert_eq!(titles(&loader_listing(apps.clone(), 1)), vec!["A"]);
    assert_eq!(loader_listing(apps.clone(), 0).len(), 0);
    assert_eq!(loader_listing(apps, usize::MAX).len(), 2);
}

#[test]
fn a_name_no_theme_knows_is_recorded_absent() {
    let mut app = make_app("x", "Nothing", 0, None);
    app.icon_name = Some("no-such-icon-name-in-any-theme-8c1f".to_string());

    let snapshot = build_snapshot_from_theme(vec![app], &no_files);

    assert_eq!(snapshot[0].icon_path.as_deref(), Some(""));
    assert!(snapshot[0].icon_data.is_none());
}

#[test]
fn test_read_all_populates_cache_on_first_run() {
    let loader = || vec![make_app("app-1", "First Run", 0, None)];

    let apps = match cached_listing(Vec::new(), true, usize::MAX) {
        Some(apps) => apps,
        None => {
            let snapshot = build_snapshot_with_icons(loader(), &no_theme, &no_files);
            assert!(!snapshot.is_empty());
            listing(snapshot, usize::MAX)
        }
    };

    assert_eq!(apps.len(), 1);
    assert_eq!(apps[0].appid, "app-1");
}
