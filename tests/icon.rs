use elbey_cache::icon::{decode_raster, has_vector_extension, icon_data_from_bytes, icon_data_from_path, icon_handle_from_data};
use elbey_cache::record::{
    decode_record, is_empty_path, AppDescriptor, CachedAppDescriptor, CachedIcon, IconHandle, LegacyRecord, RasterImage,
};
use image::ImageEncoder;

fn png_pixel(rgba: [u8; 4]) -> Vec<u8> {
    let mut png_bytes = Vec::new();
    let image = image::RgbaImage::from_pixel(1, 1, image::Rgba(rgba));
    let encoder = image::codecs::png::PngEncoder::new(&mut png_bytes);
    encoder
        .write_image(image.as_raw(), image.width(), image.height(), image::ExtendedColorType::Rgba8)
        .expect("encode test icon");
    png_bytes
}

fn record(lower_title: &str, icon_path: Option<&str>, icon_data: Option<CachedIcon>) -> CachedAppDescriptor {
    CachedAppDescriptor {
        appid: "id".to_string(),
        title: "Some Title".to_string(),
        lower_title: lower_title.to_string(),
        command: Some("run".to_string()),
        exec_count: 2,
        icon_name: Some("name".to_string()),
        icon_path: icon_path.map(|p| p.to_string()),
        icon_data,
    }
}

#[test]
fn empty_path_is_the_absent_marker() {
    assert!(is_empty_path(&String::new()));
    assert!(!is_empty_path(&"/x.png".to_string()));
}

#[test]
fn vector_extension_ignores_case() {
    assert!(has_vector_extension(&"/icons/a.svg".to_string()));
    assert!(has_vector_extension(&"/icons/a.SVG".to_string()));
    assert!(has_vector_extension(&"/icons/a.SvGz".to_string()));
    assert!(!has_vector_extension(&"/icons/a.png".to_string()));
    assert!(!has_vector_extension(&"/icons/a.svgzz".to_string()));
    assert!(!has_vector_extension(&"/icons/svg".to_string()));
    assert!(!has_vector_extension(&"/icons/.svg".to_string()));
}

#[test]
fn decode_raster_gives_rgba_pixels() {
    match decode_raster(&png_pixel([255, 0, 0, 255])) {
        Some(CachedIcon::Rgba { width, height, pixels }) => {
            assert_eq!((width, height), (1, 1));
            assert_eq!(pixels, vec![255, 0, 0, 255]);
        }
        other => panic!("expected rgba, got {:?}", other),
    }
}

#[test]
fn decode_raster_of_garbage_is_nothing() {
    assert_eq!(decode_raster(b"not an image"), None);
    assert_eq!(decode_raster(&[]), None);
}

#[test]
fn vector_bytes_are_kept_as_they_are() {
    let bytes = b"<svg/>".to_vec();
    assert_eq!(icon_data_from_bytes(&"/a.svg".to_string(), bytes.clone()), Some(CachedIcon::Svg(bytes)));
}

#[test]
fn raster_bytes_are_decoded() {
    let data = icon_data_from_bytes(&"/a.png".to_string(), png_pixel([0, 1, 2, 3]));
    assert_eq!(data, Some(CachedIcon::Rgba { width: 1, height: 1, pixels: vec![0, 1, 2, 3] }));
}

#[test]
fn the_empty_path_is_never_read() {
    let read = |_: &String| -> Option<Vec<u8>> { panic!("read of the empty path") };
    assert_eq!(icon_data_from_path(&String::new(), &read), None);
}

#[test]
fn an_unreadable_file_gives_nothing() {
    let read = |_: &String| -> Option<Vec<u8>> { None };
    assert_eq!(icon_data_from_path(&"/gone.svg".to_string(), &read), None);
}

#[test]
fn handles_follow_the_payload_kind() {
    assert_eq!(
        icon_handle_from_data(CachedIcon::Raster(vec![1, 2])),
        IconHandle::Raster(RasterImage::Encoded(vec![1, 2]))
    );
    assert_eq!(
        icon_handle_from_data(CachedIcon::Rgba { width: 2, height: 3, pixels: vec![9] }),
        IconHandle::Raster(RasterImage::Rgba { width: 2, height: 3, pixels: vec![9] })
    );
    assert_eq!(icon_handle_from_data(CachedIcon::Svg(vec![7])), IconHandle::Vector(vec![7]));
}

#[test]
fn normalize_fills_a_missing_lower_title() {
    assert_eq!(record("", None, None).normalize().lower_title, "some title");
    assert_eq!(record("kept", None, None).normalize().lower_title, "kept");
}

#[test]
fn read_back_shows_fallback_for_known_absent() {
    let app: AppDescriptor = record("", Some(""), None).into_app_descriptor();
    assert_eq!(app.icon_handle, IconHandle::Fallback);
    assert_eq!(app.lower_title, "some title");
    assert_eq!(app.icon_path.as_deref(), Some(""));
}

#[test]
fn read_back_shows_not_loaded_for_unresolved() {
    assert_eq!(record("x", None, None).into_app_descriptor().icon_handle, IconHandle::NotLoaded);
    assert_eq!(record("x", Some("/a.png"), None).into_app_descriptor().icon_handle, IconHandle::NotLoaded);
}

#[test]
fn read_back_prefers_the_payload() {
    let app = record("x", Some(""), Some(CachedIcon::Svg(vec![1]))).into_app_descriptor();
    assert_eq!(app.icon_handle, IconHandle::Vector(vec![1]));
}

#[test]
fn current_shape_wins_over_legacy() {
    let legacy = LegacyRecord {
        appid: "old".to_string(),
        title: "Old".to_string(),
        lower_title: String::new(),
        command: "old".to_string(),
        exec_count: 1,
        icon_name: None,
    };
    let current = record("", Some("/a.png"), None);
    let decoded = decode_record(Some(current), Some(legacy)).expect("decoded");
    assert_eq!(decoded.appid, "id");
    assert_eq!(decoded.lower_title, "some title");
    assert_eq!(decode_record(None, None), None);
}

#[test]
fn legacy_records_have_no_icon_state() {
    let legacy = LegacyRecord {
        appid: "old".to_string(),
        title: "Old App".to_string(),
        lower_title: "custom".to_string(),
        command: "old".to_string(),
        exec_count: 4,
        icon_name: Some("old-icon".to_string()),
    };
    let decoded = CachedAppDescriptor::from_legacy(legacy);
    assert_eq!(decoded.lower_title, "custom");
    assert_eq!(decoded.exec_count, 4);
    assert_eq!(decoded.command.as_deref(), Some("old"));
    assert_eq!(decoded.icon_path, None);
    assert_eq!(decoded.icon_data, None);
}
