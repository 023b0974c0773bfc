use jts_core::content::content_kind_for_path;
use jts_core::content::ends_with_bytes;
use jts_core::ContentKind;

#[test]
fn script_paths_get_script_kind() {
    assert_eq!(content_kind_for_path(&b"/common.js".to_vec()), ContentKind::Script);
    assert_eq!(content_kind_for_path(&b"/jts_player.js".to_vec()), ContentKind::Script);
}

#[test]
fn wasm_paths_get_wasm_kind() {
    assert_eq!(content_kind_for_path(&b"/stream_decoder.wasm".to_vec()), ContentKind::Wasm);
}

#[test]
fn html_paths_get_html_kind() {
    assert_eq!(content_kind_for_path(&b"/web_av_app.html".to_vec()), ContentKind::Html);
}

#[test]
fn icon_paths_get_icon_kind() {
    assert_eq!(content_kind_for_path(&b"/favicon.ico".to_vec()), ContentKind::Icon);
}

#[test]
fn unmatched_paths_default_to_html() {
    assert_eq!(content_kind_for_path(&b"/".to_vec()), ContentKind::Html);
    assert_eq!(content_kind_for_path(&b"/unknown.bin".to_vec()), ContentKind::Html);
    assert_eq!(content_kind_for_path(&b"".to_vec()), ContentKind::Html);
}

#[test]
fn suffix_check_is_exact() {
    assert!(ends_with_bytes(&b"abc.js".to_vec(), &b"js".to_vec()));
    assert!(!ends_with_bytes(&b"abc.jsx".to_vec(), &b"js".to_vec()));
    assert!(!ends_with_bytes(&b"j".to_vec(), &b"js".to_vec()));
    assert!(ends_with_bytes(&b"js".to_vec(), &b"js".to_vec()));
}
