use overlingo::config::resolve_locale;
use overlingo::shell::{labels, update_label, Edge};

#[test]
fn tray_labels_localizes_tray_labels() {
    assert_eq!(labels("zh-Hans").open, "设置…");
    assert_eq!(labels("en").start, "Start Translation");
    assert_eq!(labels("es").start, "Iniciar traducción");
    assert_eq!(labels("vi").quit, "Thoát OverLingo");
    assert_eq!(labels("ja").open, "設定…");
    assert_eq!(labels("ko").show_overlay, "자막 창 표시");
}

#[test]
fn tray_labels_appends_version_to_update_label() {
    assert_eq!(update_label(&labels("zh-Hans"), "0.1.0"), "检查更新 (0.1.0)");
    assert_eq!(update_label(&labels("en"), "1.2.3"), "Check for Updates (1.2.3)");
}

#[test]
fn windowing_localizes_tray_labels() {
    assert_eq!(labels("zh-Hans").open, "设置…");
    assert_eq!(labels("en").start, "Start Translation");
    assert_eq!(labels("es").start, "Iniciar traducción");
    assert_eq!(labels("vi").quit, "Thoát OverLingo");
    assert_eq!(labels("ja").open, "設定…");
    assert_eq!(labels("ko").show_overlay, "자막 창 표시");
    assert_ne!(resolve_locale("auto"), "auto");
}

#[test]
fn windowing_appends_version_to_update_label() {
    assert_eq!(update_label(&labels("zh-Hans"), "0.1.0"), "检查更新 (0.1.0)");
    assert_eq!(update_label(&labels("en"), "1.2.3"), "Check for Updates (1.2.3)");
}

#[test]
fn an_unknown_locale_gets_english_labels() {
    assert_eq!(labels("fr").quit, "Quit OverLingo");
    assert_eq!(labels("").open, "Settings…");
}

#[test]
fn a_handle_name_picks_its_edges() {
    let corner = Edge::named("se");
    assert!(corner.south && corner.east && !corner.north && !corner.west);
    let side = Edge::named("w");
    assert!(side.west && !side.east && !side.north && !side.south);
}
