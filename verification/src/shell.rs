//! What the tray and the overlay chrome show and how they read the pointer: the menu
//! labels in each interface language, and which edges a resize handle moves.

use crate::text::{push_str, str_eq, to_owned};
use vstd::prelude::*;

verus! {

/// The tray menu's labels in one language.
pub struct Labels {
    pub open: &'static str,
    pub start: &'static str,
    pub end: &'static str,
    pub show_overlay: &'static str,
    pub hide_overlay: &'static str,
    pub check_update: &'static str,
    pub quit: &'static str,
}

pub struct LabelsView {
    pub open: Seq<char>,
    pub start: Seq<char>,
    pub end: Seq<char>,
    pub show_overlay: Seq<char>,
    pub hide_overlay: Seq<char>,
    pub check_update: Seq<char>,
    pub quit: Seq<char>,
}

impl View for Labels {
    type V = LabelsView;

    open spec fn view(&self) -> LabelsView {
        LabelsView {
            open: self.open@,
            start: self.start@,
            end: self.end@,
            show_overlay: self.show_overlay@,
            hide_overlay: self.hide_overlay@,
            check_update: self.check_update@,
            quit: self.quit@,
        }
    }
}

/// The labels of each tray language.
pub open spec fn spec_labels(language: Seq<char>) -> LabelsView {
    if language == "zh-Hans"@ {
        LabelsView {
            open: "设置…"@,
            start: "开始翻译"@,
            end: "停止翻译"@,
            show_overlay: "显示字幕"@,
            hide_overlay: "隐藏字幕"@,
            check_update: "检查更新"@,
            quit: "退出 OverLingo"@,
        }
    } else if language == "es"@ {
        LabelsView {
            open: "Ajustes…"@,
            start: "Iniciar traducción"@,
            end: "Detener traducción"@,
            show_overlay: "Mostrar subtítulos"@,
            hide_overlay: "Ocultar subtítulos"@,
            check_update: "Buscar actualizaciones"@,
            quit: "Salir de OverLingo"@,
        }
    } else if language == "vi"@ {
        LabelsView {
            open: "Cài đặt…"@,
            start: "Bắt đầu dịch"@,
            end: "Dừng dịch"@,
            show_overlay: "Hiện cửa sổ phụ đề"@,
            hide_overlay: "Ẩn cửa sổ phụ đề"@,
            check_update: "Kiểm tra cập nhật"@,
            quit: "Thoát OverLingo"@,
        }
    } else if language == "ja"@ {
        LabelsView {
            open: "設定…"@,
            start: "翻訳を開始"@,
            end: "翻訳を終了"@,
            show_overlay: "字幕ウィンドウを表示"@,
            hide_overlay: "字幕ウィンドウを隠す"@,
            check_update: "アップデートを確認"@,
            quit: "OverLingoを終了"@,
        }
    } else if language == "ko"@ {
        LabelsView {
            open: "설정…"@,
            start: "번역 시작"@,
            end: "번역 종료"@,
            show_overlay: "자막 창 표시"@,
            hide_overlay: "자막 창 숨기기"@,
            check_update: "업데이트 확인"@,
            quit: "OverLingo 종료"@,
        }
    } else {
        LabelsView {
            open: "Settings…"@,
            start: "Start Translation"@,
            end: "Stop Translation"@,
            show_overlay: "Show Subtitle Overlay"@,
            hide_overlay: "Hide Subtitle Overlay"@,
            check_update: "Check for Updates"@,
            quit: "Quit OverLingo"@,
        }
    }
}

/// The update item's label, with the running version.
pub fn update_label(labels: &Labels, version: &str) -> (r: String)
    ensures
        r@ == labels.check_update@ + " ("@ + version@ + ")"@,
{
    let mut out = to_owned(labels.check_update);
    push_str(&mut out, " (");
    push_str(&mut out, version);
    push_str(&mut out, ")");
    out
}

/// The languages the tray speaks; any other locale gets English.
pub open spec fn tray_language(locale: Seq<char>) -> Seq<char> {
    if locale == "zh-Hans"@ || locale == "es"@ || locale == "vi"@ || locale == "ja"@ || locale == "ko"@ {
        locale
    } else {
        "en"@
    }
}

proof fn lemma_languages_differ()
    ensures
        "es"@ != "zh-Hans"@,
        "vi"@ != "zh-Hans"@ && "vi"@ != "es"@,
        "ja"@ != "zh-Hans"@ && "ja"@ != "es"@ && "ja"@ != "vi"@,
        "ko"@ != "zh-Hans"@ && "ko"@ != "es"@ && "ko"@ != "vi"@ && "ko"@ != "ja"@,
        "en"@ != "zh-Hans"@ && "en"@ != "es"@ && "en"@ != "vi"@ && "en"@ != "ja"@ && "en"@ != "ko"@,
{
    reveal_strlit("zh-Hans");
    reveal_strlit("es");
    reveal_strlit("vi");
    reveal_strlit("ja");
    reveal_strlit("ko");
    reveal_strlit("en");
    assert("es"@.len() != "zh-Hans"@.len());
    assert("vi"@.len() != "zh-Hans"@.len() && "vi"@[0] != "es"@[0]);
    assert("ja"@.len() != "zh-Hans"@.len() && "ja"@[0] != "es"@[0] && "ja"@[0] != "vi"@[0]);
    assert("ko"@.len() != "zh-Hans"@.len() && "ko"@[0] != "es"@[0] && "ko"@[0] != "vi"@[0] && "ko"@[0] != "ja"@[0]);
    assert("en"@.len() != "zh-Hans"@.len() && "en"@[1] != "es"@[1] && "en"@[0] != "vi"@[0] && "en"@[0] != "ja"@[0] && "en"@[0] != "ko"@[0]);
}

/// The tray labels for a resolved interface locale.
pub fn labels(locale: &str) -> (r: Labels)
    ensures
        r@ == spec_labels(tray_language(locale@)),
{
    proof {
        reveal_strlit("zh-Hans");
        reveal_strlit("es");
        reveal_strlit("vi");
        reveal_strlit("ja");
        reveal_strlit("ko");
        reveal_strlit("en");
        lemma_languages_differ();
    }
    if str_eq(locale, "zh-Hans") {
        Labels {
            open: "设置…",
            start: "开始翻译",
            end: "停止翻译",
            show_overlay: "显示字幕",
            hide_overlay: "隐藏字幕",
            check_update: "检查更新",
            quit: "退出 OverLingo",
        }
    } else if str_eq(locale, "es") {
        Labels {
            open: "Ajustes…",
            start: "Iniciar traducción",
            end: "Detener traducción",
            show_overlay: "Mostrar subtítulos",
            hide_overlay: "Ocultar subtítulos",
            check_update: "Buscar actualizaciones",
            quit: "Salir de OverLingo",
        }
    } else if str_eq(locale, "vi") {
        Labels {
            open: "Cài đặt…",
            start: "Bắt đầu dịch",
            end: "Dừng dịch",
            show_overlay: "Hiện cửa sổ phụ đề",
            hide_overlay: "Ẩn cửa sổ phụ đề",
            check_update: "Kiểm tra cập nhật",
            quit: "Thoát OverLingo",
        }
    } else if str_eq(locale, "ja") {
        Labels {
            open: "設定…",
            start: "翻訳を開始",
            end: "翻訳を終了",
            show_overlay: "字幕ウィンドウを表示",
            hide_overlay: "字幕ウィンドウを隠す",
            check_update: "アップデートを確認",
            quit: "OverLingoを終了",
        }
    } else if str_eq(locale, "ko") {
        Labels {
            open: "설정…",
            start: "번역 시작",
            end: "번역 종료",
            show_overlay: "자막 창 표시",
            hide_overlay: "자막 창 숨기기",
            check_update: "업데이트 확인",
            quit: "OverLingo 종료",
        }
    } else {
        Labels {
            open: "Settings…",
            start: "Start Translation",
            end: "Stop Translation",
            show_overlay: "Show Subtitle Overlay",
            hide_overlay: "Hide Subtitle Overlay",
            check_update: "Check for Updates",
            quit: "Quit OverLingo",
        }
    }
}

/// Which edges a resize handle moves, from its name (`n`, `se`, ...).
#[derive(Clone, Copy, Debug, PartialEq, Eq, Structural)]
pub struct Edge {
    pub north: bool,
    pub south: bool,
    pub east: bool,
    pub west: bool,
}

impl Edge {
    pub fn named(name: &str) -> (r: Edge)
        ensures
            r.north == name@.contains('n'),
            r.south == name@.contains('s'),
            r.east == name@.contains('e'),
            r.west == name@.contains('w'),
    {
        Edge {
            north: has_char(name, 'n'),
            south: has_char(name, 's'),
            east: has_char(name, 'e'),
            west: has_char(name, 'w'),
        }
    }
}

fn has_char(s: &str, c: char) -> (r: bool)
    ensures
        r == s@.contains(c),
{
    let chars = crate::text::chars_of(s);
    let mut i: usize = 0;
    while i < chars.len()
        invariant
            0 <= i <= chars@.len(),
            chars@ == s@,
            forall|j: int| 0 <= j < i ==> chars@[j] != c,
        decreases chars@.len() - i,
    {
        if chars[i] == c {
            return true;
        }
        i = i + 1;
    }
    false
}

} // verus!
