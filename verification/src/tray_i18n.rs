//! Texts of the tray menu, which is drawn natively and so carries its own
//! translations: simplified Chinese (the default), English and traditional Chinese.
use vstd::prelude::*;
use crate::text::{chars_eq, chars_of};

verus! {

/// The tray menu texts.
#[derive(Debug, Clone, PartialEq, Eq)]
pub struct TrayI18n {
    pub pause_monitor: String,
    pub resume_monitor: String,
    pub disable_shortcuts: String,
    pub restore_shortcuts: String,
    pub settings: String,
    pub check_update: String,
    pub restart: String,
    pub quit: String,
    pub paused_tip: String,
}

impl TrayI18n {
    /// The texts in field order.
    pub open spec fn texts(self) -> Seq<Seq<char>> {
        seq![
            self.pause_monitor@,
            self.resume_monitor@,
            self.disable_shortcuts@,
            self.restore_shortcuts@,
            self.settings@,
            self.check_update@,
            self.restart@,
            self.quit@,
            self.paused_tip@,
        ]
    }
}

/// The English texts.
pub open spec fn english_texts() -> Seq<Seq<char>> {
    seq![
        "Pause Monitoring"@,
        "Resume Monitoring"@,
        "Disable Shortcuts"@,
        "Restore Shortcuts"@,
        "Settings"@,
        "Check for Updates"@,
        "Restart"@,
        "Quit"@,
        "ElegantClipboard (Paused)"@,
    ]
}

/// The traditional Chinese texts.
pub open spec fn traditional_chinese_texts() -> Seq<Seq<char>> {
    seq![
        "暫停監控"@,
        "恢復監控"@,
        "停用快捷鍵"@,
        "恢復快捷鍵"@,
        "設定"@,
        "檢查更新"@,
        "重新啟動"@,
        "結束程式"@,
        "ElegantClipboard（已暫停）"@,
    ]
}

/// The simplified Chinese texts.
pub open spec fn simplified_chinese_texts() -> Seq<Seq<char>> {
    seq![
        "暂停监控"@,
        "恢复监控"@,
        "禁用快捷键"@,
        "恢复快捷键"@,
        "设置"@,
        "检查更新"@,
        "重启程序"@,
        "退出程序"@,
        "ElegantClipboard (已暂停)"@,
    ]
}

/// The texts for a language setting: `en`, `zh-TW`, and simplified Chinese for
/// anything else.
pub open spec fn locale_texts(locale: Seq<char>) -> Seq<Seq<char>> {
    if locale == "en"@ {
        english_texts()
    } else if locale == "zh-TW"@ {
        traditional_chinese_texts()
    } else {
        simplified_chinese_texts()
    }
}

impl TrayI18n {
    /// The texts for the language setting `locale`; unknown languages get simplified
    /// Chinese.
    pub fn from_locale(locale: &str) -> (t: Self)
        ensures
            t.texts() == locale_texts(locale@),
    {
        let l = chars_of(locale);
        let en = chars_of("en");
        let tw = chars_of("zh-TW");
        if chars_eq(l.as_slice(), en.as_slice()) {
            let t = Self {
            pause_monitor: "Pause Monitoring".to_owned(),
            resume_monitor: "Resume Monitoring".to_owned(),
            disable_shortcuts: "Disable Shortcuts".to_owned(),
            restore_shortcuts: "Restore Shortcuts".to_owned(),
            settings: "Settings".to_owned(),
            check_update: "Check for Updates".to_owned(),
            restart: "Restart".to_owned(),
            quit: "Quit".to_owned(),
            paused_tip: "ElegantClipboard (Paused)".to_owned(),
            };
            assert(t.texts() =~= english_texts());
            t
        } else if chars_eq(l.as_slice(), tw.as_slice()) {
            let t = Self {
            pause_monitor: "暫停監控".to_owned(),
            resume_monitor: "恢復監控".to_owned(),
            disable_shortcuts: "停用快捷鍵".to_owned(),
            restore_shortcuts: "恢復快捷鍵".to_owned(),
            settings: "設定".to_owned(),
            check_update: "檢查更新".to_owned(),
            restart: "重新啟動".to_owned(),
            quit: "結束程式".to_owned(),
            paused_tip: "ElegantClipboard（已暫停）".to_owned(),
            };
            assert(t.texts() =~= traditional_chinese_texts());
            t
        } else {
            Self::zh_cn()
        }
    }

    /// The simplified Chinese texts.
    pub fn zh_cn() -> (t: Self)
        ensures
            t.texts() == simplified_chinese_texts(),
    {
        let t = Self {
        pause_monitor: "暂停监控".to_owned(),
        resume_monitor: "恢复监控".to_owned(),
        disable_shortcuts: "禁用快捷键".to_owned(),
        restore_shortcuts: "恢复快捷键".to_owned(),
        settings: "设置".to_owned(),
        check_update: "检查更新".to_owned(),
        restart: "重启程序".to_owned(),
        quit: "退出程序".to_owned(),
        paused_tip: "ElegantClipboard (已暂停)".to_owned(),
        };
        assert(t.texts() =~= simplified_chinese_texts());
        t
    }
}

/// Any language setting other than `en` and `zh-TW` gets the simplified Chinese texts.
pub proof fn lemma_unknown_locale_is_simplified_chinese(locale: Seq<char>)
    requires
        locale != "en"@,
        locale != "zh-TW"@,
    ensures
        locale_texts(locale) == simplified_chinese_texts(),
{
}

} // verus!
