use always_bind_window::i18n::{
    get_lang, lang_from_locale_values, lang_from_tag, lang_from_ui_language, lang_tag, set_lang, t,
    toggled_lang, Lang, LangSetting,
};

#[test]
fn messages_in_both_languages() {
    assert_eq!(t("app.name", Lang::En), "AlwaysBindWindow");
    assert_eq!(t("app.name", Lang::Zh), "窗口绑定助手");
    assert_eq!(t("menu.quit", Lang::Zh), "退出");
    assert_eq!(t("msg.need2", Lang::En), "Need at least 2 windows");
    assert_eq!(t("menu.lang", Lang::En), "切换到中文 (Chinese)");
    assert_eq!(t("menu.lang", Lang::Zh), "Switch to English");
    assert_eq!(t("hk_dlg.title", Lang::Zh), t("menu.hotkey_settings", Lang::Zh));
}

#[test]
fn unknown_key_gives_question_marks() {
    assert_eq!(t("no.such.key", Lang::En), "???");
    assert_eq!(t("", Lang::Zh), "???");
}

#[test]
fn every_key_has_a_text() {
    let keys = [
        "app.name", "app.ready", "hk.bind", "hk.unbind_cursor", "hk.unbind_all", "menu.bind",
        "menu.unbind_cursor", "menu.unbind_all", "menu.lang", "menu.quit", "overlay.hint",
        "overlay.selecting", "menu.hotkey_settings", "hk_dlg.title", "hk_dlg.bind_label",
        "hk_dlg.unbind_cursor_label", "hk_dlg.unbind_all_label", "hk_dlg.hint", "hk_dlg.save",
        "hk_dlg.cancel", "hk_dlg.reset", "hk_dlg.saved", "hk_dlg.invalid", "hk_dlg.recording",
        "msg.bound", "msg.windows", "msg.unbound_group", "msg.unbound_all", "msg.no_group",
        "msg.cancelled", "msg.need2",
    ];
    for k in keys {
        assert_ne!(t(k, Lang::En), "???", "{}", k);
        assert_ne!(t(k, Lang::Zh), "???", "{}", k);
    }
}

#[test]
fn language_reads_back_as_set() {
    let mut s = LangSetting::new();
    assert_eq!(get_lang(&s), Lang::En);
    set_lang(&mut s, Lang::Zh);
    assert_eq!(get_lang(&s), Lang::Zh);
    set_lang(&mut s, Lang::En);
    assert_eq!(get_lang(&s), Lang::En);
    let other = LangSetting { code: 7 };
    assert_eq!(get_lang(&other), Lang::En);
}

#[test]
fn toggling_and_tags() {
    assert_eq!(toggled_lang(Lang::En), Lang::Zh);
    assert_eq!(toggled_lang(toggled_lang(Lang::Zh)), Lang::Zh);
    assert_eq!(lang_tag(Lang::Zh), "zh");
    assert_eq!(lang_from_tag(lang_tag(Lang::En)), Some(Lang::En));
    assert_eq!(lang_from_tag("auto"), None);
    assert_eq!(lang_from_tag("ZH"), None);
}

#[test]
fn system_language_detection() {
    assert_eq!(lang_from_ui_language(0x0804), Lang::Zh);
    assert_eq!(lang_from_ui_language(0x0404), Lang::Zh);
    assert_eq!(lang_from_ui_language(0x0409), Lang::En);
    assert_eq!(lang_from_locale_values(&vec!["en_US.UTF-8".to_string(), "ZH_CN.UTF-8".to_string()]), Lang::Zh);
    assert_eq!(lang_from_locale_values(&vec!["en_US.UTF-8".to_string()]), Lang::En);
    assert_eq!(lang_from_locale_values(&vec!["C.zh".to_string()]), Lang::En);
    assert_eq!(lang_from_locale_values(&Vec::new()), Lang::En);
}

#[test]
fn every_known_key_is_translated() {
    let keys = ["app.name", "app.ready", "hk.bind", "hk.unbind_cursor", "hk.unbind_all", "menu.bind", "menu.unbind_cursor", "menu.unbind_all", "menu.lang", "menu.quit", "overlay.hint", "overlay.selecting", "menu.hotkey_settings", "hk_dlg.title", "hk_dlg.bind_label", "hk_dlg.unbind_cursor_label", "hk_dlg.unbind_all_label", "hk_dlg.hint", "hk_dlg.save", "hk_dlg.cancel", "hk_dlg.reset", "hk_dlg.saved", "hk_dlg.invalid", "hk_dlg.recording", "msg.bound", "msg.windows", "msg.unbound_group", "msg.unbound_all", "msg.no_group", "msg.cancelled", "msg.need2"];
    for k in keys {
        let en = t(k, Lang::En);
        let zh = t(k, Lang::Zh);
        assert_ne!(en, "???", "{}", k);
        assert_ne!(zh, "???", "{}", k);
        assert_ne!(en, zh, "{}", k);
    }
    assert_eq!(t("menu.missing", Lang::En), "???");
    assert_eq!(t("menu.missing", Lang::Zh), "???");
}
