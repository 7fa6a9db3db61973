use geese::i18n::I18nError;
use geese::i18n::Locale;
use geese::i18n::LocalizationManager;

fn make_manager() -> LocalizationManager {
    let mut mgr = LocalizationManager::new();
    mgr.load_locale_from_str("en", r#"{"greeting": "Hello", "farewell": "Goodbye", "welcome": "Welcome {name} to {place}"}"#).unwrap();
    mgr.load_locale_from_str(
        "zh-CN",
        r#"{"greeting": "你好", "farewell": "再见", "welcome": "欢迎 {name} 来到 {place}"}"#,
    )
    .unwrap();
    mgr.set_locale("en").unwrap();
    mgr
}

#[test]
fn test_load_and_available_locales() {
    let mgr = make_manager();
    let mut locales = mgr.available_locales();
    locales.sort();
    assert_eq!(locales, vec!["en", "zh-CN"]);
}

#[test]
fn test_set_locale_and_tr() {
    let mut mgr = make_manager();
    assert_eq!(mgr.tr("greeting"), "Hello");

    mgr.set_locale("zh-CN").unwrap();
    assert_eq!(mgr.tr("greeting"), "你好");
    assert_eq!(mgr.current_locale(), "zh-CN");
}

#[test]
fn test_tr_missing_key_returns_key() {
    let mgr = make_manager();
    assert_eq!(mgr.tr("nonexistent_key"), "nonexistent_key");
}

#[test]
fn test_tr_with_fallback() {
    let mgr = make_manager();
    assert_eq!(mgr.tr_with_fallback("greeting", "Hi"), "Hello");
    assert_eq!(mgr.tr_with_fallback("missing_key", "fallback text"), "fallback text");
}

#[test]
fn test_tr_format_parameter_substitution() {
    let mgr = make_manager();
    let result = mgr.tr_format("welcome", &[("name", "Alice"), ("place", "Wonderland")]);
    assert_eq!(result, "Welcome Alice to Wonderland");
}

#[test]
fn test_tr_format_chinese() {
    let mut mgr = make_manager();
    mgr.set_locale("zh-CN").unwrap();
    let result = mgr.tr_format("welcome", &[("name", "小明"), ("place", "北京")]);
    assert_eq!(result, "欢迎 小明 来到 北京");
}

#[test]
fn test_set_locale_not_loaded() {
    let mut mgr = LocalizationManager::new();
    let err = mgr.set_locale("fr").unwrap_err();
    assert!(matches!(err, I18nError::LocaleNotLoaded(_)));
}

#[test]
fn test_has_locale() {
    let mgr = make_manager();
    assert!(mgr.has_locale("en"));
    assert!(!mgr.has_locale("fr"));
}

#[test]
fn test_locale_struct() {
    let locale = Locale::new("ja");
    assert_eq!(locale.id(), "ja");
    let locale2: Locale = "en".into();
    assert_eq!(locale2.id(), "en");
}

#[test]
fn available_locales_are_sorted_without_sorting_again() {
    let mut mgr = LocalizationManager::new();
    mgr.load_locale_from_str("zh-CN", "{}").unwrap();
    mgr.load_locale_from_str("de", "{}").unwrap();
    mgr.load_locale_from_str("en", "{}").unwrap();
    mgr.load_locale_from_str("de", r#"{"a": "b"}"#).unwrap();
    assert_eq!(mgr.available_locales(), vec!["de", "en", "zh-CN"]);
}

#[test]
fn reloading_a_locale_replaces_its_table() {
    let mut mgr = make_manager();
    mgr.load_locale_from_str("en", r#"{"greeting": "Hey"}"#).unwrap();
    assert_eq!(mgr.tr("greeting"), "Hey");
    assert_eq!(mgr.tr("farewell"), "farewell");
    assert_eq!(mgr.current_locale(), "en");
}

#[test]
fn bad_json_is_a_parse_error_and_changes_nothing() {
    let mut mgr = make_manager();
    let err = mgr.load_locale_from_str("fr", "{not json").unwrap_err();
    match err {
        I18nError::ParseError { locale, .. } => assert_eq!(locale, "fr"),
        _ => panic!("expected a parse error"),
    }
    assert!(!mgr.has_locale("fr"));
    assert_eq!(mgr.available_locales(), vec!["en", "zh-CN"]);
}

#[test]
fn no_locale_set_translates_to_key() {
    let mut mgr = LocalizationManager::new();
    mgr.load_locale_from_str("en", r#"{"greeting": "Hello"}"#).unwrap();
    assert_eq!(mgr.current_locale(), "");
    assert_eq!(mgr.tr("greeting"), "greeting");
    assert_eq!(mgr.tr_with_fallback("greeting", "fb"), "fb");
}

#[test]
fn format_replaces_every_occurrence_and_keeps_unknown_placeholders() {
    let mut mgr = LocalizationManager::new();
    mgr.load_locale_from_str("en", r#"{"echo": "{x}-{x}-{y}"}"#).unwrap();
    mgr.set_locale("en").unwrap();
    assert_eq!(mgr.tr_format("echo", &[("x", "1")]), "1-1-{y}");
    assert_eq!(mgr.tr_format("echo", &[]), "{x}-{x}-{y}");
    assert_eq!(mgr.tr_format("echo", &[("x", "{y}"), ("y", "2")]), "2-2-2");
    assert_eq!(mgr.tr_format("missing", &[("x", "1")]), "missing");
}

#[test]
fn default_manager_is_empty() {
    let mgr = LocalizationManager::default();
    assert!(mgr.available_locales().is_empty());
    assert_eq!(mgr.current_locale(), "");
}

#[test]
fn load_locale_table_stores_and_replaces() {
    let mut mgr = LocalizationManager::new();
    mgr.load_locale_table("fr", vec![("greeting".to_string(), "Bonjour".to_string())]);
    mgr.set_locale("fr").unwrap();
    assert_eq!(mgr.tr("greeting"), "Bonjour");
    mgr.load_locale_table("fr", vec![("farewell".to_string(), "Au revoir".to_string())]);
    assert_eq!(mgr.tr("farewell"), "Au revoir");
    assert_eq!(mgr.tr("greeting"), "greeting");
}
