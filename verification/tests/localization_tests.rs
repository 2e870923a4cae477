use car_logger::localization::{translate_for_language, Language};

#[test]
fn parses_supported_locales() {
    assert_eq!(Language::from_locale("ja_JP.UTF-8"), Language::Japanese);
    assert_eq!(Language::from_locale("es_ES.UTF-8"), Language::Spanish);
    assert_eq!(Language::from_locale("en_US.UTF-8"), Language::English);
}

#[test]
fn translates_known_messages() {
    assert_eq!(translate_for_language(Language::Japanese, "Settings"), "設定");
    assert_eq!(translate_for_language(Language::Spanish, "Language"), "Idioma");
    assert_eq!(translate_for_language(Language::Japanese, "Data Charts"), "データチャート");
    assert_eq!(translate_for_language(Language::Spanish, "Compare"), "Comparar");
    assert_eq!(translate_for_language(Language::Japanese, "Unknown"), "Unknown");
}

#[test]
fn english_and_unknown_texts_pass_through() {
    assert_eq!(translate_for_language(Language::English, "Settings"), "Settings");
    assert_eq!(translate_for_language(Language::Spanish, "Vehicle health"), "Vehicle health");
    assert_eq!(
        translate_for_language(Language::Japanese, "Some changes might require restart."),
        "一部の変更を適用するには再起動が必要な場合があります。"
    );
}

#[test]
fn combo_ids_and_locales_round_trip() {
    for language in [Language::English, Language::Japanese, Language::Spanish] {
        assert_eq!(Language::from_combo_id(language.combo_id()), language);
        assert_eq!(Language::from_locale(language.locale()), language);
    }
    assert_eq!(Language::from_combo_id("fr"), Language::English);
    assert_eq!(Language::from_locale("JA"), Language::Japanese);
    assert_eq!(Language::from_locale("C"), Language::English);
}
