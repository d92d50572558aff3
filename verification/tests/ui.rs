use lab_suite::config::Config;
use lab_suite::i18n::Lang;
use lab_suite::theme::Theme;

#[test]
fn default_config_is_nature_in_portuguese() {
    let c = Config::default();
    assert_eq!(c, Config { theme: Theme::Nature, lang: Lang::Pt });
}

#[test]
fn themes_and_palettes() {
    let all = Theme::all();
    assert_eq!(all.len(), 5);
    assert_eq!(Theme::DarkBlue.label(), "DarkBlue");
    assert_eq!(Theme::CalmGreen.palette().grid().a, 18);
    assert_eq!(Theme::Nature.palette().grid().a, 50);
}
