use spotifast::i18n::Locale;
use spotifast::theme::{
    catalog_detail, desktop_themes_allowed, hook_upgrade_is_due, CatalogStatus, Color, Palette,
};

#[test]
fn palettes_hold_their_base_colours() {
    let dark = Palette::dark();
    assert!(dark.dark);
    assert_eq!(dark.accent, Color::from_rgb(0x1e, 0xd7, 0x60));
    assert_eq!(dark.shadow, Color { r: 0, g: 0, b: 0, a: 140 });
    let light = Palette::light();
    assert!(!light.dark);
    assert_eq!(light.on_accent, Color { r: 255, g: 255, b: 255, a: 255 });
    assert_eq!(Palette::base(true), dark);
    assert_eq!(Palette::base(false), light);
}

#[test]
fn palette_files_set_colours_by_name() {
    let accent = Color::from_rgb(0x8c, 0x3f, 0xa5);
    let mut palette = Palette::light();
    assert!(palette.set("accent", accent));
    assert_eq!(palette.accent, accent);
    let before = palette;
    assert!(!palette.set("typo", accent));
    assert_eq!(palette, before);
    for name in [
        "window", "panel", "surface", "surface_hover", "surface_active", "outline", "text",
        "secondary", "dim", "accent", "accent_hover", "on_accent", "danger", "warning", "overlay",
        "shadow",
    ] {
        let mut p = Palette::dark();
        assert!(p.set(name, accent), "{name}");
        assert_ne!(p, Palette::dark(), "{name}");
    }
}

#[test]
fn every_catalog_problem_has_a_sentence() {
    assert_eq!(catalog_detail(None, Locale::English), "");
    for status in [
        CatalogStatus::Loading,
        CatalogStatus::SelectedUnavailable,
        CatalogStatus::Unreadable,
        CatalogStatus::TooManyEntries,
        CatalogStatus::TooManyThemes,
        CatalogStatus::OmarchyUnreadable,
        CatalogStatus::OtherProblem,
    ] {
        assert!(!catalog_detail(Some(status), Locale::German).is_empty());
    }
    assert!(catalog_detail(Some(CatalogStatus::SelectedUnavailable), Locale::English).contains("last usable"));
    assert_eq!(catalog_detail(Some(CatalogStatus::Loading), Locale::English), "Loading local themes…");
}

#[test]
fn only_the_exact_fastpotify_hook_is_upgraded() {
    let hook = "#!/bin/sh\ncp \"$1\" ~/.config/spotifast/themes/omarchy.json\n";
    let legacy = "#!/bin/sh\ncp \"$1\" ~/.config/fastpotify/themes/omarchy.json\n";
    assert!(hook_upgrade_is_due(hook, legacy));
    assert!(!hook_upgrade_is_due(hook, hook));
    assert!(!hook_upgrade_is_due(hook, "user hook"));
}

#[test]
fn the_legacy_profile_keeps_its_own_themes() {
    let legacy = "/home/u/.config/fastpotify";
    assert!(!desktop_themes_allowed("/home/u/.config/fastpotify/themes", legacy));
    assert!(!desktop_themes_allowed("/home/u/.config//fastpotify/themes/", legacy));
    assert!(!desktop_themes_allowed("/home/u/.config/fastpotify/./themes", legacy));
    assert!(desktop_themes_allowed("/home/u/.config/spotifast/themes", legacy));
    assert!(desktop_themes_allowed("/home/u/.config/fastpotify/themes/x", legacy));
}

#[test]
fn palette_files_set_every_base_colour() {
    let base_colors = [
        "window",
        "panel",
        "surface",
        "surface_hover",
        "surface_active",
        "outline",
        "text",
        "secondary",
        "dim",
        "accent",
        "accent_hover",
        "on_accent",
        "danger",
        "warning",
        "overlay",
        "shadow",
    ];
    for name in base_colors {
        let mut palette = Palette::dark();
        assert!(palette.set(name, Color::from_rgb(1, 2, 3)), "{name}");
        assert_ne!(palette, Palette::dark(), "{name}");
    }
    assert!(!Palette::dark().set("typo", Color::from_rgb(255, 0, 0)));
    // A palette file with base "light" and one colour.
    let mut light = Palette::base(false);
    assert!(light.set("accent", Color::from_rgb(0x8c, 0x3f, 0xa5)));
    assert!(!light.dark);
    assert_eq!(light.accent, Color::from_rgb(140, 63, 165));
    assert_eq!(light.window, Palette::light().window);
}

#[test]
fn an_updater_trial_of_the_legacy_profile_leaves_the_desktop_alone() {
    let legacy_config = "/home/u/.config/fastpotify";
    let config = "/home/u/.config/spotifast";
    assert!(!desktop_themes_allowed("/home/u/.config/fastpotify/themes", legacy_config));
    assert!(desktop_themes_allowed("/home/u/.config/spotifast/themes", legacy_config));
    assert!(desktop_themes_allowed(&format!("{config}/themes"), legacy_config));
}
