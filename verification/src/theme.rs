//! The colour palettes, the status line under the Theme setting, and the
//! check that decides whether an old Omarchy theme hook is upgraded.

use vstd::prelude::*;

use crate::i18n::{gettext, translation, Locale};
use crate::paths::{join, join_path, path_equal, same_path};
use crate::text::{chars_of, replace_all, replace_text, same_text};

verus! {

/// A colour with premultiplied alpha, as the interface stores it.
#[derive(Clone, Copy, Debug, PartialEq, Eq, Structural)]
pub struct Color {
    pub r: u8,
    pub g: u8,
    pub b: u8,
    pub a: u8,
}

/// An opaque colour.
pub open spec fn rgb(r: u8, g: u8, b: u8) -> Color {
    Color { r, g, b, a: 255 }
}

/// Black at the given opacity.
pub open spec fn black_alpha(a: u8) -> Color {
    Color { r: 0, g: 0, b: 0, a }
}

impl Color {
    /// An opaque colour.
    pub fn from_rgb(r: u8, g: u8, b: u8) -> (c: Self)
        ensures
            c == rgb(r, g, b),
    {
        Color { r, g, b, a: 255 }
    }

    /// Black at the given opacity.
    pub fn from_black_alpha(a: u8) -> (c: Self)
        ensures
            c == black_alpha(a),
    {
        Color { r: 0, g: 0, b: 0, a }
    }
}

/// The colours of the interface, for a dark or a light base.
#[derive(Clone, Copy, Debug, PartialEq, Eq, Structural)]
pub struct Palette {
    pub dark: bool,
    pub window: Color,
    pub panel: Color,
    pub surface: Color,
    pub surface_hover: Color,
    pub surface_active: Color,
    pub outline: Color,
    pub text: Color,
    pub secondary: Color,
    pub dim: Color,
    pub accent: Color,
    pub accent_hover: Color,
    pub on_accent: Color,
    pub danger: Color,
    pub warning: Color,
    pub overlay: Color,
    pub shadow: Color,
}

/// The dark palette.
pub open spec fn dark_palette() -> Palette {
    Palette {
        dark: true,
        window: rgb(0x0f, 0x11, 0x14),
        panel: rgb(0x15, 0x18, 0x1c),
        surface: rgb(0x1d, 0x21, 0x27),
        surface_hover: rgb(0x26, 0x2b, 0x33),
        surface_active: rgb(0x2f, 0x35, 0x3f),
        outline: rgb(0x2a, 0x30, 0x38),
        text: rgb(0xf2, 0xf4, 0xf6),
        secondary: rgb(0xa9, 0xb1, 0xbc),
        dim: rgb(0x6e, 0x77, 0x84),
        accent: rgb(0x1e, 0xd7, 0x60),
        accent_hover: rgb(0x3c, 0xe8, 0x7a),
        on_accent: rgb(0x0a, 0x14, 0x0e),
        danger: rgb(0xf5, 0x71, 0x7f),
        warning: rgb(0xf2, 0xb8, 0x5c),
        overlay: rgb(0x22, 0x27, 0x2e),
        shadow: black_alpha(140),
    }
}

/// The light palette.
pub open spec fn light_palette() -> Palette {
    Palette {
        dark: false,
        window: rgb(0xf8, 0xf9, 0xfb),
        panel: rgb(0xff, 0xff, 0xff),
        surface: rgb(0xee, 0xf0, 0xf3),
        surface_hover: rgb(0xe3, 0xe6, 0xeb),
        surface_active: rgb(0xd7, 0xdb, 0xe1),
        outline: rgb(0xdd, 0xe1, 0xe6),
        text: rgb(0x14, 0x17, 0x1a),
        secondary: rgb(0x53, 0x5b, 0x66),
        dim: rgb(0x8b, 0x93, 0x9e),
        accent: rgb(0x15, 0xa6, 0x4a),
        accent_hover: rgb(0x12, 0x8f, 0x40),
        on_accent: rgb(0xff, 0xff, 0xff),
        danger: rgb(0xd6, 0x3b, 0x4c),
        warning: rgb(0xb8, 0x7a, 0x14),
        overlay: rgb(0xff, 0xff, 0xff),
        shadow: black_alpha(50),
    }
}

/// The names of the colours a palette file may set.
pub open spec fn colour_names() -> Seq<Seq<char>> {
    seq![
        "window"@,
        "panel"@,
        "surface"@,
        "surface_hover"@,
        "surface_active"@,
        "outline"@,
        "text"@,
        "secondary"@,
        "dim"@,
        "accent"@,
        "accent_hover"@,
        "on_accent"@,
        "danger"@,
        "warning"@,
        "overlay"@,
        "shadow"@,
    ]
}

/// `p` with the colour called `name` set to `c`; unchanged for a name that
/// is not one of its colours.
pub open spec fn with_colour(p: Palette, name: Seq<char>, c: Color) -> Palette {
    if name == "window"@ {
        Palette { window: c, ..p }
    } else if name == "panel"@ {
        Palette { panel: c, ..p }
    } else if name == "surface"@ {
        Palette { surface: c, ..p }
    } else if name == "surface_hover"@ {
        Palette { surface_hover: c, ..p }
    } else if name == "surface_active"@ {
        Palette { surface_active: c, ..p }
    } else if name == "outline"@ {
        Palette { outline: c, ..p }
    } else if name == "text"@ {
        Palette { text: c, ..p }
    } else if name == "secondary"@ {
        Palette { secondary: c, ..p }
    } else if name == "dim"@ {
        Palette { dim: c, ..p }
    } else if name == "accent"@ {
        Palette { accent: c, ..p }
    } else if name == "accent_hover"@ {
        Palette { accent_hover: c, ..p }
    } else if name == "on_accent"@ {
        Palette { on_accent: c, ..p }
    } else if name == "danger"@ {
        Palette { danger: c, ..p }
    } else if name == "warning"@ {
        Palette { warning: c, ..p }
    } else if name == "overlay"@ {
        Palette { overlay: c, ..p }
    } else if name == "shadow"@ {
        Palette { shadow: c, ..p }
    } else {
        p
    }
}

impl Palette {
    /// The dark palette.
    pub fn dark() -> (p: Self)
        ensures
            p == dark_palette(),
    {
        Palette {
            dark: true,
            window: Color::from_rgb(0x0f, 0x11, 0x14),
            panel: Color::from_rgb(0x15, 0x18, 0x1c),
            surface: Color::from_rgb(0x1d, 0x21, 0x27),
            surface_hover: Color::from_rgb(0x26, 0x2b, 0x33),
            surface_active: Color::from_rgb(0x2f, 0x35, 0x3f),
            outline: Color::from_rgb(0x2a, 0x30, 0x38),
            text: Color::from_rgb(0xf2, 0xf4, 0xf6),
            secondary: Color::from_rgb(0xa9, 0xb1, 0xbc),
            dim: Color::from_rgb(0x6e, 0x77, 0x84),
            accent: Color::from_rgb(0x1e, 0xd7, 0x60),
            accent_hover: Color::from_rgb(0x3c, 0xe8, 0x7a),
            on_accent: Color::from_rgb(0x0a, 0x14, 0x0e),
            danger: Color::from_rgb(0xf5, 0x71, 0x7f),
            warning: Color::from_rgb(0xf2, 0xb8, 0x5c),
            overlay: Color::from_rgb(0x22, 0x27, 0x2e),
            shadow: Color::from_black_alpha(140),
        }
    }

    /// The light palette.
    pub fn light() -> (p: Self)
        ensures
            p == light_palette(),
    {
        Palette {
            dark: false,
            window: Color::from_rgb(0xf8, 0xf9, 0xfb),
            panel: Color::from_rgb(0xff, 0xff, 0xff),
            surface: Color::from_rgb(0xee, 0xf0, 0xf3),
            surface_hover: Color::from_rgb(0xe3, 0xe6, 0xeb),
            surface_active: Color::from_rgb(0xd7, 0xdb, 0xe1),
            outline: Color::from_rgb(0xdd, 0xe1, 0xe6),
            text: Color::from_rgb(0x14, 0x17, 0x1a),
            secondary: Color::from_rgb(0x53, 0x5b, 0x66),
            dim: Color::from_rgb(0x8b, 0x93, 0x9e),
            accent: Color::from_rgb(0x15, 0xa6, 0x4a),
            accent_hover: Color::from_rgb(0x12, 0x8f, 0x40),
            on_accent: Color::from_rgb(0xff, 0xff, 0xff),
            danger: Color::from_rgb(0xd6, 0x3b, 0x4c),
            warning: Color::from_rgb(0xb8, 0x7a, 0x14),
            overlay: Color::from_rgb(0xff, 0xff, 0xff),
            shadow: Color::from_black_alpha(50),
        }
    }

    /// The palette a palette file starts from.
    pub fn base(dark: bool) -> (p: Self)
        ensures
            p == if dark {
                dark_palette()
            } else {
                light_palette()
            },
    {
        if dark {
            Self::dark()
        } else {
            Self::light()
        }
    }

    /// Sets the colour a palette file names; whether the name is one of
    /// the palette's colours.
    pub fn set(&mut self, name: &str, color: Color) -> (known: bool)
        ensures
            known == colour_names().contains(name@),
            *final(self) == with_colour(*old(self), name@, color),
    {
        proof {
            let names = colour_names();
            assert(names[0] == "window"@ && names[1] == "panel"@ && names[2] == "surface"@ && names[3]
                == "surface_hover"@ && names[4] == "surface_active"@ && names[5] == "outline"@
                && names[6] == "text"@ && names[7] == "secondary"@ && names[8] == "dim"@ && names[9]
                == "accent"@ && names[10] == "accent_hover"@ && names[11] == "on_accent"@ && names[12]
                == "danger"@ && names[13] == "warning"@ && names[14] == "overlay"@ && names[15]
                == "shadow"@);
        }
        if same_text(name, "window") {
            self.window = color;
        } else if same_text(name, "panel") {
            self.panel = color;
        } else if same_text(name, "surface") {
            self.surface = color;
        } else if same_text(name, "surface_hover") {
            self.surface_hover = color;
        } else if same_text(name, "surface_active") {
            self.surface_active = color;
        } else if same_text(name, "outline") {
            self.outline = color;
        } else if same_text(name, "text") {
            self.text = color;
        } else if same_text(name, "secondary") {
            self.secondary = color;
        } else if same_text(name, "dim") {
            self.dim = color;
        } else if same_text(name, "accent") {
            self.accent = color;
        } else if same_text(name, "accent_hover") {
            self.accent_hover = color;
        } else if same_text(name, "on_accent") {
            self.on_accent = color;
        } else if same_text(name, "danger") {
            self.danger = color;
        } else if same_text(name, "warning") {
            self.warning = color;
        } else if same_text(name, "overlay") {
            self.overlay = color;
        } else if same_text(name, "shadow") {
            self.shadow = color;
        } else {
            proof {
                assert(!colour_names().contains(name@));
            }
            return false;
        }
        true
    }
}

/// The colour of `p` called `name`, if it has one by that name.
pub open spec fn colour_named(p: Palette, name: Seq<char>) -> Option<Color> {
    if name == "window"@ {
        Some(p.window)
    } else if name == "panel"@ {
        Some(p.panel)
    } else if name == "surface"@ {
        Some(p.surface)
    } else if name == "surface_hover"@ {
        Some(p.surface_hover)
    } else if name == "surface_active"@ {
        Some(p.surface_active)
    } else if name == "outline"@ {
        Some(p.outline)
    } else if name == "text"@ {
        Some(p.text)
    } else if name == "secondary"@ {
        Some(p.secondary)
    } else if name == "dim"@ {
        Some(p.dim)
    } else if name == "accent"@ {
        Some(p.accent)
    } else if name == "accent_hover"@ {
        Some(p.accent_hover)
    } else if name == "on_accent"@ {
        Some(p.on_accent)
    } else if name == "danger"@ {
        Some(p.danger)
    } else if name == "warning"@ {
        Some(p.warning)
    } else if name == "overlay"@ {
        Some(p.overlay)
    } else if name == "shadow"@ {
        Some(p.shadow)
    } else {
        None
    }
}

/// Setting a colour by name gives that colour back under its name and
/// leaves every other colour, and the base, as it was; an unknown name
/// changes nothing.
pub proof fn setting_a_colour_reads_back(p: Palette, name: Seq<char>, other: Seq<char>, c: Color)
    ensures
        colour_named(p, name) is Some ==> colour_named(with_colour(p, name, c), name) == Some(c),
        colour_named(p, name) is None ==> with_colour(p, name, c) == p,
        other != name ==> colour_named(with_colour(p, name, c), other) == colour_named(p, other),
        with_colour(p, name, c).dark == p.dark,
{
    reveal_strlit("window");
    reveal_strlit("panel");
    reveal_strlit("surface");
    reveal_strlit("surface_hover");
    reveal_strlit("surface_active");
    reveal_strlit("outline");
    reveal_strlit("text");
    reveal_strlit("secondary");
    reveal_strlit("dim");
    reveal_strlit("accent");
    reveal_strlit("accent_hover");
    reveal_strlit("on_accent");
    reveal_strlit("danger");
    reveal_strlit("warning");
    reveal_strlit("overlay");
    reveal_strlit("shadow");
}

/// Where loading the theme catalog stands, when it has something to say.
#[derive(Clone, Copy, Debug, PartialEq, Eq, Structural)]
pub enum CatalogStatus {
    Loading,
    SelectedUnavailable,
    Unreadable,
    TooManyEntries,
    TooManyThemes,
    OmarchyUnreadable,
    /// Any other problem loading custom themes.
    OtherProblem,
}

/// The English sentence for a catalog status.
pub open spec fn status_sentence(status: CatalogStatus) -> Seq<char> {
    match status {
        CatalogStatus::Loading => "Loading local themes…"@,
        CatalogStatus::SelectedUnavailable =>
            "The selected theme is unavailable. Keeping the last usable appearance. See the log for details."@,
        CatalogStatus::Unreadable => "The themes folder could not be read. See the log for details."@,
        CatalogStatus::TooManyEntries =>
            "The themes folder has more than 512 entries. Keep fewer files there to list the custom palettes."@,
        CatalogStatus::TooManyThemes =>
            "Only 128 custom palettes can be listed. Keep fewer JSON files in the themes folder to see the rest."@,
        CatalogStatus::OmarchyUnreadable =>
            "The Omarchy palette could not be loaded. Keeping the last usable appearance. See the log for details."@,
        CatalogStatus::OtherProblem =>
            "Custom themes could not be loaded. Run spotifast reload-themes to try again."@,
    }
}

fn sentence(status: CatalogStatus) -> (s: &'static str)
    ensures
        s@ == status_sentence(status),
{
    match status {
        CatalogStatus::Loading => "Loading local themes…",
        CatalogStatus::SelectedUnavailable =>
            "The selected theme is unavailable. Keeping the last usable appearance. See the log for details.",
        CatalogStatus::Unreadable => "The themes folder could not be read. See the log for details.",
        CatalogStatus::TooManyEntries =>
            "The themes folder has more than 512 entries. Keep fewer files there to list the custom palettes.",
        CatalogStatus::TooManyThemes =>
            "Only 128 custom palettes can be listed. Keep fewer JSON files in the themes folder to see the rest.",
        CatalogStatus::OmarchyUnreadable =>
            "The Omarchy palette could not be loaded. Keeping the last usable appearance. See the log for details.",
        CatalogStatus::OtherProblem =>
            "Custom themes could not be loaded. Run spotifast reload-themes to try again.",
    }
}

/// The status line under the Theme setting, empty when all is well.
pub fn catalog_detail(status: Option<CatalogStatus>, locale: Locale) -> (line: String)
    ensures
        line@ == match status {
            Some(s) => translation(locale, None, status_sentence(s)),
            None => Seq::<char>::empty(),
        },
{
    match status {
        Some(s) => gettext(locale, sentence(s)),
        None => String::new(),
    }
}

/// The hook a Fastpotify-era package installed: the packaged one with the
/// palettes copied into the old folder.
pub open spec fn legacy_hook(packaged: Seq<char>) -> Seq<char> {
    replace_all(packaged, "/spotifast/themes"@, "/fastpotify/themes"@)
}

/// Whether the installed Omarchy hook is exactly the one a Fastpotify-era
/// package installed, and so is replaced by the packaged one; a hook the
/// user edited is left alone.
pub fn hook_upgrade_is_due(packaged: &str, installed: &str) -> (due: bool)
    ensures
        due == (installed@ == legacy_hook(packaged@)),
{
    proof {
        reveal_strlit("/spotifast/themes");
    }
    let previous = replace_text(&chars_of(packaged), &chars_of("/spotifast/themes"), &chars_of("/fastpotify/themes"));
    let installed_chars = chars_of(installed);
    if previous.len() != installed_chars.len() {
        return false;
    }
    let mut i: usize = 0;
    while i < previous.len()
        invariant
            previous.len() == installed_chars.len(),
            previous@ == legacy_hook(packaged@),
            installed_chars@ == installed@,
            i <= previous.len(),
            forall|j: int| 0 <= j < i ==> previous@[j] == installed_chars@[j],
        decreases previous.len() - i,
    {
        if previous[i] != installed_chars[i] {
            assert(previous@[i as int] != installed_chars@[i as int]);
            return false;
        }
        i += 1;
    }
    assert(previous@ =~= installed_chars@);
    true
}

/// Whether a launch may follow the desktop's themes with the themes folder
/// `themes`: not when it is the legacy profile's, under `legacy_config`. An
/// updater trial of the legacy profile keeps the old hook and profile
/// together until the update is accepted.
pub fn desktop_themes_allowed(themes: &str, legacy_config: &str) -> (allowed: bool)
    ensures
        allowed == !path_equal(themes@, join_path(legacy_config@, "themes"@)),
{
    let legacy_themes = join(legacy_config, "themes");
    !same_path(themes, legacy_themes.as_str())
}

} // verus!
