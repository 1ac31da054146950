//! Window decisions: what a title-bar double-click does on macOS, and
//! whether a window already covers the screen.

use vstd::prelude::*;

use crate::text::same_text;

verus! {

/// What a double-click on the macOS title bar does.
#[derive(Clone, Copy, Debug, PartialEq, Eq, Structural)]
pub enum MacosDoubleClickAction {
    Ignore,
    Minimize,
    Fill,
    Zoom,
}

/// The action for the system's `AppleActionOnDoubleClick` preference:
/// zoom when it is unset, and nothing for a value this does not know.
pub open spec fn double_click_action(preference: Option<Seq<char>>) -> MacosDoubleClickAction {
    match preference {
        None => MacosDoubleClickAction::Zoom,
        Some(p) => if p == "Minimize"@ {
            MacosDoubleClickAction::Minimize
        } else if p == "None"@ {
            MacosDoubleClickAction::Ignore
        } else if p == "Maximize"@ || p == "Fill"@ {
            MacosDoubleClickAction::Fill
        } else if p == "Zoom"@ {
            MacosDoubleClickAction::Zoom
        } else {
            MacosDoubleClickAction::Ignore
        },
    }
}

/// The double-click preference decides as macOS documents it: no
/// preference zooms, "Maximize" and "Fill" fill the screen, "Minimize"
/// minimizes, "None" does nothing, and a value this does not know does
/// nothing either; only "Zoom" or no preference zoom.
pub proof fn unknown_preferences_do_nothing(p: Seq<char>)
    ensures
        double_click_action(None) == MacosDoubleClickAction::Zoom,
        double_click_action(Some(p)) == MacosDoubleClickAction::Zoom <==> p == "Zoom"@,
        double_click_action(Some(p)) == MacosDoubleClickAction::Fill <==> (p == "Maximize"@ || p
            == "Fill"@),
        double_click_action(Some(p)) == MacosDoubleClickAction::Minimize <==> p == "Minimize"@,
        (p != "Zoom"@ && p != "Maximize"@ && p != "Fill"@ && p != "Minimize"@) ==> double_click_action(
            Some(p),
        ) == MacosDoubleClickAction::Ignore,
{
    reveal_strlit("Zoom");
    reveal_strlit("Maximize");
    reveal_strlit("Fill");
    reveal_strlit("Minimize");
    reveal_strlit("None");
    assert("Zoom"@[0] != "None"@[0]);
    assert("Zoom"@.len() != "Minimize"@.len());
    assert("Zoom"@ != "Maximize"@ && "Zoom"@ != "Fill"@);
    assert("Maximize"@[1] != "Minimize"@[1]);
    assert("Fill"@.len() != "Minimize"@.len());
    assert("Maximize"@ != "None"@ && "Fill"@ != "None"@);
    assert("Minimize"@ != "None"@);
}

/// The title-bar double-click action the preference asks for.
pub fn macos_double_click_action(preference: Option<&str>) -> (a: MacosDoubleClickAction)
    ensures
        a == double_click_action(
            match preference {
                Some(p) => Some(p@),
                None => None,
            },
        ),
{
    match preference {
        None => MacosDoubleClickAction::Zoom,
        Some(p) => if same_text(p, "Minimize") {
            MacosDoubleClickAction::Minimize
        } else if same_text(p, "None") {
            MacosDoubleClickAction::Ignore
        } else if same_text(p, "Maximize") || same_text(p, "Fill") {
            MacosDoubleClickAction::Fill
        } else if same_text(p, "Zoom") {
            MacosDoubleClickAction::Zoom
        } else {
            MacosDoubleClickAction::Ignore
        },
    }
}

/// Whether the window already covers the screen, maximized or full
/// screen; a backend that does not report either leaves it ordinary.
pub fn fills_the_screen(maximized: Option<bool>, fullscreen: Option<bool>) -> (r: bool)
    ensures
        r == (maximized == Some(true) || fullscreen == Some(true)),
{
    let m = match maximized {
        Some(b) => b,
        None => false,
    };
    let f = match fullscreen {
        Some(b) => b,
        None => false,
    };
    m || f
}

} // verus!
