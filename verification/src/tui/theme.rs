//! Colour palettes of the terminal user interface.
//!
//! A [`Theme`] names the styles by their role, so that rendering does not depend
//! on a particular palette. Selected rows and buttons are reversed, hovered rows
//! are underlined, and prominent labels are bold in every palette.
use vstd::prelude::*;

use crate::text::same_text;

verus! {

/// A colour.
#[derive(Debug, Clone, Copy, PartialEq, Eq, Structural)]
pub enum Color {
    /// A colour by its red, green and blue parts.
    Rgb(u8, u8, u8),
    White,
    DarkGray,
    Cyan,
    Green,
    Yellow,
    Red,
}

/// A style: a colour of the text, when it is not the one around it, and what is
/// added to it.
#[derive(Debug, Clone, Copy, PartialEq, Eq, Structural)]
pub struct Style {
    pub fg: Option<Color>,
    pub bold: bool,
    pub reversed: bool,
    pub underlined: bool,
}

impl Style {
    /// The style that changes nothing.
    pub open spec fn none() -> Style {
        Style { fg: None, bold: false, reversed: false, underlined: false }
    }

    /// The style that changes nothing.
    pub fn plain() -> (r: Style)
        ensures
            r == Style::none(),
    {
        Style { fg: None, bold: false, reversed: false, underlined: false }
    }

    /// This style in a colour.
    pub open spec fn colored(self, color: Color) -> Style {
        Style { fg: Some(color), ..self }
    }

    /// This style in a colour.
    pub fn fg(self, color: Color) -> (r: Style)
        ensures
            r == self.colored(color),
    {
        Style { fg: Some(color), bold: self.bold, reversed: self.reversed, underlined: self.underlined }
    }

    /// This style with another laid over it.
    pub open spec fn under(self, other: Style) -> Style {
        Style {
            fg: if other.fg is Some {
                other.fg
            } else {
                self.fg
            },
            bold: self.bold || other.bold,
            reversed: self.reversed || other.reversed,
            underlined: self.underlined || other.underlined,
        }
    }

    /// This style with another laid over it.
    pub fn patch(self, other: Style) -> (r: Style)
        ensures
            r == self.under(other),
    {
        Style {
            fg: match other.fg {
                Some(color) => Some(color),
                None => self.fg,
            },
            bold: self.bold || other.bold,
            reversed: self.reversed || other.reversed,
            underlined: self.underlined || other.underlined,
        }
    }
}

/// Styles lie over each other in any grouping, and the style that changes nothing
/// changes nothing.
pub proof fn styles_lie_over_each_other(a: Style, b: Style, c: Style)
    ensures
        a.under(b).under(c) == a.under(b.under(c)),
        a.under(Style::none()) == a,
        Style::none().under(a) == a,
{
}

/// A named palette.
#[derive(Debug, Clone, Copy, PartialEq, Eq, Structural)]
pub enum ThemeName {
    /// Dark slate, the default.
    Dark,
    /// For bright terminal backgrounds.
    Light,
    /// Catppuccin Mocha.
    Catppuccin,
    /// Nord.
    Nord,
    /// Dracula.
    Dracula,
}

impl ThemeName {
    /// Every palette, in the order in which they are shown.
    pub const ALL: [ThemeName; 5] = [
        ThemeName::Dark,
        ThemeName::Light,
        ThemeName::Catppuccin,
        ThemeName::Nord,
        ThemeName::Dracula,
    ];

    /// The name of the palette on the command line.
    pub open spec fn spelled(self) -> Seq<char> {
        match self {
            ThemeName::Dark => "dark"@,
            ThemeName::Light => "light"@,
            ThemeName::Catppuccin => "catppuccin"@,
            ThemeName::Nord => "nord"@,
            ThemeName::Dracula => "dracula"@,
        }
    }

    /// The name of the palette on the command line.
    pub fn as_str(self) -> (r: &'static str)
        ensures
            r@ == self.spelled(),
    {
        match self {
            ThemeName::Dark => "dark",
            ThemeName::Light => "light",
            ThemeName::Catppuccin => "catppuccin",
            ThemeName::Nord => "nord",
            ThemeName::Dracula => "dracula",
        }
    }

    /// The name of the palette on the command line.
    pub fn to_string(&self) -> (r: String)
        ensures
            r@ == self.spelled(),
    {
        self.as_str().to_owned()
    }

    /// The palette of a name.
    pub fn parse(name: &str) -> (r: Option<ThemeName>)
        ensures
            match r {
                Some(theme) => theme.spelled() == name@,
                None => forall|theme: ThemeName| #[trigger] theme.spelled() != name@,
            },
    {
        if same_text(name, "dark") {
            Some(ThemeName::Dark)
        } else if same_text(name, "light") {
            Some(ThemeName::Light)
        } else if same_text(name, "catppuccin") {
            Some(ThemeName::Catppuccin)
        } else if same_text(name, "nord") {
            Some(ThemeName::Nord)
        } else if same_text(name, "dracula") {
            Some(ThemeName::Dracula)
        } else {
            None
        }
    }
}

/// Palettes are told apart by their names.
pub proof fn theme_names_are_distinct(a: ThemeName, b: ThemeName)
    requires
        a.spelled() == b.spelled(),
    ensures
        a == b,
{
    reveal_strlit("dark");
    reveal_strlit("light");
    reveal_strlit("catppuccin");
    reveal_strlit("nord");
    reveal_strlit("dracula");
    assert("dark"@.len() == 4);
    assert("light"@.len() == 5);
    assert("catppuccin"@.len() == 10);
    assert("nord"@.len() == 4);
    assert("dracula"@.len() == 7);
    assert("dark"@[0] != "nord"@[0]);
}

impl Default for ThemeName {
    fn default() -> (r: Self)
        ensures
            r == ThemeName::Dark,
    {
        ThemeName::Dark
    }
}

/// The colours of a palette.
#[derive(Debug, Clone, Copy, PartialEq, Eq, Structural)]
pub struct Palette {
    pub background: Color,
    pub foreground: Color,
    pub accent: Color,
    pub muted: Color,
    pub info: Color,
    pub success: Color,
    pub warning: Color,
    pub error: Color,
    pub label: Color,
    pub header: Color,
    pub border: Color,
}

/// The colours of a named palette.
pub open spec fn palette_of(name: ThemeName) -> Palette {
    match name {
        ThemeName::Dark => Palette {
            background: Color::Rgb(15, 17, 22),
            foreground: Color::Rgb(226, 232, 240),
            accent: Color::Rgb(96, 165, 250),
            muted: Color::Rgb(148, 163, 184),
            info: Color::Rgb(147, 197, 253),
            success: Color::Rgb(74, 222, 128),
            warning: Color::Rgb(251, 191, 36),
            error: Color::Rgb(248, 113, 113),
            label: Color::Rgb(165, 180, 252),
            header: Color::Rgb(203, 213, 225),
            border: Color::Rgb(71, 85, 105),
        },
        ThemeName::Light => Palette {
            background: Color::Rgb(248, 250, 252),
            foreground: Color::Rgb(23, 32, 51),
            accent: Color::Rgb(29, 78, 216),
            muted: Color::Rgb(71, 85, 105),
            info: Color::Rgb(30, 64, 175),
            success: Color::Rgb(4, 120, 87),
            warning: Color::Rgb(161, 98, 7),
            error: Color::Rgb(185, 28, 28),
            label: Color::Rgb(51, 65, 85),
            header: Color::Rgb(15, 23, 42),
            border: Color::Rgb(148, 163, 184),
        },
        ThemeName::Catppuccin => Palette {
            background: Color::Rgb(30, 30, 46),
            foreground: Color::Rgb(205, 214, 244),
            accent: Color::Rgb(137, 180, 250),
            muted: Color::Rgb(147, 153, 178),
            info: Color::Rgb(137, 220, 235),
            success: Color::Rgb(166, 227, 161),
            warning: Color::Rgb(249, 226, 175),
            error: Color::Rgb(243, 139, 168),
            label: Color::Rgb(186, 194, 222),
            header: Color::Rgb(205, 214, 244),
            border: Color::Rgb(88, 91, 112),
        },
        ThemeName::Nord => Palette {
            background: Color::Rgb(46, 52, 64),
            foreground: Color::Rgb(216, 222, 233),
            accent: Color::Rgb(136, 192, 208),
            muted: Color::Rgb(123, 136, 161),
            info: Color::Rgb(129, 161, 193),
            success: Color::Rgb(163, 190, 140),
            warning: Color::Rgb(235, 203, 139),
            error: Color::Rgb(191, 97, 106),
            label: Color::Rgb(216, 222, 233),
            header: Color::Rgb(229, 233, 240),
            border: Color::Rgb(76, 86, 106),
        },
        ThemeName::Dracula => Palette {
            background: Color::Rgb(40, 42, 54),
            foreground: Color::Rgb(248, 248, 242),
            accent: Color::Rgb(139, 233, 253),
            muted: Color::Rgb(98, 114, 164),
            info: Color::Rgb(139, 233, 253),
            success: Color::Rgb(80, 250, 123),
            warning: Color::Rgb(241, 250, 140),
            error: Color::Rgb(255, 85, 85),
            label: Color::Rgb(189, 147, 249),
            header: Color::Rgb(248, 248, 242),
            border: Color::Rgb(68, 71, 90),
        },
    }
}

/// The colours of a named palette.
pub fn palette(name: ThemeName) -> (r: Palette)
    ensures
        r == palette_of(name),
{
    match name {
        ThemeName::Dark => Palette {
            background: Color::Rgb(15, 17, 22),
            foreground: Color::Rgb(226, 232, 240),
            accent: Color::Rgb(96, 165, 250),
            muted: Color::Rgb(148, 163, 184),
            info: Color::Rgb(147, 197, 253),
            success: Color::Rgb(74, 222, 128),
            warning: Color::Rgb(251, 191, 36),
            error: Color::Rgb(248, 113, 113),
            label: Color::Rgb(165, 180, 252),
            header: Color::Rgb(203, 213, 225),
            border: Color::Rgb(71, 85, 105),
        },
        ThemeName::Light => Palette {
            background: Color::Rgb(248, 250, 252),
            foreground: Color::Rgb(23, 32, 51),
            accent: Color::Rgb(29, 78, 216),
            muted: Color::Rgb(71, 85, 105),
            info: Color::Rgb(30, 64, 175),
            success: Color::Rgb(4, 120, 87),
            warning: Color::Rgb(161, 98, 7),
            error: Color::Rgb(185, 28, 28),
            label: Color::Rgb(51, 65, 85),
            header: Color::Rgb(15, 23, 42),
            border: Color::Rgb(148, 163, 184),
        },
        ThemeName::Catppuccin => Palette {
            background: Color::Rgb(30, 30, 46),
            foreground: Color::Rgb(205, 214, 244),
            accent: Color::Rgb(137, 180, 250),
            muted: Color::Rgb(147, 153, 178),
            info: Color::Rgb(137, 220, 235),
            success: Color::Rgb(166, 227, 161),
            warning: Color::Rgb(249, 226, 175),
            error: Color::Rgb(243, 139, 168),
            label: Color::Rgb(186, 194, 222),
            header: Color::Rgb(205, 214, 244),
            border: Color::Rgb(88, 91, 112),
        },
        ThemeName::Nord => Palette {
            background: Color::Rgb(46, 52, 64),
            foreground: Color::Rgb(216, 222, 233),
            accent: Color::Rgb(136, 192, 208),
            muted: Color::Rgb(123, 136, 161),
            info: Color::Rgb(129, 161, 193),
            success: Color::Rgb(163, 190, 140),
            warning: Color::Rgb(235, 203, 139),
            error: Color::Rgb(191, 97, 106),
            label: Color::Rgb(216, 222, 233),
            header: Color::Rgb(229, 233, 240),
            border: Color::Rgb(76, 86, 106),
        },
        ThemeName::Dracula => Palette {
            background: Color::Rgb(40, 42, 54),
            foreground: Color::Rgb(248, 248, 242),
            accent: Color::Rgb(139, 233, 253),
            muted: Color::Rgb(98, 114, 164),
            info: Color::Rgb(139, 233, 253),
            success: Color::Rgb(80, 250, 123),
            warning: Color::Rgb(241, 250, 140),
            error: Color::Rgb(255, 85, 85),
            label: Color::Rgb(189, 147, 249),
            header: Color::Rgb(248, 248, 242),
            border: Color::Rgb(68, 71, 90),
        },
    }
}

/// The styles of the terminal user interface by their role, and its colours.
#[derive(Debug, Clone, Copy, PartialEq, Eq, Structural)]
pub struct Theme {
    pub accent: Style,
    pub muted: Style,
    pub info: Style,
    pub success: Style,
    pub warning: Style,
    pub error: Style,
    pub label: Style,
    pub header: Style,
    pub border: Style,
    pub selected: Style,
    pub hover_button: Style,
    pub hover_row: Style,
    pub hover_danger: Style,
    pub background: Color,
    pub foreground: Color,
}

/// The styles that a palette gives.
pub open spec fn theme_of(p: Palette) -> Theme {
    let plain = Style::none();
    Theme {
        accent: Style { bold: true, ..plain.colored(p.accent) },
        muted: plain.colored(p.muted),
        info: plain.colored(p.info),
        success: plain.colored(p.success),
        warning: plain.colored(p.warning),
        error: plain.colored(p.error),
        label: plain.colored(p.label),
        header: Style { bold: true, ..plain.colored(p.header) },
        border: plain.colored(p.border),
        selected: Style { reversed: true, ..plain },
        hover_button: Style { bold: true, reversed: true, ..plain.colored(p.accent) },
        hover_row: Style { underlined: true, ..plain },
        hover_danger: Style { bold: true, reversed: true, ..plain.colored(p.error) },
        background: p.background,
        foreground: p.foreground,
    }
}

impl Theme {
    fn from_colors(p: Palette) -> (r: Theme)
        ensures
            r == theme_of(p),
    {
        let bold = Style { fg: None, bold: true, reversed: false, underlined: false };
        let button = Style { fg: None, bold: true, reversed: true, underlined: false };
        Theme {
            accent: bold.fg(p.accent),
            muted: Style::plain().fg(p.muted),
            info: Style::plain().fg(p.info),
            success: Style::plain().fg(p.success),
            warning: Style::plain().fg(p.warning),
            error: Style::plain().fg(p.error),
            label: Style::plain().fg(p.label),
            header: bold.fg(p.header),
            border: Style::plain().fg(p.border),
            selected: Style { fg: None, bold: false, reversed: true, underlined: false },
            hover_button: button.fg(p.accent),
            hover_row: Style { fg: None, bold: false, reversed: false, underlined: true },
            hover_danger: button.fg(p.error),
            background: p.background,
            foreground: p.foreground,
        }
    }

    /// The styles of a named palette.
    pub fn for_name(name: ThemeName) -> (r: Theme)
        ensures
            r == theme_of(palette_of(name)),
    {
        Theme::from_colors(palette(name))
    }
}

impl Default for Theme {
    fn default() -> (r: Self)
        ensures
            r == theme_of(palette_of(ThemeName::Dark)),
    {
        Theme::for_name(ThemeName::Dark)
    }
}

/// No two palettes have the same background.
pub proof fn palettes_are_distinct(a: ThemeName, b: ThemeName)
    requires
        a != b,
    ensures
        palette_of(a).background != palette_of(b).background,
{
}

/// What stands out does so in every palette: selected rows and buttons are
/// reversed, buttons are bold and hovered rows underlined.
pub proof fn palettes_keep_their_emphasis(name: ThemeName)
    ensures
        theme_of(palette_of(name)).selected.reversed,
        theme_of(palette_of(name)).hover_button.reversed,
        theme_of(palette_of(name)).hover_button.bold,
        theme_of(palette_of(name)).hover_row.underlined,
        theme_of(palette_of(name)).hover_danger.reversed,
        theme_of(palette_of(name)).hover_danger.bold,
{
}

/// Whether a colour has more red than green and blue.
pub open spec fn is_reddish(color: Color) -> bool {
    color matches Color::Rgb(r, g, b) && r > g && r > b
}

/// Whether a colour has more green than red and blue.
pub open spec fn is_greenish(color: Color) -> bool {
    color matches Color::Rgb(r, g, b) && g > r && g > b
}

/// Whether a colour has more red and more green than blue.
pub open spec fn is_yellowish(color: Color) -> bool {
    color matches Color::Rgb(r, g, b) && r > b && g > b
}

/// The light of a colour.
pub open spec fn lightness(color: Color) -> int {
    match color {
        Color::Rgb(r, g, b) => r + g + b,
        _ => 0,
    }
}

/// In every theme success is green, failure is red and a warning is yellow. The light
/// theme writes dark on light, and the others write light on dark.
pub proof fn colours_mean_what_they_say(name: ThemeName)
    ensures
        is_greenish(palette_of(name).success),
        is_reddish(palette_of(name).error),
        is_yellowish(palette_of(name).warning),
        name == ThemeName::Light <==> lightness(palette_of(name).background) > lightness(
            palette_of(name).foreground,
        ),
{
}

/// The styles of a theme have the colours of its palette that are called like them.
pub proof fn styles_have_their_colours(p: Palette)
    ensures
        theme_of(p).success.fg == Some(p.success),
        theme_of(p).error.fg == Some(p.error),
        theme_of(p).warning.fg == Some(p.warning),
        theme_of(p).info.fg == Some(p.info),
        theme_of(p).accent.fg == Some(p.accent) && theme_of(p).accent.bold,
        theme_of(p).muted.fg == Some(p.muted),
        theme_of(p).label.fg == Some(p.label),
        theme_of(p).header.fg == Some(p.header) && theme_of(p).header.bold,
        theme_of(p).border.fg == Some(p.border),
        theme_of(p).hover_danger.fg == Some(p.error),
        theme_of(p).background == p.background,
        theme_of(p).foreground == p.foreground,
{
}

/// A theme is called by its own name.
pub proof fn themes_are_called_by_name(name: ThemeName)
    ensures
        name == ThemeName::Dark <==> name.spelled() == "dark"@,
        name == ThemeName::Light <==> name.spelled() == "light"@,
        name == ThemeName::Catppuccin <==> name.spelled() == "catppuccin"@,
        name == ThemeName::Nord <==> name.spelled() == "nord"@,
        name == ThemeName::Dracula <==> name.spelled() == "dracula"@,
{
    theme_names_are_distinct_words();
}

proof fn theme_names_are_distinct_words()
    ensures
        "dark"@ != "nord"@,
        "dark"@.len() == 4,
        "light"@.len() == 5,
        "catppuccin"@.len() == 10,
        "nord"@.len() == 4,
        "dracula"@.len() == 7,
{
    reveal_strlit("dark");
    reveal_strlit("light");
    reveal_strlit("catppuccin");
    reveal_strlit("nord");
    reveal_strlit("dracula");
    assert("dark"@[0] != "nord"@[0]);
}

} // verus!
