use simtop::tui::theme::{Color, Theme, ThemeName};


#[test]
fn theme_order_and_default_are_stable() {
    assert_eq!(ThemeName::default(), ThemeName::Dark);
    assert_eq!(
        ThemeName::ALL,
        [
            ThemeName::Dark,
            ThemeName::Light,
            ThemeName::Catppuccin,
            ThemeName::Nord,
            ThemeName::Dracula,
        ]
    );
    assert_eq!(ThemeName::Dark.to_string(), "dark");
    assert_eq!(ThemeName::Catppuccin.to_string(), "catppuccin");
}

#[test]
fn palettes_are_distinct_and_keep_state_modifiers() {
    let themes: Vec<_> = ThemeName::ALL.into_iter().map(Theme::for_name).collect();
    for (index, theme) in themes.iter().enumerate() {
        assert!(
            themes[index + 1..]
                .iter()
                .all(|other| theme.background != other.background),
            "palette backgrounds must be distinct"
        );
        assert!(theme.selected.reversed);
        assert!(theme.hover_button.reversed);
        assert!(theme.hover_button.bold);
        assert!(theme.hover_row.underlined);
        assert!(theme.hover_danger.reversed);
        assert!(theme.hover_danger.bold);
    }
}

#[test]
fn foreground_background_contrast_is_readable() {
    for name in ThemeName::ALL {
        let theme = Theme::for_name(name);
        let foreground = rgb(theme.foreground);
        let background = rgb(theme.background);
        let foreground_luminance = luminance(foreground);
        let background_luminance = luminance(background);
        let (lighter, darker) = if foreground_luminance > background_luminance {
            (foreground_luminance, background_luminance)
        } else {
            (background_luminance, foreground_luminance)
        };
        let ratio = (lighter + 0.05) / (darker + 0.05);
        assert!(ratio >= 4.5, "{} contrast ratio was {ratio:.2}", name.to_string());
    }
}

fn rgb(color: Color) -> (u8, u8, u8) {
    match color {
        Color::Rgb(red, green, blue) => (red, green, blue),
        _ => panic!("themes should use explicit RGB colors"),
    }
}

fn luminance((red, green, blue): (u8, u8, u8)) -> f64 {
    fn channel(value: u8) -> f64 {
        let value = f64::from(value) / 255.0;
        if value <= 0.03928 {
            value / 12.92
        } else {
            ((value + 0.055) / 1.055).powf(2.4)
        }
    }

    0.2126 * channel(red) + 0.7152 * channel(green) + 0.0722 * channel(blue)
}
