use shanti::theme::scheme::{all, find, theme, Appearance, COUNT, DEFAULT};
use shanti::theme::{self, Color, Theme};

#[test]
fn warn_and_danger_differ_in_every_scheme() {
    for scheme in all() {
        let theme = scheme.theme();
        assert_ne!(
            theme.warning, theme.danger,
            "{} uses one colour for warning and danger",
            scheme.name
        );
    }
}

#[test]
fn destructive_differs_from_danger_in_every_scheme() {
    for scheme in all() {
        let theme = scheme.theme();
        assert_ne!(
            theme.destructive, theme.danger,
            "{} uses one colour for danger and destruction",
            scheme.name
        );
    }
}

#[test]
fn the_catalogue_covers_light_and_dark() {
    assert!(all().len() >= 6, "expected at least six schemes");
    let light = all()
        .iter()
        .filter(|s| s.appearance == Appearance::Light)
        .count();
    assert!(
        light >= 2,
        "expected at least two light schemes, got {light}"
    );
}

#[test]
fn names_are_unique_and_kebab_case() {
    let schemes = all();
    for (i, scheme) in schemes.iter().enumerate() {
        assert!(
            scheme
                .name
                .chars()
                .all(|c| c.is_ascii_lowercase() || c.is_ascii_digit() || c == '-'),
            "{} is not kebab-case",
            scheme.name
        );
        assert!(
            !schemes[..i].iter().any(|other| other.name == scheme.name),
            "{} appears twice",
            scheme.name
        );
    }
}

#[test]
fn lookup_is_forgiving_about_case_and_spacing() {
    assert_eq!(theme("  Tokyo-Night "), Ok(Theme::tokyo_night()));
    assert_eq!(theme("catppuccin-latte"), Ok(Theme::catppuccin_latte()));
}

#[test]
fn an_unknown_name_lists_the_valid_ones() {
    let err = theme("dracula").unwrap_err();
    let message = err.message();
    assert!(message.contains("dracula"), "{message}");
    for scheme in all() {
        assert!(message.contains(scheme.name), "{message}");
    }
}

#[test]
fn the_default_name_is_the_default_theme() {
    assert_eq!(theme(DEFAULT), Ok(Theme::default()));
}

#[test]
fn default_is_tokyo_night() {
    assert_eq!(Theme::default(), Theme::tokyo_night());
}

#[test]
fn styles_follow_the_installed_theme() {
    let swapped = Theme {
        accent: Color::Rgb(1, 2, 3),
        ..Theme::tokyo_night()
    };
    assert_eq!(theme::title(&swapped).fg, Some(Color::Rgb(1, 2, 3)));

    let back = Theme::tokyo_night();
    assert_eq!(theme::title(&back).fg, Some(Theme::tokyo_night().accent));
}

#[test]
fn every_scheme_is_found_by_its_own_name() {
    assert_eq!(all().len(), COUNT);
    for scheme in all() {
        let found = find(scheme.name).expect("a name of the catalogue");
        assert_eq!(found.label, scheme.label);
        assert_eq!(found.theme(), scheme.theme());
    }
}
