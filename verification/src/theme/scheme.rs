//! The catalogue of colour schemes, and how one is named.

use vstd::prelude::*;

use super::Theme;
use crate::text::{concat, eq_ignore_ascii_case, join, joined, same_ignoring_case, trim, trim_of, views};

verus! {

/// What a scheme is drawn for.
#[derive(Debug, Clone, Copy, PartialEq, Eq, Structural)]
pub enum Appearance {
    Dark,
    Light,
    /// Follows whatever the terminal is set to.
    Terminal,
}

impl Appearance {
    #[verifier::allow_in_spec]
    pub fn label(self) -> &'static str
        returns
            (match self {
                Appearance::Dark => "dark",
                Appearance::Light => "light",
                Appearance::Terminal => "follows terminal",
            }),
    {
        match self {
            Appearance::Dark => "dark",
            Appearance::Light => "light",
            Appearance::Terminal => "follows terminal",
        }
    }
}

/// One entry of the catalogue.
#[derive(Debug, Clone, Copy)]
pub struct Scheme {
    /// What the user writes in a configuration file.
    pub name: &'static str,
    /// What the picker shows.
    pub label: &'static str,
    pub appearance: Appearance,
    pub palette: Theme,
}

impl Scheme {
    /// The palette this scheme stands for.
    pub fn theme(&self) -> (theme: Theme)
        ensures
            theme == self.palette,
    {
        self.palette
    }
}

/// The scheme a user who picked nothing gets.
pub const DEFAULT: &'static str = "tokyo-night";

/// How many schemes the catalogue holds.
pub const COUNT: usize = 7;

/// The entry at `i`, in the order the picker shows them.
pub open spec fn entry(i: int) -> (Seq<char>, Seq<char>, Appearance, Theme) {
    if i == 0 {
        ("tokyo-night"@, "Tokyo Night"@, Appearance::Dark, Theme::tokyo_night())
    } else if i == 1 {
        ("tokyo-night-storm"@, "Tokyo Night Storm"@, Appearance::Dark, Theme::tokyo_night_storm())
    } else if i == 2 {
        ("tokyo-night-day"@, "Tokyo Night Day"@, Appearance::Light, Theme::tokyo_night_day())
    } else if i == 3 {
        ("catppuccin-mocha"@, "Catppuccin Mocha"@, Appearance::Dark, Theme::catppuccin_mocha())
    } else if i == 4 {
        ("catppuccin-latte"@, "Catppuccin Latte"@, Appearance::Light, Theme::catppuccin_latte())
    } else if i == 5 {
        ("gruvbox-dark"@, "Gruvbox Dark"@, Appearance::Dark, Theme::gruvbox_dark())
    } else {
        ("ansi"@, "Terminal (ANSI 16)"@, Appearance::Terminal, Theme::ansi())
    }
}

/// A scheme is the entry at `i`.
pub open spec fn is_entry(scheme: Scheme, i: int) -> bool {
    (scheme.name@, scheme.label@, scheme.appearance, scheme.palette) == entry(i)
}

fn scheme(
    name: &'static str,
    label: &'static str,
    appearance: Appearance,
    palette: Theme,
) -> (scheme: Scheme)
    ensures
        scheme.name == name,
        scheme.label == label,
        scheme.appearance == appearance,
        scheme.palette == palette,
{
    Scheme { name, label, appearance, palette }
}

/// Every scheme, in the order the picker shows them.
pub fn all() -> (schemes: Vec<Scheme>)
    ensures
        schemes@.len() == COUNT,
        forall|i: int| 0 <= i < COUNT ==> is_entry(#[trigger] schemes@[i], i),
{
    let mut schemes: Vec<Scheme> = Vec::new();
    schemes.push(scheme("tokyo-night", "Tokyo Night", Appearance::Dark, Theme::tokyo_night()));
    schemes.push(
        scheme(
            "tokyo-night-storm",
            "Tokyo Night Storm",
            Appearance::Dark,
            Theme::tokyo_night_storm(),
        ),
    );
    schemes.push(
        scheme("tokyo-night-day", "Tokyo Night Day", Appearance::Light, Theme::tokyo_night_day()),
    );
    schemes.push(
        scheme(
            "catppuccin-mocha",
            "Catppuccin Mocha",
            Appearance::Dark,
            Theme::catppuccin_mocha(),
        ),
    );
    schemes.push(
        scheme(
            "catppuccin-latte",
            "Catppuccin Latte",
            Appearance::Light,
            Theme::catppuccin_latte(),
        ),
    );
    schemes.push(scheme("gruvbox-dark", "Gruvbox Dark", Appearance::Dark, Theme::gruvbox_dark()));
    schemes.push(scheme("ansi", "Terminal (ANSI 16)", Appearance::Terminal, Theme::ansi()));
    schemes
}

/// A name that stands for no scheme.
#[derive(Debug, PartialEq, Eq)]
pub struct UnknownScheme {
    pub name: String,
}

/// The names of the catalogue, in order.
pub open spec fn names() -> Seq<Seq<char>> {
    Seq::new(COUNT as nat, |i: int| entry(i).0)
}

impl UnknownScheme {
    /// The message, naming the scheme asked for and every valid one.
    pub fn message(&self) -> (out: String)
        ensures
            out@ == "unknown colour scheme `"@ + self.name@ + "`; valid schemes are: "@ + joined(
                names(),
                ", "@,
            ),
    {
        let schemes = all();
        let mut known: Vec<String> = Vec::new();
        let mut i: usize = 0;
        while i < schemes.len()
            invariant
                i <= schemes@.len() == COUNT,
                forall|k: int| 0 <= k < COUNT ==> is_entry(#[trigger] schemes@[k], k),
                views(known@) == names().take(i as int),
            decreases schemes.len() - i,
        {
            let ghost before = views(known@);
            assert(is_entry(schemes@[i as int], i as int));
            known.push(schemes[i].name.to_owned());
            assert(views(known@) =~= before.push(schemes@[i as int].name@));
            assert(names().take(i + 1) =~= names().take(i as int).push(entry(i as int).0));
            i = i + 1;
        }
        assert(names().take(COUNT as int) =~= names());
        let mut out = concat("unknown colour scheme `", self.name.as_str());
        out.append("`; valid schemes are: ");
        out.append(join(&known, ", ").as_str());
        out
    }
}

/// Whether `name` stands for the scheme at `i`: spacing around it and the case
/// of its letters do not matter.
pub open spec fn names_entry(name: Seq<char>, i: int) -> bool {
    same_ignoring_case(entry(i).0, trim_of(name))
}

/// The scheme called `name`.
pub fn find(name: &str) -> (found: Result<Scheme, UnknownScheme>)
    ensures
        match found {
            Ok(scheme) => exists|i: int|
                0 <= i < COUNT && #[trigger] names_entry(name@, i) && is_entry(scheme, i) && (
                forall|j: int| 0 <= j < i ==> !#[trigger] names_entry(name@, j)),
            Err(unknown) => unknown.name@ == name@ && forall|i: int|
                0 <= i < COUNT ==> !#[trigger] names_entry(name@, i),
        },
{
    let wanted = trim(name);
    let schemes = all();
    let mut i: usize = 0;
    while i < schemes.len()
        invariant
            i <= schemes@.len() == COUNT,
            wanted@ == trim_of(name@),
            forall|k: int| 0 <= k < COUNT ==> is_entry(#[trigger] schemes@[k], k),
            forall|k: int| 0 <= k < i ==> !#[trigger] names_entry(name@, k),
        decreases schemes.len() - i,
    {
        assert(is_entry(schemes@[i as int], i as int));
        if eq_ignore_ascii_case(schemes[i].name, wanted.as_str()) {
            assert(names_entry(name@, i as int));
            return Ok(schemes[i]);
        }
        assert(!names_entry(name@, i as int));
        i = i + 1;
    }
    Err(UnknownScheme { name: name.to_owned() })
}

/// The palette of the scheme called `name`.
pub fn theme(name: &str) -> (theme: Result<Theme, UnknownScheme>)
    ensures
        match theme {
            Ok(palette) => exists|i: int|
                0 <= i < COUNT && #[trigger] names_entry(name@, i) && palette == entry(i).3 && (
                forall|j: int| 0 <= j < i ==> !#[trigger] names_entry(name@, j)),
            Err(unknown) => unknown.name@ == name@ && forall|i: int|
                0 <= i < COUNT ==> !#[trigger] names_entry(name@, i),
        },
{
    match find(name) {
        Ok(scheme) => Ok(scheme.theme()),
        Err(unknown) => Err(unknown),
    }
}

proof fn reveal_names()
    ensures
        forall|i: int, j: int|
            0 <= i < j < COUNT ==> !same_ignoring_case((#[trigger] entry(i)).0, (#[trigger] entry(j)).0),
{
    reveal_strlit("tokyo-night");
    reveal_strlit("tokyo-night-storm");
    reveal_strlit("tokyo-night-day");
    reveal_strlit("catppuccin-mocha");
    reveal_strlit("catppuccin-latte");
    reveal_strlit("gruvbox-dark");
    reveal_strlit("ansi");
    assert("catppuccin-mocha"@[11] == 'm' && "catppuccin-latte"@[11] == 'l');
    assert forall|i: int, j: int| 0 <= i < j < COUNT implies !same_ignoring_case(
        (#[trigger] entry(i)).0,
        (#[trigger] entry(j)).0,
    ) by {
        if i == 3 && j == 4 {
            assert(ascii_differs('m', 'l'));
        }
    }
}

spec fn ascii_differs(a: char, b: char) -> bool {
    crate::text::ascii_lower(a) != crate::text::ascii_lower(b)
}

/// No two schemes answer to one name, so a name finds at most one.
pub proof fn law_names_are_unique(name: Seq<char>, i: int, j: int)
    requires
        0 <= i < COUNT,
        0 <= j < COUNT,
        names_entry(name, i),
        names_entry(name, j),
    ensures
        i == j,
{
    reveal_names();
    if i < j {
        lemma_through(entry(i).0, entry(j).0, trim_of(name));
    } else if j < i {
        lemma_through(entry(j).0, entry(i).0, trim_of(name));
    }
}

proof fn lemma_through(a: Seq<char>, b: Seq<char>, c: Seq<char>)
    requires
        same_ignoring_case(a, c),
        same_ignoring_case(b, c),
    ensures
        same_ignoring_case(a, b),
{
    assert forall|i: int| 0 <= i < a.len() implies crate::text::ascii_lower(#[trigger] a[i])
        == crate::text::ascii_lower(b[i]) by {
        assert(crate::text::ascii_lower(b[i]) == crate::text::ascii_lower(c[i]));
    }
}

/// In every scheme a failure looks like neither a warning nor a destructive
/// choice.
pub proof fn law_severities_differ(i: int)
    requires
        0 <= i < COUNT,
    ensures
        entry(i).3.warning != entry(i).3.danger,
        entry(i).3.destructive != entry(i).3.danger,
{
}

/// The default name stands for the default palette.
pub(crate) proof fn lemma_default_name()
    ensures
        names_entry(DEFAULT@, 0),
        entry(0).3 == Theme::tokyo_night(),
{
    reveal_strlit("tokyo-night");
    reveal_with_fuel(crate::text::trim_start_of, 2);
    reveal_with_fuel(crate::text::trim_end_of, 2);
}

/// A scheme is named by its name in any case, blanks around it aside; the schemes
/// are these, and the first is the default.
pub proof fn law_a_scheme_is_found_by_its_name(name: Seq<char>, i: int)
    requires
        0 <= i < COUNT,
    ensures
        names_entry(name, i) <==> same_ignoring_case(entry(i).0, trim_of(name)),
        COUNT == 7,
        entry(0).0 == "tokyo-night"@ && entry(0).3 == Theme::tokyo_night(),
        entry(1).0 == "tokyo-night-storm"@ && entry(1).3 == Theme::tokyo_night_storm(),
        entry(2).0 == "tokyo-night-day"@ && entry(2).3 == Theme::tokyo_night_day(),
        entry(3).0 == "catppuccin-mocha"@ && entry(3).3 == Theme::catppuccin_mocha(),
        entry(4).0 == "catppuccin-latte"@ && entry(4).3 == Theme::catppuccin_latte(),
        entry(5).0 == "gruvbox-dark"@ && entry(5).3 == Theme::gruvbox_dark(),
        entry(6).0 == "ansi"@ && entry(6).3 == Theme::ansi(),
        names().len() == 7 && names()[i] == entry(i).0,
{
}

} // verus!
