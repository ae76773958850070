//! The colour themes of the user interface.
use vstd::prelude::*;

verus! {

/// The flavours of the colour theme, from the lightest to the darkest.
#[derive(Debug, Clone, Copy, PartialEq, Eq, Hash, Structural)]
pub enum Flavour {
    Latte,
    Frappe,
    Macchiato,
    Mocha,
}

/// The colours of the theme by name. What a name looks like depends on the
/// flavour.
#[derive(Debug, Clone, Copy, PartialEq, Eq, Hash, Structural)]
pub enum DisplayColour {
    Rosewater,
    Flamingo,
    Pink,
    Mauve,
    Red,
    Maroon,
    Peach,
    Yellow,
    Green,
    Teal,
    Sky,
    Sapphire,
    Blue,
    Lavender,
}

impl Flavour {
    /// The flavour that follows this one when the user cycles through the
    /// themes: the next darker one, and the lightest after the darkest.
    pub open spec fn spec_next(self) -> Flavour {
        match self {
            Flavour::Latte => Flavour::Frappe,
            Flavour::Frappe => Flavour::Macchiato,
            Flavour::Macchiato => Flavour::Mocha,
            Flavour::Mocha => Flavour::Latte,
        }
    }

    /// The name of the flavour as the user interface shows it.
    pub open spec fn spec_display(self) -> Seq<char> {
        match self {
            Flavour::Frappe => "Frappe"@,
            Flavour::Latte => "Latte"@,
            Flavour::Macchiato => "Macchiato"@,
            Flavour::Mocha => "Mocha"@,
        }
    }

    /// The flavour that follows this one when the user cycles through the
    /// themes.
    pub fn next(self) -> (next: Flavour)
        ensures
            next == self.spec_next(),
    {
        match self {
            Flavour::Latte => Flavour::Frappe,
            Flavour::Frappe => Flavour::Macchiato,
            Flavour::Macchiato => Flavour::Mocha,
            Flavour::Mocha => Flavour::Latte,
        }
    }

    /// The name of the flavour as the user interface shows it.
    pub fn to_display_string(&self) -> (name: String)
        ensures
            name@ == self.spec_display(),
    {
        match self {
            Self::Frappe => "Frappe".to_owned(),
            Self::Latte => "Latte".to_owned(),
            Self::Macchiato => "Macchiato".to_owned(),
            Self::Mocha => "Mocha".to_owned(),
        }
    }
}

/// Cycling through the themes comes back to where it started after four
/// steps, and not before.
pub proof fn lemma_cycle_of_four(flavour: Flavour)
    ensures
        flavour.spec_next() != flavour,
        flavour.spec_next().spec_next() != flavour,
        flavour.spec_next().spec_next().spec_next() != flavour,
        flavour.spec_next().spec_next().spec_next().spec_next() == flavour,
{
}

} // verus!
