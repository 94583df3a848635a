use vstd::prelude::*;
use vstd::string::*;

verus! {

/// The two colour palettes: dark and light.
#[derive(Clone, Copy, Debug, PartialEq, Eq, Structural)]
pub enum ThemeMode {
    Mocha,
    Latte,
}

impl ThemeMode {
    pub fn toggle(&self) -> (r: ThemeMode)
        ensures
            r != *self,
    {
        match self {
            ThemeMode::Mocha => ThemeMode::Latte,
            ThemeMode::Latte => ThemeMode::Mocha,
        }
    }

    pub fn name(&self) -> (r: &'static str)
        ensures
            *self == ThemeMode::Mocha ==> r@ == "Mocha"@,
            *self == ThemeMode::Latte ==> r@ == "Latte"@,
    {
        match self {
            ThemeMode::Mocha => "Mocha",
            ThemeMode::Latte => "Latte",
        }
    }
}

/// The active palette.
#[derive(Clone, Copy, Debug)]
pub struct Theme {
    mode: ThemeMode,
}

impl Theme {
    pub fn from_mode(mode: ThemeMode) -> (r: Theme)
        ensures
            r.mode() == mode,
    {
        Theme { mode }
    }

    pub closed spec fn spec_mode(&self) -> ThemeMode {
        self.mode
    }

    #[verifier::when_used_as_spec(spec_mode)]
    pub fn mode(&self) -> (r: ThemeMode)
        ensures
            r == self.spec_mode(),
    {
        self.mode
    }

    pub fn toggle(&mut self)
        ensures
            final(self).mode() != old(self).mode(),
    {
        self.mode = self.mode.toggle();
    }
}

/// The spinner frames, one per animation tick.
pub open spec fn spinner_frame(i: int) -> Seq<char> {
    if i == 0 {
        "⠋"@
    } else if i == 1 {
        "⠙"@
    } else if i == 2 {
        "⠹"@
    } else if i == 3 {
        "⠸"@
    } else if i == 4 {
        "⠼"@
    } else if i == 5 {
        "⠴"@
    } else if i == 6 {
        "⠦"@
    } else if i == 7 {
        "⠧"@
    } else if i == 8 {
        "⠇"@
    } else {
        "⠏"@
    }
}

/// The spinner frame for an animation counter; the frames repeat every ten.
pub fn get_spinner(frame: usize) -> (r: &'static str)
    ensures
        r@ == spinner_frame(frame as int % 10),
{
    let i = frame % 10;
    if i == 0 {
        "⠋"
    } else if i == 1 {
        "⠙"
    } else if i == 2 {
        "⠹"
    } else if i == 3 {
        "⠸"
    } else if i == 4 {
        "⠼"
    } else if i == 5 {
        "⠴"
    } else if i == 6 {
        "⠦"
    } else if i == 7 {
        "⠧"
    } else if i == 8 {
        "⠇"
    } else {
        "⠏"
    }
}

} // verus!
