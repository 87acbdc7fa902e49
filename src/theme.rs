use vstd::prelude::*;

verus! {

/// Visual style of the front end's icons.
#[derive(Clone, Copy, Debug, PartialEq, Eq, Structural)]
pub enum Theme {
    Default,
    Compatible,
}

impl Default for Theme {
    fn default() -> (r: Self)
        ensures
            r == Theme::Default,
    {
        Theme::Default
    }
}

impl Theme {
    /// The other theme: there are exactly two, so stepping is an involution.
    pub open spec fn spec_next(self) -> Theme {
        match self {
            Theme::Default => Theme::Compatible,
            Theme::Compatible => Theme::Default,
        }
    }

    pub fn dir_icon(&self) -> (r: &'static str)
        ensures
            *self == Theme::Default ==> r@ == "📁"@,
            *self == Theme::Compatible ==> r@ == "[DIR]"@,
    {
        match self {
            Theme::Default => "📁",
            Theme::Compatible => "[DIR]",
        }
    }

    pub fn cmd_icon(&self) -> (r: &'static str)
        ensures
            *self == Theme::Default ==> r@ == "⚡"@,
            *self == Theme::Compatible ==> r@ == "[CMD]"@,
    {
        match self {
            Theme::Default => "⚡",
            Theme::Compatible => "[CMD]",
        }
    }

    pub fn tab_icon(&self) -> (r: &'static str)
        ensures
            *self == Theme::Default ==> r@ == "📋"@,
            *self == Theme::Compatible ==> r@ == ">> "@,
    {
        match self {
            Theme::Default => "📋",
            Theme::Compatible => ">> ",
        }
    }

    pub fn multi_select_icon(&self) -> (r: &'static str)
        ensures
            *self == Theme::Default ==> r@ == "✓"@,
            *self == Theme::Compatible ==> r@ == "*"@,
    {
        match self {
            Theme::Default => "✓",
            Theme::Compatible => "*",
        }
    }

    pub fn next(&mut self)
        ensures
            *final(self) == old(self).spec_next(),
    {
        *self = match self {
            Theme::Default => Theme::Compatible,
            Theme::Compatible => Theme::Default,
        };
    }

    /// With two themes, stepping back is the same as stepping forward.
    pub fn prev(&mut self)
        ensures
            *final(self) == old(self).spec_next(),
            final(self).spec_next() == *old(self),
    {
        self.next();
    }
}

} // verus!
