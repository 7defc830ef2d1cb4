//! Colours and emphasis for text that is shown on a terminal.
use crate::model::{Action, Prio, Status};
use crossterm::style::Stylize;
use vstd::prelude::*;

verus! {

/// The style of a stretch of text, as crossterm holds it: colours and
/// attributes. Nothing of what it holds is known here.
#[verifier::external_type_specification]
#[verifier::external_body]
pub struct ExContentStyle(crossterm::style::ContentStyle);

/// The colours that a text can be shown in.
#[derive(Clone, Copy, Debug, PartialEq, Eq, Structural)]
pub enum Color {
    Red,
    Green,
    Yellow,
    Blue,
    Magenta,
    Cyan,
}

/// How a text is to be shown: in which colour, and whether bold or
/// underlined.
#[derive(Clone, Copy, Debug)]
pub struct Styler {
    pub fg: Option<Color>,
    pub bold: bool,
    pub underline: bool,
}

/// Calls `ContentStyle::new` of crossterm, which makes a style without
/// colour or attribute.
#[verifier::external_body]
fn no_style() -> (r: crossterm::style::ContentStyle) {
    crossterm::style::ContentStyle::new()
}

/// Calls `Stylize::with` of crossterm on a style, which sets the colour of
/// the text, with crossterm's colour of the same name.
#[verifier::external_body]
fn coloured(style: crossterm::style::ContentStyle, color: Color) -> (r:
    crossterm::style::ContentStyle) {
    style.with(
        match color {
            Color::Red => crossterm::style::Color::Red,
            Color::Green => crossterm::style::Color::Green,
            Color::Yellow => crossterm::style::Color::Yellow,
            Color::Blue => crossterm::style::Color::Blue,
            Color::Magenta => crossterm::style::Color::Magenta,
            Color::Cyan => crossterm::style::Color::Cyan,
        },
    )
}

/// Calls `Stylize::white` of crossterm on a style, which sets the colour of
/// the text to white.
#[verifier::external_body]
fn whitened(style: crossterm::style::ContentStyle) -> (r: crossterm::style::ContentStyle) {
    style.white()
}

/// Calls `Stylize::bold` of crossterm on a style, which adds the attribute
/// bold.
#[verifier::external_body]
fn emboldened(style: crossterm::style::ContentStyle) -> (r: crossterm::style::ContentStyle) {
    style.bold()
}

/// Calls `Stylize::underlined` of crossterm on a style, which adds the
/// attribute underlined.
#[verifier::external_body]
fn underlined(style: crossterm::style::ContentStyle) -> (r: crossterm::style::ContentStyle) {
    style.underlined()
}

/// Calls `ContentStyle::apply` of crossterm and formats what it returns:
/// the text between the codes that switch the style on and off. What is
/// written depends on the terminal, so the contract claims nothing of it.
#[verifier::external_body]
fn rendered(style: crossterm::style::ContentStyle, s: &str) -> (r: String) {
    format!("{}", style.apply(s))
}

impl Default for Styler {
    fn default() -> (r: Self)
        ensures
            r.fg is None,
            !r.bold,
            !r.underline,
    {
        Self { fg: None, bold: false, underline: false }
    }
}

impl Styler {
    /// True when the text is shown as it is.
    pub open spec fn is_plain(&self) -> bool {
        !self.bold && !self.underline && self.fg is None
    }

    pub fn fg(self, color: Color) -> (r: Self)
        ensures
            r == (Styler { fg: Some(color), ..self }),
    {
        Self { fg: Some(color), bold: self.bold, underline: self.underline }
    }

    pub fn bold(self, yes: bool) -> (r: Self)
        ensures
            r == (Styler { bold: yes, ..self }),
    {
        Self { fg: self.fg, bold: yes, underline: self.underline }
    }

    pub fn underline(self, yes: bool) -> (r: Self)
        ensures
            r == (Styler { underline: yes, ..self }),
    {
        Self { fg: self.fg, bold: self.bold, underline: yes }
    }

    /// The text `s` in this style: as it is where there is neither colour
    /// nor emphasis, else between the codes of the terminal.
    pub fn style(&self, s: &str) -> (r: String)
        ensures
            self.is_plain() ==> r@ == s@,
    {
        if !(self.bold || self.underline) && self.fg.is_none() {
            return s.to_owned();
        }
        let c = match self.fg {
            Some(fg) => coloured(no_style(), fg),
            None => whitened(no_style()),
        };
        let c = if self.bold {
            emboldened(c)
        } else {
            c
        };
        let c = if self.underline {
            underlined(c)
        } else {
            c
        };
        rendered(c, s)
    }
}

/// A value that is shown as text, in a style of its own.
pub trait StyleDisplay {
    /// The style that this value is to be shown in.
    spec fn styled_as(&self) -> Styler;

    /// The text as which this value is to be shown.
    spec fn shown_as(&self) -> Seq<char>;

    /// The text as which this value is shown.
    fn text(&self) -> (r: String)
        ensures
            r@ == self.shown_as(),
    ;

    /// The style in which this value is shown.
    fn styler(&self) -> (r: Styler)
        ensures
            r == self.styled_as(),
    ;

    /// This value as text in its style.
    fn style(&self) -> (r: String)
        ensures
            self.styled_as().is_plain() ==> r@ == self.shown_as(),
    ;
}

impl StyleDisplay for String {
    open spec fn styled_as(&self) -> Styler {
        Styler { fg: None, bold: false, underline: false }
    }

    open spec fn shown_as(&self) -> Seq<char> {
        self@
    }

    fn text(&self) -> (r: String) {
        self.clone()
    }

    fn styler(&self) -> (r: Styler) {
        Styler::default()
    }

    fn style(&self) -> (r: String) {
        self.clone()
    }
}

impl StyleDisplay for Prio {
    open spec fn shown_as(&self) -> Seq<char> {
        self.name()
    }

    fn text(&self) -> (r: String) {
        self.to_string()
    }

    open spec fn styled_as(&self) -> Styler {
        Styler {
            fg: match self {
                Prio::Low => Some(Color::Blue),
                Prio::Normal => None,
                Prio::High => Some(Color::Yellow),
                Prio::Critical => Some(Color::Red),
            },
            bold: false,
            underline: false,
        }
    }

    fn styler(&self) -> (r: Styler) {
        let styler = Styler::default();
        match self {
            Prio::Low => styler.fg(Color::Blue),
            Prio::Normal => styler,
            Prio::High => styler.fg(Color::Yellow),
            Prio::Critical => styler.fg(Color::Red),
        }
    }

    fn style(&self) -> (r: String) {
        self.styler().style(self.to_string().as_str())
    }
}

impl StyleDisplay for Status {
    open spec fn shown_as(&self) -> Seq<char> {
        self.name()
    }

    fn text(&self) -> (r: String) {
        self.to_string()
    }

    open spec fn styled_as(&self) -> Styler {
        Styler {
            fg: match self {
                Status::New => Some(Color::Cyan),
                Status::Started => Some(Color::Blue),
                Status::Done => Some(Color::Green),
                Status::Blocked => Some(Color::Red),
            },
            bold: false,
            underline: false,
        }
    }

    fn styler(&self) -> (r: Styler) {
        let styler = Styler::default();
        match self {
            Status::New => styler.fg(Color::Cyan),
            Status::Started => styler.fg(Color::Blue),
            Status::Done => styler.fg(Color::Green),
            Status::Blocked => styler.fg(Color::Red),
        }
    }

    fn style(&self) -> (r: String) {
        self.styler().style(self.to_string().as_str())
    }
}

impl StyleDisplay for Action {
    open spec fn shown_as(&self) -> Seq<char> {
        self.name()
    }

    fn text(&self) -> (r: String) {
        self.to_string()
    }

    open spec fn styled_as(&self) -> Styler {
        Styler {
            fg: match self {
                Action::Add => Some(Color::Green),
                Action::Update => Some(Color::Cyan),
                Action::Remove => Some(Color::Red),
            },
            bold: false,
            underline: false,
        }
    }

    fn styler(&self) -> (r: Styler) {
        let styler = Styler::default();
        match self {
            Action::Add => styler.fg(Color::Green),
            Action::Update => styler.fg(Color::Cyan),
            Action::Remove => styler.fg(Color::Red),
        }
    }

    fn style(&self) -> (r: String) {
        self.styler().style(self.to_string().as_str())
    }
}

} // verus!
