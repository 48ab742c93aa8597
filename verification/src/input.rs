//! Native input: buttons, keys, and the pace of gestures.
use crate::duration::Duration;
use crate::error::{Error, ErrorView, Result};
use crate::stage::Act;
use crate::text;
use crate::text::{decimal_text, glue3};
use vstd::prelude::*;

verus! {

// ---------------------------------------------------------------------------
// Buttons and modifiers
// ---------------------------------------------------------------------------

/// X11 mouse button.
#[derive(Clone, Copy, Debug, Eq, PartialEq, Structural)]
pub enum Button {
    Primary,
    Middle,
    Secondary,
}

impl Button {
    /// The button's number in the protocol.
    pub open spec fn number(self) -> u8 {
        match self {
            Button::Primary => 1,
            Button::Middle => 2,
            Button::Secondary => 3,
        }
    }

    /// The button's name.
    pub open spec fn name(self) -> Seq<char> {
        match self {
            Button::Primary => "Primary"@,
            Button::Middle => "Middle"@,
            Button::Secondary => "Secondary"@,
        }
    }

    /// The button's number in the protocol.
    pub fn detail(self) -> (number: u8)
        ensures
            number == self.number(),
    {
        match self {
            Button::Primary => 1,
            Button::Middle => 2,
            Button::Secondary => 3,
        }
    }

    /// The button's name.
    pub fn text(self) -> (name: &'static str)
        ensures
            name@ == self.name(),
    {
        match self {
            Button::Primary => "Primary",
            Button::Middle => "Middle",
            Button::Secondary => "Secondary",
        }
    }
}

/// Keyboard modifiers held around one atomic input gesture.
#[derive(Clone, Copy, Debug, Eq, PartialEq, Structural)]
pub struct Modifiers {
    pub shift: bool,
    pub ctrl: bool,
    pub alt: bool,
    pub logo: bool,
}

impl Default for Modifiers {
    fn default() -> (modifiers: Self)
        ensures
            modifiers == Modifiers::none(),
    {
        Modifiers::empty()
    }
}

/// Names with a bar between them.
pub open spec fn barred(names: Seq<Seq<char>>) -> Seq<char>
    decreases names.len(),
{
    if names.len() == 0 {
        seq![]
    } else if names.len() == 1 {
        names[0]
    } else {
        barred(names.drop_last()) + " | "@ + names.last()
    }
}

/// A name that is listed only when it applies.
pub open spec fn listed(held: bool, name: Seq<char>) -> Seq<Seq<char>> {
    if held {
        seq![name]
    } else {
        seq![]
    }
}

impl Modifiers {
    /// No modifier.
    pub open spec fn none() -> Self {
        Modifiers { shift: false, ctrl: false, alt: false, logo: false }
    }

    /// The modifiers of both.
    pub open spec fn both(self, other: Self) -> Self {
        Modifiers {
            shift: self.shift || other.shift,
            ctrl: self.ctrl || other.ctrl,
            alt: self.alt || other.alt,
            logo: self.logo || other.logo,
        }
    }

    /// The names of the held modifiers.
    pub open spec fn names(self) -> Seq<Seq<char>> {
        listed(self.shift, "SHIFT"@) + listed(self.ctrl, "CTRL"@) + listed(self.alt, "ALT"@)
            + listed(self.logo, "SUPER"@)
    }

    /// The rendering of the held modifiers.
    pub open spec fn rendered(self) -> Seq<char> {
        "Modifiers("@ + (if self == Self::none() {
            "0x0"@
        } else {
            barred(self.names())
        }) + ")"@
    }

    /// No modifier.
    pub fn empty() -> (modifiers: Self)
        ensures
            modifiers == Self::none(),
    {
        Modifiers { shift: false, ctrl: false, alt: false, logo: false }
    }

    /// The shift key.
    pub fn shift() -> (modifiers: Self)
        ensures
            modifiers == (Modifiers { shift: true, ..Self::none() }),
    {
        Modifiers { shift: true, ctrl: false, alt: false, logo: false }
    }

    /// The control key.
    pub fn ctrl() -> (modifiers: Self)
        ensures
            modifiers == (Modifiers { ctrl: true, ..Self::none() }),
    {
        Modifiers { shift: false, ctrl: true, alt: false, logo: false }
    }

    /// The alternate key.
    pub fn alt() -> (modifiers: Self)
        ensures
            modifiers == (Modifiers { alt: true, ..Self::none() }),
    {
        Modifiers { shift: false, ctrl: false, alt: true, logo: false }
    }

    /// The super key.
    pub fn logo() -> (modifiers: Self)
        ensures
            modifiers == (Modifiers { logo: true, ..Self::none() }),
    {
        Modifiers { shift: false, ctrl: false, alt: false, logo: true }
    }

    /// Hold the modifiers of both.
    pub fn union(self, other: Self) -> (modifiers: Self)
        ensures
            modifiers == self.both(other),
    {
        Modifiers {
            shift: self.shift || other.shift,
            ctrl: self.ctrl || other.ctrl,
            alt: self.alt || other.alt,
            logo: self.logo || other.logo,
        }
    }

    /// Render the held modifiers.
    pub fn text(self) -> (text: String)
        ensures
            text@ == self.rendered(),
    {
        let mut names: Vec<&'static str> = Vec::new();
        if self.shift {
            names.push("SHIFT");
        }
        if self.ctrl {
            names.push("CTRL");
        }
        if self.alt {
            names.push("ALT");
        }
        if self.logo {
            names.push("SUPER");
        }
        let ghost spelled = Seq::new(names@.len(), |i: int| names@[i]@);
        assert(spelled =~= self.names());
        if names.len() == 0 {
            return glue3("Modifiers(", "0x0", ")");
        }
        let mut list = names[0].to_owned();
        let mut index: usize = 1;
        assert(spelled.take(1) =~= seq![spelled[0]]);
        while index < names.len()
            invariant
                1 <= index <= names.len(),
                spelled.len() == names@.len(),
                forall|i: int| 0 <= i < names@.len() ==> spelled[i] == (#[trigger] names@[i])@,
                list@ == barred(spelled.take(index as int)),
            decreases names.len() - index,
        {
            list.append(" | ");
            list.append(names[index]);
            assert(spelled.take(index + 1).drop_last() =~= spelled.take(index as int));
            index = index + 1;
        }
        assert(spelled.take(index as int) =~= spelled);
        glue3("Modifiers(", list.as_str(), ")")
    }
}

// ---------------------------------------------------------------------------
// Keys
// ---------------------------------------------------------------------------

/// Portable key subset plus Latin-1 characters.
#[derive(Clone, Copy, Debug, Eq, PartialEq, Structural)]
pub enum Key {
    Character(char),
    Return,
    Escape,
    Tab,
    Backspace,
    Delete,
    Home,
    End,
    Left,
    Right,
    Up,
    Down,
    Function(u8),
    Shift,
    Control,
    Alt,
    Super,
}

impl View for Key {
    type V = Key;

    open spec fn view(&self) -> Key {
        *self
    }
}

impl Act for Key {
    fn noted(&self) -> (copy: Self) {
        *self
    }
}

/// A character in quotes, escaped as a literal.
pub uninterp spec fn quoted(character: char) -> Seq<char>;

/// The `Debug` rendering of a character: quoted, and escaped where a literal
/// would escape it. It depends on the character alone; [`quoted`] names it.
#[verifier::external_body]
fn quoted_text(character: char) -> (text: String)
    ensures
        text@ == quoted(character),
{
    format!("{character:?}")
}

pub const SHIFT_L: u32 = 0xffe1;

pub const CONTROL_L: u32 = 0xffe3;

pub const ALT_L: u32 = 0xffe9;

pub const SUPER_L: u32 = 0xffeb;

impl Key {
    /// The key's rendering.
    pub open spec fn rendered(self) -> Seq<char> {
        match self {
            Key::Character(character) => "Character("@ + quoted(character) + ")"@,
            Key::Return => "Return"@,
            Key::Escape => "Escape"@,
            Key::Tab => "Tab"@,
            Key::Backspace => "Backspace"@,
            Key::Delete => "Delete"@,
            Key::Home => "Home"@,
            Key::End => "End"@,
            Key::Left => "Left"@,
            Key::Right => "Right"@,
            Key::Up => "Up"@,
            Key::Down => "Down"@,
            Key::Function(number) => "Function("@ + text::decimal(number as nat) + ")"@,
            Key::Shift => "Shift"@,
            Key::Control => "Control"@,
            Key::Alt => "Alt"@,
            Key::Super => "Super"@,
        }
    }

    /// Why a key has no symbol, when it has none.
    pub open spec fn symbol_fault(self) -> Option<ErrorView> {
        match self {
            Key::Character(character) if character as u32 > 0xff => Some(
                ErrorView::Unsupported {
                    capability: "text input"@,
                    detail: "`"@ + seq![character]
                        + "` is outside the MVP's Latin-1 X11 key injection"@,
                },
            ),
            Key::Function(number) if number == 0 || number > 12 => Some(
                ErrorView::Unsupported {
                    capability: "function key"@,
                    detail: "F"@ + text::decimal(number as nat)
                        + " is outside the portable F1\u{2013}F12 set"@,
                },
            ),
            _ => None,
        }
    }

    /// The X11 symbol of a key that has one.
    pub open spec fn symbol(self) -> int {
        match self {
            Key::Character(character) => character as int,
            Key::Return => 0xff0d,
            Key::Escape => 0xff1b,
            Key::Tab => 0xff09,
            Key::Backspace => 0xff08,
            Key::Delete => 0xffff,
            Key::Home => 0xff50,
            Key::End => 0xff57,
            Key::Left => 0xff51,
            Key::Right => 0xff53,
            Key::Up => 0xff52,
            Key::Down => 0xff54,
            Key::Function(number) => 0xffbd + number,
            Key::Shift => SHIFT_L as int,
            Key::Control => CONTROL_L as int,
            Key::Alt => ALT_L as int,
            Key::Super => SUPER_L as int,
        }
    }

    /// Render the key.
    pub fn text(self) -> (text: String)
        ensures
            text@ == self.rendered(),
    {
        match self {
            Key::Character(character) => glue3("Character(", quoted_text(character).as_str(), ")"),
            Key::Return => "Return".to_owned(),
            Key::Escape => "Escape".to_owned(),
            Key::Tab => "Tab".to_owned(),
            Key::Backspace => "Backspace".to_owned(),
            Key::Delete => "Delete".to_owned(),
            Key::Home => "Home".to_owned(),
            Key::End => "End".to_owned(),
            Key::Left => "Left".to_owned(),
            Key::Right => "Right".to_owned(),
            Key::Up => "Up".to_owned(),
            Key::Down => "Down".to_owned(),
            Key::Function(number) => glue3("Function(", decimal_text(number as u128).as_str(), ")"),
            Key::Shift => "Shift".to_owned(),
            Key::Control => "Control".to_owned(),
            Key::Alt => "Alt".to_owned(),
            Key::Super => "Super".to_owned(),
        }
    }

    /// The X11 symbol of the key. Characters beyond Latin-1 and function keys
    /// beyond the twelfth have none.
    pub fn keysym(self) -> (symbol: Result<u32>)
        ensures
            match symbol {
                Ok(symbol) => self.symbol_fault() is None && symbol == self.symbol(),
                Err(error) => self.symbol_fault() == Some(error@),
            },
    {
        match self {
            Key::Character(character) => {
                let code: u32 = character as u32;
                if code > 0xff {
                    let mut spelled = String::new();
                    spelled.push(character);
                    assert(spelled@ =~= seq![character]);
                    return Err(
                        Error::Unsupported {
                            capability: "text input",
                            detail: glue3(
                                "`",
                                spelled.as_str(),
                                "` is outside the MVP's Latin-1 X11 key injection",
                            ),
                        },
                    );
                }
                Ok(code)
            },
            Key::Return => Ok(0xff0d),
            Key::Escape => Ok(0xff1b),
            Key::Tab => Ok(0xff09),
            Key::Backspace => Ok(0xff08),
            Key::Delete => Ok(0xffff),
            Key::Home => Ok(0xff50),
            Key::End => Ok(0xff57),
            Key::Left => Ok(0xff51),
            Key::Right => Ok(0xff53),
            Key::Up => Ok(0xff52),
            Key::Down => Ok(0xff54),
            Key::Function(number) => {
                if number == 0 || number > 12 {
                    return Err(
                        Error::Unsupported {
                            capability: "function key",
                            detail: glue3(
                                "F",
                                decimal_text(number as u128).as_str(),
                                " is outside the portable F1\u{2013}F12 set",
                            ),
                        },
                    );
                }
                Ok(0xffbd + number as u32)
            },
            Key::Shift => Ok(SHIFT_L),
            Key::Control => Ok(CONTROL_L),
            Key::Alt => Ok(ALT_L),
            Key::Super => Ok(SUPER_L),
        }
    }
}

// ---------------------------------------------------------------------------
// Pace
// ---------------------------------------------------------------------------

/// Human-like pointer drag policy.
#[derive(Clone, Copy, Debug, Eq, PartialEq)]
pub struct Drag {
    pub button: Button,
    /// Time allowed for the application to acquire the pressed target before motion.
    pub press_duration: Duration,
    pub steps: u16,
    /// Total time spent transporting the pointer after acquisition.
    pub duration: Duration,
}

/// Timed polyline traversed while one pointer button remains held.
#[derive(Clone, Copy, Debug, Eq, PartialEq)]
pub struct Stroke {
    pub button: Button,
    /// Time allowed for the application to acquire the pressed target.
    pub press_duration: Duration,
    pub steps_per_leg: u16,
    pub leg_duration: Duration,
    /// Dwell at each knot before beginning the next leg.
    ///
    /// Use this when the product must observe polyline corners despite native
    /// motion coalescing. The final dwell precedes button release.
    pub knot_dwell: Duration,
}

/// Timed wheel gesture; each tick reaches the product as a distinct input.
#[derive(Clone, Copy, Debug, Eq, PartialEq)]
pub struct Wheel {
    pub tick_duration: Duration,
}

/// Timed pointer transport without a held button.
#[derive(Clone, Copy, Debug, Eq, PartialEq)]
pub struct Motion {
    pub steps: u16,
    pub duration: Duration,
}

impl Default for Drag {
    fn default() -> (policy: Self)
        ensures
            policy.button == Button::Primary,
            policy.press_duration@ == 32_000_000,
            policy.steps == 8,
            policy.duration@ == 120_000_000,
    {
        Drag {
            button: Button::Primary,
            press_duration: Duration::from_millis(32),
            steps: 8,
            duration: Duration::from_millis(120),
        }
    }
}

impl Default for Motion {
    fn default() -> (policy: Self)
        ensures
            policy.steps == 8,
            policy.duration@ == 120_000_000,
    {
        Motion { steps: 8, duration: Duration::from_millis(120) }
    }
}

impl Default for Stroke {
    fn default() -> (policy: Self)
        ensures
            policy.button == Button::Primary,
            policy.press_duration@ == 32_000_000,
            policy.steps_per_leg == 8,
            policy.leg_duration@ == 120_000_000,
            policy.knot_dwell@ == 0,
    {
        Stroke {
            button: Button::Primary,
            press_duration: Duration::from_millis(32),
            steps_per_leg: 8,
            leg_duration: Duration::from_millis(120),
            knot_dwell: Duration::zero(),
        }
    }
}

impl Default for Wheel {
    fn default() -> (policy: Self)
        ensures
            policy.tick_duration@ == 24_000_000,
    {
        Wheel { tick_duration: Duration::from_millis(24) }
    }
}

// ---------------------------------------------------------------------------
// Laws
// ---------------------------------------------------------------------------

/// Gestures go at a human pace unless they are told otherwise: eight steps in a hundred and
/// twenty milliseconds, a press held for two frames, and a tick every twenty-four milliseconds.
pub proof fn law_gestures_are_paced_like_a_person(
    drag: Drag,
    motion: Motion,
    stroke: Stroke,
    wheel: Wheel,
)
    requires
        <Drag as Default>::default.ensures((), drag),
        <Motion as Default>::default.ensures((), motion),
        <Stroke as Default>::default.ensures((), stroke),
        <Wheel as Default>::default.ensures((), wheel),
    ensures
        drag.button == Button::Primary && drag.press_duration@ == 32_000_000 && drag.steps == 8
            && drag.duration@ == 120_000_000,
        motion.steps == 8 && motion.duration@ == 120_000_000,
        stroke.button == Button::Primary && stroke.press_duration@ == 32_000_000
            && stroke.steps_per_leg == 8 && stroke.leg_duration@ == 120_000_000
            && stroke.knot_dwell@ == 0,
        wheel.tick_duration@ == 24_000_000,
{
}

/// Holding two sets of modifiers holds exactly the keys of either, and each name holds its
/// own key alone.
pub proof fn law_modifiers_are_held_together(
    left: Modifiers,
    right: Modifiers,
    both: Modifiers,
    none: Modifiers,
    shift: Modifiers,
    ctrl: Modifiers,
    alt: Modifiers,
    logo: Modifiers,
)
    requires
        Modifiers::union.ensures((left, right), both),
        Modifiers::empty.ensures((), none),
        Modifiers::shift.ensures((), shift),
        Modifiers::ctrl.ensures((), ctrl),
        Modifiers::alt.ensures((), alt),
        Modifiers::logo.ensures((), logo),
    ensures
        both.shift <==> left.shift || right.shift,
        both.ctrl <==> left.ctrl || right.ctrl,
        both.alt <==> left.alt || right.alt,
        both.logo <==> left.logo || right.logo,
        !none.shift && !none.ctrl && !none.alt && !none.logo,
        shift.shift && !shift.ctrl && !shift.alt && !shift.logo,
        !ctrl.shift && ctrl.ctrl && !ctrl.alt && !ctrl.logo,
        !alt.shift && !alt.ctrl && alt.alt && !alt.logo,
        !logo.shift && !logo.ctrl && !logo.alt && logo.logo,
{
}

} // verus!
