//! Colouring of the messages a refresh prints.
use owo_colors::OwoColorize;
use vstd::prelude::*;
use vstd::string::*;

verus! {

/// The ANSI escape sequence that sets the foreground colour `code`.
pub open spec fn fg_start(code: char) -> Seq<char> {
    seq!['\u{1b}', '[', '3', code, 'm']
}

/// The ANSI escape sequence that restores the default foreground colour.
pub open spec fn fg_end() -> Seq<char> {
    seq!['\u{1b}', '[', '3', '9', 'm']
}

/// `msg` shown in the foreground colour `code` (`'2'` green, `'3'` yellow,
/// `'4'` blue).
pub open spec fn painted(code: char, msg: Seq<char>) -> Seq<char> {
    fg_start(code) + msg + fg_end()
}

/// `owo_colors::OwoColorize::green`, displayed. Claimed, as the crate's
/// `FgColorDisplay` writes it: the code for a green foreground, `msg`, then
/// the code for the default foreground.
#[verifier::external_body]
fn paint_green(msg: &str) -> (r: String)
    ensures
        r@ == painted('2', msg@),
{
    format!("{}", msg.green())
}

/// `owo_colors::OwoColorize::yellow`, displayed. Claimed: the code for a
/// yellow foreground, `msg`, then the code for the default foreground.
#[verifier::external_body]
fn paint_yellow(msg: &str) -> (r: String)
    ensures
        r@ == painted('3', msg@),
{
    format!("{}", msg.yellow())
}

/// `owo_colors::OwoColorize::blue`, displayed. Claimed: the code for a blue
/// foreground, `msg`, then the code for the default foreground.
#[verifier::external_body]
fn paint_blue(msg: &str) -> (r: String)
    ensures
        r@ == painted('4', msg@),
{
    format!("{}", msg.blue())
}

/// Whether messages are coloured: when standard error or standard output is a
/// terminal and `NO_COLOR` is not set.
pub fn should_use_color(stderr_is_tty: bool, stdout_is_tty: bool, no_color_set: bool) -> (b: bool)
    ensures
        b == ((stderr_is_tty || stdout_is_tty) && !no_color_set),
{
    (stderr_is_tty || stdout_is_tty) && !no_color_set
}

/// How messages are coloured.
pub struct Palette {
    pub enabled: bool,
}

impl Palette {
    /// A palette that colours when `enabled`.
    pub fn new(enabled: bool) -> (p: Self)
        ensures
            p.enabled == enabled,
    {
        Self { enabled }
    }

    /// What a palette makes of `msg` in the colour `code`.
    pub open spec fn shown(&self, code: char, msg: Seq<char>) -> Seq<char> {
        if self.enabled {
            painted(code, msg)
        } else {
            msg
        }
    }

    /// `msg` in green, for good news.
    pub fn good(&self, msg: &str) -> (r: String)
        ensures
            r@ == self.shown('2', msg@),
    {
        if self.enabled {
            paint_green(msg)
        } else {
            String::from_str(msg)
        }
    }

    /// `msg` in yellow, for warnings.
    pub fn warn(&self, msg: &str) -> (r: String)
        ensures
            r@ == self.shown('3', msg@),
    {
        if self.enabled {
            paint_yellow(msg)
        } else {
            String::from_str(msg)
        }
    }

    /// `msg` in blue, for information.
    pub fn info(&self, msg: &str) -> (r: String)
        ensures
            r@ == self.shown('4', msg@),
    {
        if self.enabled {
            paint_blue(msg)
        } else {
            String::from_str(msg)
        }
    }
}

} // verus!
