//! Areas of the screen, how they are split, and the box that asks for a confirmation.
use crate::ansi;
use crate::settings;
use crate::style;
use crate::style::{Color, Line, SpanView, Style};
use crate::text;
use vstd::prelude::*;

verus! {

/// An area of the screen.
#[derive(Clone, Copy, Debug, PartialEq, Eq, Structural)]
pub struct Rect {
    pub x: u16,
    pub y: u16,
    pub width: u16,
    pub height: u16,
}

impl Rect {
    /// The column behind the area's last one, as far as columns can be counted.
    pub open spec fn right_edge(self) -> int {
        if self.x + self.width > 65535 {
            65535
        } else {
            self.x + self.width
        }
    }

    /// Whether the area lies within the columns and rows that can be counted.
    pub open spec fn fits(self) -> bool {
        self.x + self.width <= 65535 && self.y + self.height <= 65535
    }

    /// The column behind the area's last one.
    pub fn right(self) -> (r: u16)
        ensures
            r == self.right_edge(),
    {
        if self.x as u32 + self.width as u32 > 65535 {
            65535
        } else {
            self.x + self.width
        }
    }
}

/// `a - b`, or nothing where that is less.
pub open spec fn less(a: u16, b: u16) -> u16 {
    if a >= b {
        (a - b) as u16
    } else {
        0
    }
}

/// `a - b`, or nothing where that is less.
pub fn minus(a: u16, b: u16) -> (r: u16)
    ensures
        r == less(a, b),
{
    if a >= b {
        a - b
    } else {
        0
    }
}

// ----------------------------------------------------------------------- parts

/// The height that a part of an area asks for.
#[derive(Clone, Copy, Debug, PartialEq, Eq, Structural)]
pub enum Part {
    /// So many rows.
    Length(u16),
    /// At least so many rows.
    Min(u16),
}

/// The rows that a part asks for, at the least.
pub open spec fn asked(p: Part) -> nat {
    match p {
        Part::Length(n) => n as nat,
        Part::Min(n) => n as nat,
    }
}

/// The rows that parts ask for together.
pub open spec fn asked_rows(parts: Seq<Part>) -> nat
    decreases parts.len(),
{
    if parts.len() == 0 {
        0
    } else {
        asked_rows(parts.drop_last()) + asked(parts.last())
    }
}

/// How many parts take what is left over.
pub open spec fn mins(parts: Seq<Part>) -> nat
    decreases parts.len(),
{
    if parts.len() == 0 {
        0
    } else {
        mins(parts.drop_last()) + (if parts.last() is Min {
            1nat
        } else {
            0
        })
    }
}

/// The rows of a part where `left` rows are left over for the one that takes them.
pub open spec fn share(p: Part, left: nat) -> nat {
    match p {
        Part::Length(n) => n as nat,
        Part::Min(n) => n as nat + left,
    }
}

/// The rows of parts together.
pub open spec fn shared_rows(parts: Seq<Part>, left: nat) -> nat
    decreases parts.len(),
{
    if parts.len() == 0 {
        0
    } else {
        shared_rows(parts.drop_last(), left) + share(parts.last(), left)
    }
}

/// Splits an area from top to bottom with `ratatui`'s `Layout::vertical` and
/// `Layout::split`: there is one part for each height that is asked for, and each is
/// as wide as the area and begins in its first column. Where the heights fit into the
/// area and one part asks for a least height, the parts follow each other from the
/// top, each with the rows it asks for, and that one with the rest as well. Which rows
/// the parts get where the heights do not fit is left unsaid: a solver over
/// floating-point numbers decides that, and it may decide otherwise the next time.
#[verifier::external_body]
pub(crate) fn split_rows(area: Rect, parts: &Vec<Part>) -> (r: Vec<Rect>)
    ensures
        r@.len() == parts@.len(),
        forall|i: int|
            0 <= i < r@.len() ==> (#[trigger] r@[i]).x == area.x && r@[i].width == area.width,
        area.fits() && mins(parts@) == 1 && asked_rows(parts@) <= area.height ==> ({
            let left = (area.height - asked_rows(parts@)) as nat;
            forall|i: int|
                0 <= i < r@.len() ==> (#[trigger] r@[i]).y == area.y + shared_rows(
                    parts@.take(i),
                    left,
                ) && r@[i].height == share(parts@[i], left)
        }),
{
    let asked = parts.iter().map(
        |p| match p {
            Part::Length(n) => ratatui::layout::Constraint::Length(*n),
            Part::Min(n) => ratatui::layout::Constraint::Min(*n),
        },
    );
    let Rect { x, y, width, height } = area;
    let whole = ratatui::layout::Rect { x, y, width, height };
    let split = ratatui::layout::Layout::vertical(asked).split(whole);
    split.iter().map(|a| Rect { x: a.x, y: a.y, width: a.width, height: a.height }).collect()
}

// ----------------------------------------------------------------------- popups

/// How wide the box may be that asks for a confirmation.
pub const POPUP_WIDTH: u16 = 90;

/// How high the box is that asks for a confirmation.
pub const POPUP_HEIGHT: u16 = 10;

/// Where the box stands that asks for a confirmation: in the middle.
pub open spec fn popup_rect(area: Rect) -> Rect {
    let width = if area.width < POPUP_WIDTH {
        area.width
    } else {
        POPUP_WIDTH
    };
    Rect {
        x: (area.x + less(area.width, width) / 2) as u16,
        y: (area.y + less(area.height, POPUP_HEIGHT) / 2) as u16,
        width,
        height: POPUP_HEIGHT,
    }
}

/// What the box says: what it is about, the first part of its text, and the keys. The
/// first two are stripped of what a terminal would obey.
pub open spec fn popup_text(title: Seq<char>, body: Seq<char>, hint: Seq<char>) -> Seq<
    Seq<SpanView>,
> {
    Seq::empty().push(style::one("  "@ + ansi::stripped(title), style::bold(Color::Yellow))).push(
        Seq::empty(),
    ).push(style::one(settings::shortened(ansi::stripped(body), 78), style::plain())).push(Seq::empty()).push(
        style::one("  "@ + hint, style::colored(Color::Cyan)),
    )
}

/// The keys of a permission.
pub const PERMISSION_KEYS: &'static str =
    "y 允许一次 | a 本会话都允许 | n 拒绝 | Esc 取消";

/// The keys of a confirmation.
pub const CONFIRM_KEYS: &'static str = "y 确认 | n / Esc 取消";

/// Where the box stands that asks for a confirmation.
pub fn popup_area(area: Rect) -> (r: Rect)
    requires
        area.fits(),
    ensures
        r == popup_rect(area),
{
    let width: u16 = if area.width < POPUP_WIDTH {
        area.width
    } else {
        POPUP_WIDTH
    };
    Rect {
        x: area.x + minus(area.width, width) / 2,
        y: area.y + minus(area.height, POPUP_HEIGHT) / 2,
        width,
        height: POPUP_HEIGHT,
    }
}

/// What the box says that asks for a confirmation.
pub fn popup_lines(title: &str, body: &str, hint: &str) -> (r: Vec<Line>)
    ensures
        style::line_views(r@) == popup_text(title@, body@, hint@),
{
    let mut out = style::no_lines();
    let title = ansi::strip(title);
    let body = ansi::strip(body);
    style::push_text_line(
        &mut out,
        text::cat2("  ", title.as_str()),
        Style::bold_of(Color::Yellow),
    );
    style::push_blank(&mut out);
    style::push_text_line(&mut out, settings::shorten(body.as_str(), 78), Style::new());
    style::push_blank(&mut out);
    style::push_text_line(&mut out, text::cat2("  ", hint), Style::of(Color::Cyan));
    out
}

/// The box lies within the screen's columns, and in its middle: what is left of it
/// and what is right of it differ by one column at most.
pub proof fn law_popup_is_centred(area: Rect)
    requires
        area.fits(),
    ensures
        ({
            let p = popup_rect(area);
            let left = p.x - area.x;
            let right = area.x + area.width - (p.x + p.width);
            0 <= left <= right <= left + 1
        }),
{
}

} // verus!
