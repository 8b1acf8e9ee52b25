//! Scrolling through the messages: how far up the view stands, counted from the
//! last line, what keys and the mouse do to that, and the bar at the right.
use crate::input::KeyCode;
use crate::layout::Rect;
use vstd::arithmetic::div_mod;
use vstd::arithmetic::mul;
use vstd::prelude::*;

verus! {

/// How many lines an arrow key or a turn of the wheel scrolls.
pub const STEP: usize = 3;

/// How many lines a page key scrolls.
pub const PAGE: usize = 15;

/// What the mouse did.
#[derive(Clone, Copy, Debug, PartialEq, Eq, Structural)]
pub enum MouseKind {
    ScrollUp,
    ScrollDown,
    /// The left button went down.
    LeftDown,
    /// The mouse moved with the left button down.
    LeftDrag,
    /// A button went up.
    Up,
    /// Anything else.
    Other,
}

/// What the mouse did, and where.
#[derive(Clone, Copy, Debug, PartialEq, Eq, Structural)]
pub struct MouseEvent {
    pub kind: MouseKind,
    pub column: u16,
    pub row: u16,
}

/// Where the view stands.
#[derive(Clone, Copy, Debug, PartialEq, Eq, Structural)]
pub struct Scroll {
    /// How many lines there are below the view.
    pub back: usize,
    /// Whether the view follows the last line.
    pub at_bottom: bool,
    /// Whether the bar is being dragged.
    pub dragging: bool,
    /// How many lines there were when the view was last drawn.
    pub total: usize,
    /// How far the view could be scrolled when it was last drawn.
    pub range: usize,
    /// Where the messages were last drawn.
    pub area: Rect,
}

// ------------------------------------------------------------------------ keys

/// The view, further up.
pub open spec fn scrolled_up(s: Scroll, n: usize) -> Scroll {
    Scroll {
        at_bottom: false,
        back: if s.back + n > usize::MAX {
            usize::MAX
        } else {
            (s.back + n) as usize
        },
        ..s
    }
}

/// The view, further down; at the last line it follows that again.
pub open spec fn scrolled_down(s: Scroll, n: usize) -> Scroll {
    let back = if s.back >= n {
        (s.back - n) as usize
    } else {
        0
    };
    Scroll { back, at_bottom: s.at_bottom || back == 0, ..s }
}

/// What a key does to the view.
pub open spec fn key_scrolled(s: Scroll, k: KeyCode) -> Scroll {
    match k {
        KeyCode::Up => scrolled_up(s, STEP),
        KeyCode::Down => scrolled_down(s, STEP),
        KeyCode::PageUp => scrolled_up(s, PAGE),
        KeyCode::PageDown => scrolled_down(s, PAGE),
        KeyCode::Home => Scroll { at_bottom: false, back: usize::MAX, ..s },
        KeyCode::End => Scroll { at_bottom: true, back: 0, ..s },
        _ => s,
    }
}

// ----------------------------------------------------------------------- mouse

/// Whether there is nothing to scroll, or no room for it.
pub open spec fn irrelevant(range: usize, area: Rect) -> bool {
    range == 0 || area.width == 0 || area.height <= 2
}

/// The last row inside the frame of an area.
pub open spec fn last_row(area: Rect) -> int {
    let end = if area.y + area.height > 65535 {
        65535
    } else {
        area.y + area.height
    };
    if end >= 2 {
        end - 2
    } else {
        0
    }
}

/// Whether the mouse is inside the frame of an area, or on its sides.
pub open spec fn is_inside(m: MouseEvent, area: Rect) -> bool {
    m.column < area.right_edge() && m.row > area.y && m.row <= last_row(area)
}

/// The row of the bar that a row of the screen belongs to.
pub open spec fn bar_row(row: u16, area: Rect) -> int {
    let rows = area.height - 2;
    let r = row - (area.y + 1);
    if r < 0 {
        0
    } else if r > rows - 1 {
        rows - 1
    } else {
        r
    }
}

/// How many lines are below the view when the bar is at the given row of so many.
pub open spec fn jump_back(range: int, r: int, rows: int) -> int {
    let d = if rows - 1 < 1 {
        1
    } else {
        rows - 1
    };
    range - (range * r) / d
}

/// The view, with the bar at the given row of the screen.
pub open spec fn jumped(s: Scroll, row: u16) -> Scroll {
    if s.range == 0 {
        Scroll { back: 0, at_bottom: true, ..s }
    } else if s.area.height <= 2 {
        s
    } else {
        let back = jump_back(s.range as int, bar_row(row, s.area), s.area.height - 2);
        Scroll { back: back as usize, at_bottom: back == 0, ..s }
    }
}

/// What the mouse does to the view: the wheel scrolls; the left button on the bar
/// moves it there, and drags it until a button goes up.
pub open spec fn mouse_scrolled(s: Scroll, m: MouseEvent) -> Scroll {
    if irrelevant(s.range, s.area) || !is_inside(m, s.area) {
        s
    } else {
        let on_bar = m.column == (if s.area.right_edge() > 0 {
            s.area.right_edge() - 1
        } else {
            0
        });
        match m.kind {
            MouseKind::ScrollUp => scrolled_up(s, STEP),
            MouseKind::ScrollDown => scrolled_down(s, STEP),
            MouseKind::LeftDown => if on_bar {
                jumped(Scroll { dragging: true, ..s }, m.row)
            } else {
                s
            },
            MouseKind::LeftDrag => if on_bar {
                jumped(Scroll { dragging: true, ..s }, m.row)
            } else if s.dragging {
                jumped(s, m.row)
            } else {
                s
            },
            MouseKind::Up => Scroll { dragging: false, ..s },
            MouseKind::Other => s,
        }
    }
}

// ---------------------------------------------------------------------- frames

/// How many lines are below the view when it is drawn: none where it follows the
/// last line or all lines fit; else lines that came since it was last drawn do not
/// move it.
pub open spec fn frame_back(s: Scroll, total: nat, view_h: nat) -> nat {
    let grown = if total > s.total {
        (total - s.total) as nat
    } else {
        0
    };
    if s.at_bottom || total <= view_h {
        0
    } else if s.back + grown > total - view_h {
        (total - view_h) as nat
    } else {
        (s.back + grown) as nat
    }
}

/// The first line of the view.
pub open spec fn frame_start(back: nat, total: nat, view_h: nat) -> nat {
    if total > view_h + back {
        (total - (view_h + back)) as nat
    } else {
        0
    }
}

/// The line behind the view's last one.
pub open spec fn frame_end(back: nat, total: nat, view_h: nat) -> nat {
    let e = frame_start(back, total, view_h) + view_h;
    if e < total {
        e
    } else {
        total
    }
}

/// The view once it is drawn.
pub open spec fn framed(s: Scroll, total: usize, view_h: usize, area: Rect) -> Scroll {
    Scroll {
        back: frame_back(s, total as nat, view_h as nat) as usize,
        total,
        range: if total > view_h {
            (total - view_h) as usize
        } else {
            0
        },
        area,
        ..s
    }
}

// ------------------------------------------------------------------------- bar

/// Whether there is a bar.
pub open spec fn has_bar(total: int, view_h: int) -> bool {
    total > view_h && view_h > 0
}

/// How long the bar is: as much of the view as the view is of all lines.
pub open spec fn bar_len(total: int, view_h: int) -> int {
    let t = (view_h * view_h) / total;
    if t < 1 {
        1
    } else if t > view_h {
        view_h
    } else {
        t
    }
}

/// The first row of the bar.
pub open spec fn bar_pos(total: int, view_h: int, back: int) -> int {
    let range = total - view_h;
    let b = if back < range {
        back
    } else {
        range
    };
    ((range - b) * (view_h - bar_len(total, view_h))) / range
}

proof fn lemma_share(n: int, r: int, d: int)
    requires
        0 <= n,
        0 <= r <= d,
        0 < d,
    ensures
        0 <= (n * r) / d <= n,
{
    mul::lemma_mul_inequality(r, d, n);
    mul::lemma_mul_is_commutative(n, r);
    mul::lemma_mul_is_commutative(n, d);
    mul::lemma_mul_nonnegative(n, r);
    div_mod::lemma_div_is_ordered(n * r, n * d, d);
    div_mod::lemma_div_multiples_vanish(n, d);
    div_mod::lemma_div_pos_is_pos(n * r, d);
}

fn share(n: usize, r: usize, d: usize) -> (q: usize)
    requires
        r <= d,
        0 < d,
    ensures
        q == (n * r) / (d as int),
        q <= n,
{
    proof {
        lemma_share(n as int, r as int, d as int);
        mul::lemma_mul_upper_bound(n as int, u64::MAX as int, r as int, u64::MAX as int);
        mul::lemma_mul_nonnegative(n as int, r as int);
        assert(u64::MAX * u64::MAX <= u128::MAX) by (nonlinear_arith);
    }
    let p: u128 = (n as u128) * (r as u128);
    let q: u128 = p / (d as u128);
    q as usize
}

/// The first row of the bar and its length, where there is one.
pub fn thumb(total: usize, view_h: usize, back: usize) -> (r: Option<(usize, usize)>)
    ensures
        match r {
            Some((pos, len)) => {
                &&& has_bar(total as int, view_h as int)
                &&& pos == bar_pos(total as int, view_h as int, back as int)
                &&& len == bar_len(total as int, view_h as int)
            },
            None => !has_bar(total as int, view_h as int),
        },
{
    if total <= view_h || view_h == 0 {
        return None;
    }
    let t: usize = share(view_h, view_h, total);
    let len: usize = if t < 1 {
        1
    } else if t > view_h {
        view_h
    } else {
        t
    };
    let range: usize = total - view_h;
    let b: usize = if back < range {
        back
    } else {
        range
    };
    let travel: usize = view_h - len;
    proof {
        mul::lemma_mul_is_commutative(travel as int, (range - b) as int);
    }
    let pos: usize = share(travel, range - b, range);
    Some((pos, len))
}

impl Scroll {
    /// A view that follows the last line.
    pub fn new() -> (r: Scroll)
        ensures
            r == (Scroll {
                back: 0,
                at_bottom: true,
                dragging: false,
                total: 0,
                range: 0,
                area: Rect { x: 0, y: 0, width: 0, height: 0 },
            }),
    {
        Scroll {
            back: 0,
            at_bottom: true,
            dragging: false,
            total: 0,
            range: 0,
            area: Rect { x: 0, y: 0, width: 0, height: 0 },
        }
    }

    /// Lets the view follow the last line again, once it is drawn.
    pub fn follow(&mut self)
        ensures
            *final(self) == (Scroll { at_bottom: true, ..*old(self) }),
    {
        self.at_bottom = true;
    }

    fn up_by(&mut self, n: usize)
        ensures
            *final(self) == scrolled_up(*old(self), n),
    {
        self.at_bottom = false;
        self.back = if n > usize::MAX - self.back {
            usize::MAX
        } else {
            self.back + n
        };
    }

    fn down_by(&mut self, n: usize)
        ensures
            *final(self) == scrolled_down(*old(self), n),
    {
        self.back = if self.back >= n {
            self.back - n
        } else {
            0
        };
        if self.back == 0 {
            self.at_bottom = true;
        }
    }

    /// What a key does to the view.
    pub fn on_key(&mut self, k: KeyCode)
        ensures
            *final(self) == key_scrolled(*old(self), k),
    {
        match k {
            KeyCode::Up => self.up_by(STEP),
            KeyCode::Down => self.down_by(STEP),
            KeyCode::PageUp => self.up_by(PAGE),
            KeyCode::PageDown => self.down_by(PAGE),
            KeyCode::Home => {
                self.at_bottom = false;
                self.back = usize::MAX;
            },
            KeyCode::End => {
                self.back = 0;
                self.at_bottom = true;
            },
            _ => {},
        }
    }

    /// Moves the view to where the bar is put on a row of the screen.
    pub fn jump_scroll_to(&mut self, row: u16)
        ensures
            *final(self) == jumped(*old(self), row),
    {
        let range: usize = self.range;
        if range == 0 {
            self.back = 0;
            self.at_bottom = true;
            return;
        }
        let height: u16 = self.area.height;
        if height <= 2 {
            return;
        }
        let rows: u16 = height - 2;
        let y: u16 = self.area.y;
        let r: u16 = if row <= y {
            0
        } else if row - y - 1 > rows - 1 {
            rows - 1
        } else {
            row - y - 1
        };
        let d: u16 = if rows - 1 < 1 {
            1
        } else {
            rows - 1
        };
        let from_top: usize = share(range, r as usize, d as usize);
        let back: usize = range - from_top;
        self.back = back;
        self.at_bottom = back == 0;
    }

    /// What the mouse does to the view.
    pub fn handle_mouse_scroll(&mut self, m: MouseEvent)
        ensures
            *final(self) == mouse_scrolled(*old(self), m),
    {
        if self.range == 0 || self.area.width == 0 || self.area.height <= 2 {
            return;
        }
        let right: u16 = self.area.right();
        let y: u16 = self.area.y;
        let end: u32 = y as u32 + self.area.height as u32;
        let last: u32 = if end > 65535 {
            65533
        } else {
            end - 2
        };
        if m.column >= right || m.row <= y || m.row as u32 > last {
            return;
        }
        let on_bar = m.column == right - 1;
        match m.kind {
            MouseKind::ScrollUp => self.up_by(STEP),
            MouseKind::ScrollDown => self.down_by(STEP),
            MouseKind::LeftDown => {
                if on_bar {
                    self.dragging = true;
                    self.jump_scroll_to(m.row);
                }
            },
            MouseKind::LeftDrag => {
                if on_bar {
                    self.dragging = true;
                    self.jump_scroll_to(m.row);
                } else if self.dragging {
                    self.jump_scroll_to(m.row);
                }
            },
            MouseKind::Up => {
                self.dragging = false;
            },
            MouseKind::Other => {},
        }
    }

    /// Settles the view when it is drawn with so many lines into so many rows, and
    /// returns its first line and the one behind its last.
    pub fn frame(&mut self, total: usize, view_h: usize, area: Rect) -> (r: (usize, usize))
        ensures
            *final(self) == framed(*old(self), total, view_h, area),
            r.0 == frame_start(final(self).back as nat, total as nat, view_h as nat),
            r.1 == frame_end(final(self).back as nat, total as nat, view_h as nat),
    {
        if self.at_bottom || total <= view_h {
            self.back = 0;
        } else {
            let grown: usize = if total > self.total {
                total - self.total
            } else {
                0
            };
            let most: usize = total - view_h;
            self.back = if self.back > most || grown > most - self.back {
                most
            } else {
                self.back + grown
            };
        }
        self.total = total;
        self.range = if total > view_h {
            total - view_h
        } else {
            0
        };
        self.area = area;
        if total <= view_h {
            return (0, total);
        }
        let start: usize = total - view_h - self.back;
        (start, start + view_h)
    }
}

// ------------------------------------------------------------------------ laws

/// The view shows as many lines as there is room for, and none that is not there.
pub proof fn law_frame_is_full(s: Scroll, total: usize, view_h: usize, area: Rect)
    ensures
        ({
            let back = framed(s, total, view_h, area).back as nat;
            let from = frame_start(back, total as nat, view_h as nat);
            let to = frame_end(back, total as nat, view_h as nat);
            &&& from <= to <= total
            &&& to - from == (if total < view_h {
                total as int
            } else {
                view_h as int
            })
        }),
{
}

/// A view that follows the last line shows it.
pub proof fn law_bottom_is_shown(s: Scroll, total: usize, view_h: usize, area: Rect)
    requires
        s.at_bottom,
    ensures
        frame_end(framed(s, total, view_h, area).back as nat, total as nat, view_h as nat) == total,
{
}

/// A view that was scrolled up stays on its lines when more lines come at the end.
pub proof fn law_view_stays(s: Scroll, old_total: usize, total: usize, view_h: usize, area: Rect)
    requires
        !s.at_bottom,
        old_total <= total,
    ensures
        ({
            let a = framed(s, old_total, view_h, area);
            let b = framed(a, total, view_h, area);
            frame_start(b.back as nat, total as nat, view_h as nat) == frame_start(
                a.back as nat,
                old_total as nat,
                view_h as nat,
            )
        }),
{
}

/// The bar lies within the view: at its end where the last line is shown, and at its
/// beginning where the first is.
pub proof fn law_bar_is_within(total: int, view_h: int, back: int)
    requires
        has_bar(total, view_h),
        0 <= back,
    ensures
        0 <= bar_pos(total, view_h, back),
        0 < bar_len(total, view_h),
        bar_pos(total, view_h, back) + bar_len(total, view_h) <= view_h,
        back == 0 ==> bar_pos(total, view_h, back) + bar_len(total, view_h) == view_h,
        back >= total - view_h ==> bar_pos(total, view_h, back) == 0,
{
    let range = total - view_h;
    let b = if back < range {
        back
    } else {
        range
    };
    lemma_share(view_h, view_h, total);
    let travel = view_h - bar_len(total, view_h);
    lemma_share(travel, range - b, range);
    mul::lemma_mul_is_commutative(travel, range - b);
    if back == 0 {
        mul::lemma_mul_is_commutative(travel, range);
        div_mod::lemma_div_multiples_vanish(travel, range);
    }
    if back >= range {
        assert((range - b) * travel == 0) by (nonlinear_arith)
            requires
                range == b,
        ;
    }
}

/// Putting the bar at its first row shows the first line; at its last row, the last
/// line, which is then followed again.
pub proof fn law_bar_reaches_both_ends(s: Scroll)
    requires
        s.range > 0,
        s.area.height >= 4,
        s.area.y + s.area.height <= 65535,
    ensures
        jumped(s, (s.area.y + 1) as u16).back == s.range,
        jumped(s, (s.area.y + s.area.height - 2) as u16).back == 0,
        jumped(s, (s.area.y + s.area.height - 2) as u16).at_bottom,
{
    let rows = s.area.height - 2;
    let range = s.range as int;
    assert((range * 0) / (rows - 1) == 0) by {
        assert(range * 0 == 0);
        div_mod::lemma_div_basics(rows - 1);
    }
    div_mod::lemma_div_multiples_vanish(range, rows - 1);
    mul::lemma_mul_is_commutative(range, rows - 1);
}

/// Whatever row the bar is put on, the view stays within the lines.
pub proof fn law_jump_stays_in_range(s: Scroll, row: u16)
    requires
        s.range > 0,
        s.area.height > 2,
    ensures
        jumped(s, row).back <= s.range,
        jumped(s, row).at_bottom == (jumped(s, row).back == 0),
{
    let rows = s.area.height - 2;
    let d = if rows - 1 < 1 {
        1
    } else {
        rows - 1
    };
    lemma_share(s.range as int, bar_row(row, s.area), d);
}

} // verus!
