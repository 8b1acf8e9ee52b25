//! What the session may do without asking.
use crate::style::Color;
use vstd::prelude::*;

verus! {

/// What the session may do without asking.
#[derive(Clone, Copy, Debug, PartialEq, Eq, Structural)]
pub enum Mode {
    Ask,
    AcceptEdits,
    BypassPermissions,
    Yolo,
}

/// The short name of a mode.
pub open spec fn name_of(m: Mode) -> Seq<char> {
    match m {
        Mode::Ask => "询问"@,
        Mode::AcceptEdits => "编辑放行"@,
        Mode::BypassPermissions => "全自动"@,
        Mode::Yolo => "超级"@,
    }
}

/// The short name of a mode.
pub fn mode_str(mode: Mode) -> (r: &'static str)
    ensures
        r@ == name_of(mode),
{
    match mode {
        Mode::Ask => "询问",
        Mode::AcceptEdits => "编辑放行",
        Mode::BypassPermissions => "全自动",
        Mode::Yolo => "超级",
    }
}

/// The colour of a mode.
pub open spec fn color_of(m: Mode) -> Color {
    match m {
        Mode::Ask => Color::Green,
        Mode::AcceptEdits => Color::LightBlue,
        Mode::BypassPermissions => Color::Magenta,
        Mode::Yolo => Color::Red,
    }
}

/// The colour of a mode.
pub fn mode_color(mode: Mode) -> (r: Color)
    ensures
        r == color_of(mode),
{
    match mode {
        Mode::Ask => Color::Green,
        Mode::AcceptEdits => Color::LightBlue,
        Mode::BypassPermissions => Color::Magenta,
        Mode::Yolo => Color::Red,
    }
}

/// The mode that follows another.
pub open spec fn following(m: Mode) -> Mode {
    match m {
        Mode::Ask => Mode::AcceptEdits,
        Mode::AcceptEdits => Mode::BypassPermissions,
        Mode::BypassPermissions => Mode::Yolo,
        Mode::Yolo => Mode::Ask,
    }
}

/// The mode that follows another: each allows more, and the last is followed by the
/// first.
pub fn next_mode(mode: Mode) -> (r: Mode)
    ensures
        r == following(mode),
{
    match mode {
        Mode::Ask => Mode::AcceptEdits,
        Mode::AcceptEdits => Mode::BypassPermissions,
        Mode::BypassPermissions => Mode::Yolo,
        Mode::Yolo => Mode::Ask,
    }
}

/// What a mode means.
pub open spec fn meaning(m: Mode) -> Seq<char> {
    match m {
        Mode::Ask => "询问:写文件/执行命令前均需确认"@,
        Mode::AcceptEdits => "编辑放行:文件修改自动放行,命令执行需确认"@,
        Mode::BypassPermissions => "全自动:全部自动执行,危险命令除外"@,
        Mode::Yolo => "超级(YOLO):一切放行、无任何问询,危险命令黑名单也放行"@,
    }
}

/// What a mode means.
pub fn mode_desc(mode: Mode) -> (r: &'static str)
    ensures
        r@ == meaning(mode),
{
    match mode {
        Mode::Ask => "询问:写文件/执行命令前均需确认",
        Mode::AcceptEdits => "编辑放行:文件修改自动放行,命令执行需确认",
        Mode::BypassPermissions => "全自动:全部自动执行,危险命令除外",
        Mode::Yolo => "超级(YOLO):一切放行、无任何问询,危险命令黑名单也放行",
    }
}

/// Four steps lead through all modes and back to the first.
pub proof fn law_modes_form_a_circle(m: Mode)
    ensures
        following(following(following(following(m)))) == m,
        following(m) != m,
        following(following(m)) != m,
        following(following(following(m))) != m,
{
}

/// No two modes share a colour.
pub proof fn law_modes_differ_in_colour(a: Mode, b: Mode)
    requires
        a != b,
    ensures
        color_of(a) != color_of(b),
{
}

} // verus!
