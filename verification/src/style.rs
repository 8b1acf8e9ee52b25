//! Styled text: colours, styles, spans and lines, as plain values.
use vstd::prelude::*;

verus! {

/// A terminal colour.
#[derive(Clone, Copy, Debug, PartialEq, Eq, Structural)]
pub enum Color {
    Black,
    Red,
    Green,
    Yellow,
    Blue,
    Magenta,
    Cyan,
    Gray,
    DarkGray,
    LightBlue,
    White,
    Rgb(u8, u8, u8),
    Indexed(u8),
}

/// One kind of emphasis.
#[derive(Clone, Copy, Debug, PartialEq, Eq, Structural)]
pub enum Modifier {
    Bold,
    Italic,
    Underlined,
    Reversed,
}

/// A set of emphases.
#[derive(Clone, Copy, Debug, PartialEq, Eq, Structural)]
pub struct Modifiers {
    pub bold: bool,
    pub italic: bool,
    pub underlined: bool,
    pub reversed: bool,
}

impl Modifiers {
    /// Whether the emphasis is in the set.
    pub open spec fn has(self, m: Modifier) -> bool {
        match m {
            Modifier::Bold => self.bold,
            Modifier::Italic => self.italic,
            Modifier::Underlined => self.underlined,
            Modifier::Reversed => self.reversed,
        }
    }

    /// The set with the emphasis in or out.
    pub open spec fn with(self, m: Modifier, on: bool) -> Modifiers {
        match m {
            Modifier::Bold => Modifiers { bold: on, ..self },
            Modifier::Italic => Modifiers { italic: on, ..self },
            Modifier::Underlined => Modifiers { underlined: on, ..self },
            Modifier::Reversed => Modifiers { reversed: on, ..self },
        }
    }

    fn set(self, m: Modifier, on: bool) -> (r: Modifiers)
        ensures
            r == self.with(m, on),
    {
        let mut r = self;
        match m {
            Modifier::Bold => {
                r.bold = on;
            },
            Modifier::Italic => {
                r.italic = on;
            },
            Modifier::Underlined => {
                r.underlined = on;
            },
            Modifier::Reversed => {
                r.reversed = on;
            },
        }
        r
    }
}

/// How a piece of text is drawn: colours, where they are set, the emphases that
/// are switched on, and those that are switched off.
#[derive(Clone, Copy, Debug, PartialEq, Eq, Structural)]
pub struct Style {
    pub fg: Option<Color>,
    pub bg: Option<Color>,
    pub on: Modifiers,
    pub off: Modifiers,
}

/// No emphasis.
pub open spec fn no_modifiers() -> Modifiers {
    Modifiers { bold: false, italic: false, underlined: false, reversed: false }
}

/// The style that sets nothing.
pub open spec fn plain() -> Style {
    Style { fg: None, bg: None, on: no_modifiers(), off: no_modifiers() }
}

/// A foreground colour and nothing else.
pub open spec fn colored(c: Color) -> Style {
    Style { fg: Some(c), ..plain() }
}

/// A bold foreground colour.
pub open spec fn bold(c: Color) -> Style {
    colored(c).with_on(Modifier::Bold)
}

impl Style {
    /// The style that sets nothing.
    pub fn new() -> (r: Style)
        ensures
            r == plain(),
    {
        let none = Modifiers { bold: false, italic: false, underlined: false, reversed: false };
        Style { fg: None, bg: None, on: none, off: none }
    }

    /// A foreground colour and nothing else.
    pub fn of(c: Color) -> (r: Style)
        ensures
            r == colored(c),
    {
        let mut s = Style::new();
        s.fg = Some(c);
        s
    }

    /// A bold foreground colour.
    pub fn bold_of(c: Color) -> (r: Style)
        ensures
            r == bold(c),
    {
        Style::of(c).add_modifier(Modifier::Bold)
    }

    /// The style with an emphasis switched on.
    pub open spec fn with_on(self, m: Modifier) -> Style {
        Style { on: self.on.with(m, true), off: self.off.with(m, false), ..self }
    }

    /// The style with an emphasis switched off.
    pub open spec fn with_off(self, m: Modifier) -> Style {
        Style { on: self.on.with(m, false), off: self.off.with(m, true), ..self }
    }

    /// The style with another background.
    pub open spec fn with_bg(self, c: Color) -> Style {
        Style { bg: Some(c), ..self }
    }

    /// The style with an emphasis switched on.
    pub fn add_modifier(self, m: Modifier) -> (r: Style)
        ensures
            r == self.with_on(m),
    {
        Style { fg: self.fg, bg: self.bg, on: self.on.set(m, true), off: self.off.set(m, false) }
    }

    /// The style with an emphasis switched off.
    pub fn remove_modifier(self, m: Modifier) -> (r: Style)
        ensures
            r == self.with_off(m),
    {
        Style { fg: self.fg, bg: self.bg, on: self.on.set(m, false), off: self.off.set(m, true) }
    }

    /// The style with another background.
    pub fn on_bg(self, c: Color) -> (r: Style)
        ensures
            r == self.with_bg(c),
    {
        Style { fg: self.fg, bg: Some(c), on: self.on, off: self.off }
    }
}

/// A piece of text drawn in one style.
#[derive(Debug)]
pub struct Span {
    pub content: String,
    pub style: Style,
}

/// What a span holds.
#[verifier::ext_equal]
pub struct SpanView {
    pub content: Seq<char>,
    pub style: Style,
}

impl View for Span {
    type V = SpanView;

    open spec fn view(&self) -> SpanView {
        SpanView { content: self.content@, style: self.style }
    }
}

/// One line of spans.
#[derive(Debug)]
pub struct Line {
    pub spans: Vec<Span>,
}

/// The spans of a list.
pub open spec fn span_views(v: Seq<Span>) -> Seq<SpanView> {
    v.map_values(|s: Span| s@)
}

impl View for Line {
    type V = Seq<SpanView>;

    open spec fn view(&self) -> Seq<SpanView> {
        span_views(self.spans@)
    }
}

/// The lines of a list.
pub open spec fn line_views(v: Seq<Line>) -> Seq<Seq<SpanView>> {
    v.map_values(|l: Line| l@)
}

/// A span view.
pub open spec fn sv(content: Seq<char>, style: Style) -> SpanView {
    SpanView { content, style }
}

/// A line of one span.
pub open spec fn one(content: Seq<char>, style: Style) -> Seq<SpanView> {
    seq![sv(content, style)]
}

/// The text of a line: its spans, one after the other.
pub open spec fn line_text(l: Seq<SpanView>) -> Seq<char>
    decreases l.len(),
{
    if l.len() == 0 {
        Seq::empty()
    } else {
        line_text(l.drop_last()) + l.last().content
    }
}

/// Appends a span to a list.
pub fn push_span(v: &mut Vec<Span>, content: String, style: Style)
    ensures
        span_views(final(v)@) == span_views(old(v)@).push(sv(content@, style)),
{
    let s = Span { content, style };
    v.push(s);
    proof {
        assert(span_views(v@) =~= span_views(old(v)@).push(s@));
    }
}

/// Appends a list of spans to another.
pub fn append_spans(v: &mut Vec<Span>, more: Vec<Span>)
    ensures
        span_views(final(v)@) == span_views(old(v)@) + span_views(more@),
{
    let mut more = more;
    let ghost m = more@;
    v.append(&mut more);
    proof {
        assert(span_views(v@) =~= span_views(old(v)@) + span_views(m));
    }
}

/// A list without spans.
pub fn no_spans() -> (v: Vec<Span>)
    ensures
        span_views(v@) == Seq::<SpanView>::empty(),
{
    let v: Vec<Span> = Vec::new();
    proof {
        assert(span_views(v@) =~= Seq::<SpanView>::empty());
    }
    v
}

/// A list without lines.
pub fn no_lines() -> (v: Vec<Line>)
    ensures
        line_views(v@) == Seq::<Seq<SpanView>>::empty(),
{
    let v: Vec<Line> = Vec::new();
    proof {
        assert(line_views(v@) =~= Seq::<Seq<SpanView>>::empty());
    }
    v
}

/// Appends a line to a list.
pub fn push_line(v: &mut Vec<Line>, spans: Vec<Span>)
    ensures
        line_views(final(v)@) == line_views(old(v)@).push(span_views(spans@)),
{
    let l = Line { spans };
    v.push(l);
    proof {
        assert(line_views(v@) =~= line_views(old(v)@).push(l@));
    }
}

/// Appends a line of one span to a list.
pub fn push_text_line(v: &mut Vec<Line>, content: String, style: Style)
    ensures
        line_views(final(v)@) == line_views(old(v)@).push(one(content@, style)),
{
    let mut spans = no_spans();
    push_span(&mut spans, content, style);
    push_line(v, spans);
}

/// Appends an empty line to a list.
pub fn push_blank(v: &mut Vec<Line>)
    ensures
        line_views(final(v)@) == line_views(old(v)@).push(Seq::<SpanView>::empty()),
{
    push_line(v, no_spans());
}

/// Appends a list of lines to another.
pub fn append_lines(v: &mut Vec<Line>, more: Vec<Line>)
    ensures
        line_views(final(v)@) == line_views(old(v)@) + line_views(more@),
{
    let mut more = more;
    let ghost m = more@;
    v.append(&mut more);
    proof {
        assert(line_views(v@) =~= line_views(old(v)@) + line_views(m));
    }
}

/// Appends copies of spans to a list.
pub fn append_copies(v: &mut Vec<Span>, more: &Vec<Span>)
    ensures
        span_views(final(v)@) == span_views(old(v)@) + span_views(more@),
{
    let ghost start = span_views(old(v)@);
    let ghost all = span_views(more@);
    let mut i: usize = 0;
    proof {
        assert(start + all.take(0) =~= start);
    }
    while i < more.len()
        invariant
            all == span_views(more@),
            i <= more.len(),
            span_views(v@) == start + all.take(i as int),
        decreases more.len() - i,
    {
        push_span(v, more[i].content.clone(), more[i].style);
        proof {
            assert(start + all.take(i + 1) =~= (start + all.take(i as int)).push(all[i as int]));
        }
        i += 1;
    }
    proof {
        assert(all.take(i as int) =~= all);
    }
}

} // verus!
