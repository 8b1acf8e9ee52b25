//! The text under the cursor: places in it, counted in bytes of UTF-8, and the
//! edits and moves that keep the cursor between two characters.
use crate::input::{KeyCode, KeyEvent};
use crate::text;
use vstd::prelude::*;

verus! {

// ---------------------------------------------------------------------- places

/// How many bytes a character takes in UTF-8.
pub open spec fn char_len(c: char) -> nat {
    let n = c as u32;
    if n < 0x80 {
        1
    } else if n < 0x800 {
        2
    } else if n < 0x10000 {
        3
    } else {
        4
    }
}

/// How many bytes a text takes in UTF-8.
pub open spec fn byte_len(s: Seq<char>) -> nat
    decreases s.len(),
{
    if s.len() == 0 {
        0
    } else {
        byte_len(s.drop_last()) + char_len(s.last())
    }
}

/// The place in front of the character `k`: the bytes that stand before it.
pub open spec fn place(s: Seq<char>, k: int) -> nat {
    byte_len(s.take(k))
}

/// How many characters begin before the place `b`.
pub open spec fn begun(s: Seq<char>, b: nat) -> int
    decreases s.len(),
{
    if s.len() == 0 {
        0
    } else if byte_len(s.drop_last()) < b {
        s.len() as int
    } else {
        begun(s.drop_last(), b)
    }
}

/// Whether `b` lies between two characters, or at either end.
pub open spec fn is_place(s: Seq<char>, b: nat) -> bool {
    b == place(s, begun(s, b))
}

/// The place itself, or the end of the text where it lies behind that.
pub open spec fn within(s: Seq<char>, b: nat) -> nat {
    if b <= byte_len(s) {
        b
    } else {
        byte_len(s)
    }
}

/// The bytes of two texts add up.
pub proof fn lemma_byte_len_add(a: Seq<char>, b: Seq<char>)
    ensures
        byte_len(a + b) == byte_len(a) + byte_len(b),
    decreases b.len(),
{
    if b.len() == 0 {
        assert(a + b =~= a);
    } else {
        assert((a + b).drop_last() =~= a + b.drop_last());
        lemma_byte_len_add(a, b.drop_last());
    }
}

proof fn lemma_byte_len_one(c: char)
    ensures
        byte_len(seq![c]) == char_len(c),
{
    assert(seq![c].drop_last() =~= Seq::<char>::empty());
    assert(byte_len(seq![c].drop_last()) == 0);
}

proof fn lemma_byte_len_is_utf8(s: Seq<char>)
    ensures
        byte_len(s) == vstd::utf8::encode_utf8(s).len(),
    decreases s.len(),
{
    if s.len() > 0 {
        let rest = s.drop_first();
        lemma_byte_len_is_utf8(rest);
        assert(s =~= seq![s[0]] + rest);
        lemma_byte_len_add(seq![s[0]], rest);
        lemma_byte_len_one(s[0]);
        vstd::utf8::char_is_scalar(s[0]);
        assert(vstd::utf8::encode_utf8(s) == vstd::utf8::encode_scalar(s[0] as u32)
            + vstd::utf8::encode_utf8(rest));
    } else {
        assert(vstd::utf8::encode_utf8(s).len() == 0);
    }
}

/// The places grow with the characters.
pub proof fn lemma_place_step(s: Seq<char>, k: int)
    requires
        0 <= k < s.len(),
    ensures
        place(s, k + 1) == place(s, k) + char_len(s[k]),
{
    assert(s.take(k + 1).drop_last() =~= s.take(k));
}

/// Places grow with the characters before them.
pub proof fn lemma_places_grow(s: Seq<char>, j: int, k: int)
    requires
        0 <= j <= k <= s.len(),
    ensures
        place(s, j) + (k - j) <= place(s, k),
    decreases k - j,
{
    if j < k {
        lemma_places_grow(s, j, k - 1);
        lemma_place_step(s, k - 1);
    }
}

proof fn lemma_ends(s: Seq<char>)
    ensures
        place(s, 0) == 0,
        place(s, s.len() as int) == byte_len(s),
{
    assert(s.take(0) =~= Seq::<char>::empty());
    assert(s.take(s.len() as int) =~= s);
}

/// The character that a place stands in front of: the first that does not begin
/// before it.
pub proof fn lemma_begun(s: Seq<char>, b: nat, k: int)
    requires
        0 <= k <= s.len(),
        k < s.len() ==> b <= place(s, k),
        k > 0 ==> place(s, k - 1) < b,
    ensures
        begun(s, b) == k,
    decreases s.len(),
{
    if s.len() > 0 {
        let t = s.drop_last();
        assert(s.take(s.len() - 1) =~= t);
        if k == s.len() {
            assert(byte_len(t) < b);
        } else {
            lemma_places_grow(s, k, s.len() - 1);
            if k < t.len() {
                assert(s.take(k) =~= t.take(k));
            }
            if k > 0 {
                assert(s.take(k - 1) =~= t.take(k - 1));
            }
            lemma_begun(t, b, k);
        }
    }
}

/// The places of a text are those in front of its characters, and its end.
pub proof fn lemma_begun_place(s: Seq<char>, k: int)
    requires
        0 <= k <= s.len(),
    ensures
        begun(s, place(s, k)) == k,
        is_place(s, place(s, k)),
        place(s, k) <= byte_len(s),
{
    if k > 0 {
        lemma_place_step(s, k - 1);
    }
    lemma_begun(s, place(s, k), k);
    lemma_ends(s);
    lemma_places_grow(s, k, s.len() as int);
}

/// No more characters begin before a place than there are.
pub proof fn lemma_begun_bound(s: Seq<char>, b: nat)
    ensures
        0 <= begun(s, b) <= s.len(),
        begun(s, b) < s.len() ==> b <= place(s, begun(s, b)),
        begun(s, b) > 0 ==> place(s, begun(s, b) - 1) < b,
    decreases s.len(),
{
    if s.len() > 0 {
        let t = s.drop_last();
        assert(s.take(s.len() - 1) =~= t);
        if byte_len(t) < b {
        } else {
            lemma_begun_bound(t, b);
            let k = begun(t, b);
            if k == t.len() {
                assert(s.take(k) =~= t);
            } else {
                assert(s.take(k) =~= t.take(k));
            }
            if k > 0 {
                assert(s.take(k - 1) =~= t.take(k - 1));
            }
        }
    }
}

fn len_of_char(c: char) -> (n: usize)
    ensures
        n == char_len(c),
{
    let u: u32 = c as u32;
    if u < 0x80 {
        1
    } else if u < 0x800 {
        2
    } else if u < 0x10000 {
        3
    } else {
        4
    }
}

/// How many bytes a text takes in UTF-8.
pub fn length(s: &str) -> (n: usize)
    ensures
        n == byte_len(s@),
{
    proof {
        lemma_byte_len_is_utf8(s@);
    }
    s.as_bytes().len()
}

/// The character that the place `b` stands in front of, and that character's place.
pub fn locate(s: &str, b: usize) -> (r: (usize, usize))
    ensures
        r.0 == begun(s@, b as nat),
        r.1 == place(s@, r.0 as int),
        r.0 <= s@.len(),
{
    let n: usize = length(s);
    let v = text::chars_of(s);
    let mut k: usize = 0;
    let mut at: usize = 0;
    proof {
        lemma_ends(s@);
    }
    while k < v.len() && at < b
        invariant
            v@ == s@,
            n == byte_len(s@),
            n == place(s@, s@.len() as int),
            k <= v.len(),
            at == place(s@, k as int),
            k > 0 ==> place(s@, k - 1) < b,
        decreases v.len() - k,
    {
        proof {
            lemma_place_step(s@, k as int);
            lemma_places_grow(s@, k + 1, s@.len() as int);
        }
        at = at + len_of_char(v[k]);
        k += 1;
    }
    proof {
        lemma_begun(s@, b as nat, k as int);
    }
    (k, at)
}

// ----------------------------------------------------------------------- moves

/// The place in front of the character before the cursor.
pub open spec fn prev_place(s: Seq<char>, b: nat) -> nat {
    if begun(s, b) == 0 {
        0
    } else {
        place(s, begun(s, b) - 1)
    }
}

/// The place behind the character at the cursor.
pub open spec fn next_place(s: Seq<char>, b: nat) -> nat {
    if begun(s, b) < s.len() {
        place(s, begun(s, b) + 1)
    } else {
        within(s, b)
    }
}

/// The place in front of the character before the cursor; 0 where there is none.
pub fn cursor_prev(input: &str, cursor: usize) -> (r: usize)
    ensures
        r == prev_place(input@, cursor as nat),
{
    let (k, at) = locate(input, cursor);
    if k == 0 {
        return 0;
    }
    let v = text::chars_of(input);
    proof {
        lemma_place_step(input@, k - 1);
    }
    at - len_of_char(v[k - 1])
}

/// The place behind the character at the cursor; the end where there is none.
pub fn cursor_next(input: &str, cursor: usize) -> (r: usize)
    ensures
        r == next_place(input@, cursor as nat),
{
    let n: usize = length(input);
    let (k, at) = locate(input, cursor);
    let v = text::chars_of(input);
    if k < v.len() {
        proof {
            lemma_place_step(input@, k as int);
            lemma_ends(input@);
            lemma_places_grow(input@, k + 1, input@.len() as int);
        }
        return at + len_of_char(v[k]);
    }
    if cursor <= n {
        cursor
    } else {
        n
    }
}

// ----------------------------------------------------------------------- edits

/// The text with `t` put in front of the character `k`.
pub open spec fn put(s: Seq<char>, k: int, t: Seq<char>) -> Seq<char> {
    s.take(k) + t + s.skip(k)
}

/// The text without its characters `j..k`.
pub open spec fn cut(s: Seq<char>, j: int, k: int) -> Seq<char> {
    s.take(j) + s.skip(k)
}

/// Puts a text at the cursor, and returns the place behind it.
pub fn insert_str_at(input: &mut String, cursor: usize, s: &str) -> (r: usize)
    requires
        is_place(old(input)@, within(old(input)@, cursor as nat)),
    ensures
        final(input)@ == put(
            old(input)@,
            begun(old(input)@, within(old(input)@, cursor as nat)),
            s@,
        ),
        r == within(old(input)@, cursor as nat) + byte_len(s@),
{
    let n: usize = length(input.as_str());
    let at: usize = if cursor <= n {
        cursor
    } else {
        n
    };
    let (k, _at) = locate(input.as_str(), at);
    let v = text::chars_of(input.as_str());
    let mut t = text::string_of(&v, 0, k);
    t.append(s);
    let r: usize = length(t.as_str());
    let tail = text::string_of(&v, k, v.len());
    t.append(tail.as_str());
    proof {
        assert(v@.subrange(0, k as int) =~= v@.take(k as int));
        assert(v@.subrange(k as int, v@.len() as int) =~= v@.skip(k as int));
        lemma_byte_len_add(v@.take(k as int), s@);
    }
    *input = t;
    r
}

/// Puts a character at the cursor, and returns the place behind it.
pub fn insert_at(input: &mut String, cursor: usize, ch: char) -> (r: usize)
    requires
        is_place(old(input)@, within(old(input)@, cursor as nat)),
    ensures
        final(input)@ == put(
            old(input)@,
            begun(old(input)@, within(old(input)@, cursor as nat)),
            seq![ch],
        ),
        r == within(old(input)@, cursor as nat) + char_len(ch),
{
    let t = text::of_char(ch);
    proof {
        lemma_byte_len_one(ch);
    }
    insert_str_at(input, cursor, t.as_str())
}

fn remove(input: &mut String, k: usize)
    requires
        k < old(input)@.len(),
    ensures
        final(input)@ == cut(old(input)@, k as int, k + 1),
{
    let v = text::chars_of(input.as_str());
    let mut t = text::string_of(&v, 0, k);
    let n: usize = v.len();
    let tail = text::string_of(&v, k + 1, n);
    t.append(tail.as_str());
    proof {
        assert(v@.subrange(0, k as int) =~= v@.take(k as int));
        assert(v@.subrange(k + 1, v@.len() as int) =~= v@.skip(k + 1));
    }
    *input = t;
}

/// Takes out the character before the cursor, and returns the cursor's new place.
pub fn backspace_at(input: &mut String, cursor: usize) -> (r: usize)
    requires
        is_place(old(input)@, cursor as nat),
    ensures
        r == prev_place(old(input)@, cursor as nat),
        final(input)@ == (if cursor == 0 {
            old(input)@
        } else {
            cut(
                old(input)@,
                begun(old(input)@, cursor as nat) - 1,
                begun(old(input)@, cursor as nat),
            )
        }),
{
    let (k, _at) = locate(input.as_str(), cursor);
    proof {
        lemma_begun_bound(input@, cursor as nat);
        lemma_ends(input@);
    }
    if cursor == 0 {
        return 0;
    }
    let prev: usize = cursor_prev(input.as_str(), cursor);
    remove(input, k - 1);
    prev
}

/// Takes out the character at the cursor, which stays where it is.
pub fn delete_at(input: &mut String, cursor: usize) -> (r: usize)
    requires
        cursor < byte_len(old(input)@) ==> is_place(old(input)@, cursor as nat),
    ensures
        r == cursor,
        final(input)@ == (if cursor >= byte_len(old(input)@) {
            old(input)@
        } else {
            cut(
                old(input)@,
                begun(old(input)@, cursor as nat),
                begun(old(input)@, cursor as nat) + 1,
            )
        }),
{
    if cursor >= length(input.as_str()) {
        return cursor;
    }
    let (k, _at) = locate(input.as_str(), cursor);
    proof {
        lemma_ends(input@);
        lemma_begun_bound(input@, cursor as nat);
    }
    remove(input, k);
    cursor
}

// ------------------------------------------------------------------- text keys

/// What a key means to the text under the cursor.
#[derive(Clone, Copy, Debug, PartialEq, Eq, Structural)]
pub enum TextAction {
    /// Nothing.
    Idle,
    Insert(char),
    Backspace,
    Newline,
    /// The text is sent.
    Submit,
}

/// What a key means: a character is put in, but `Ctrl+J` begins a line; `Enter`
/// sends, but with `Shift` or `Alt` it begins a line.
pub open spec fn text_action(key: KeyEvent) -> TextAction {
    match key.code {
        KeyCode::Char(c) => if c == 'j' && key.control {
            TextAction::Newline
        } else {
            TextAction::Insert(c)
        },
        KeyCode::Enter => if key.shift || key.alt {
            TextAction::Newline
        } else {
            TextAction::Submit
        },
        KeyCode::Backspace => TextAction::Backspace,
        _ => TextAction::Idle,
    }
}

/// What a key means to the text under the cursor.
pub fn handle_text_key(key: KeyEvent) -> (r: TextAction)
    ensures
        r == text_action(key),
{
    match key.code {
        KeyCode::Char(c) => if c == 'j' && key.control {
            TextAction::Newline
        } else {
            TextAction::Insert(c)
        },
        KeyCode::Enter => if key.shift || key.alt {
            TextAction::Newline
        } else {
            TextAction::Submit
        },
        KeyCode::Backspace => TextAction::Backspace,
        _ => TextAction::Idle,
    }
}

// ---------------------------------------------------------- text that is pasted

/// Where the scan of a text stands that is put in: outside of any escape
/// sequence, behind an escape, in a control sequence, or in another sequence.
#[derive(Clone, Copy, Debug, PartialEq, Eq, Structural)]
pub enum Typed {
    Text,
    Escape,
    Control,
    Rest,
}

/// Whether a character ends a control sequence.
pub open spec fn ends_control(c: char) -> bool {
    ('a' <= c && c <= 'z') || ('A' <= c && c <= 'Z') || c == '~'
}

/// Whether a character stays that stands outside of any escape sequence.
pub open spec fn is_typed(c: char) -> bool {
    !text::is_control(c) || c == '\n' || c == '\t'
}

/// What is kept of a text that is put in, and where the scan stands behind it.
#[verifier::ext_equal]
pub struct Clean {
    pub kept: Seq<char>,
    pub at: Typed,
}

/// One character: an escape begins a sequence; `[` behind it begins a control
/// sequence, which runs to a letter or `~`; any other sequence runs to the next
/// control character. Of the rest only line feeds, tabs and what is no control
/// character stays.
pub open spec fn typed_step(s: Clean, c: char) -> Clean {
    let out = if c == '\x1b' {
        Clean { kept: s.kept, at: Typed::Escape }
    } else if is_typed(c) {
        Clean { kept: s.kept.push(c), at: Typed::Text }
    } else {
        Clean { kept: s.kept, at: Typed::Text }
    };
    match s.at {
        Typed::Text => out,
        Typed::Escape => if c == '[' {
            Clean { kept: s.kept, at: Typed::Control }
        } else if text::is_control(c) {
            out
        } else {
            Clean { kept: s.kept, at: Typed::Rest }
        },
        Typed::Control => if ends_control(c) {
            Clean { kept: s.kept, at: Typed::Text }
        } else {
            s
        },
        Typed::Rest => if text::is_control(c) {
            out
        } else {
            s
        },
    }
}

/// The scan behind a text.
pub open spec fn typed_scan(s: Seq<char>) -> Clean
    decreases s.len(),
{
    if s.len() == 0 {
        Clean { kept: Seq::empty(), at: Typed::Text }
    } else {
        typed_step(typed_scan(s.drop_last()), s.last())
    }
}

/// What is kept of a text that is put in.
pub open spec fn sanitized(s: Seq<char>) -> Seq<char> {
    typed_scan(s).kept
}

/// Takes escape sequences and control characters out of a text that is put in;
/// line feeds and tabs stay.
pub fn sanitize_typed_text(s: &str) -> (r: String)
    ensures
        r@ == sanitized(s@),
{
    let v = text::chars_of(s);
    let mut kept = String::new();
    let mut at = Typed::Text;
    let mut i: usize = 0;
    proof {
        assert(s@.take(0) =~= Seq::<char>::empty());
    }
    while i < v.len()
        invariant
            v@ == s@,
            i <= v.len(),
            typed_scan(s@.take(i as int)) == (Clean { kept: kept@, at }),
        decreases v.len() - i,
    {
        let c = v[i];
        proof {
            assert(s@.take(i + 1).drop_last() =~= s@.take(i as int));
        }
        let ctl = text::char_is_control(c);
        let inside = match at {
            Typed::Text => false,
            Typed::Escape => c == '[' || !ctl,
            Typed::Control => true,
            Typed::Rest => !ctl,
        };
        if inside {
            if at == Typed::Escape {
                at = if c == '[' {
                    Typed::Control
                } else {
                    Typed::Rest
                };
            } else if at == Typed::Control && (('a' <= c && c <= 'z') || ('A' <= c && c <= 'Z')
                || c == '~') {
                at = Typed::Text;
            }
        } else if c == '\x1b' {
            at = Typed::Escape;
        } else {
            at = Typed::Text;
            if !ctl || c == '\n' || c == '\t' {
                kept.push(c);
            }
        }
        i += 1;
    }
    proof {
        assert(s@.take(i as int) =~= s@);
    }
    kept
}

/// A text with each `\r\n` and each other `\r` made a line feed.
pub open spec fn with_line_feeds(s: Seq<char>) -> Seq<char>
    decreases s.len(),
{
    if s.len() == 0 {
        Seq::empty()
    } else if s.last() == '\n' && s.len() > 1 && s[s.len() - 2] == '\r' {
        with_line_feeds(s.drop_last())
    } else if s.last() == '\r' {
        with_line_feeds(s.drop_last()).push('\n')
    } else {
        with_line_feeds(s.drop_last()).push(s.last())
    }
}

/// Makes each `\r\n` and each other `\r` of a text a line feed.
pub fn normalize_line_ends(s: &str) -> (r: String)
    ensures
        r@ == with_line_feeds(s@),
{
    let v = text::chars_of(s);
    let mut out = String::new();
    let mut i: usize = 0;
    proof {
        assert(s@.take(0) =~= Seq::<char>::empty());
    }
    while i < v.len()
        invariant
            v@ == s@,
            i <= v.len(),
            out@ == with_line_feeds(s@.take(i as int)),
        decreases v.len() - i,
    {
        let c = v[i];
        proof {
            assert(s@.take(i + 1).drop_last() =~= s@.take(i as int));
        }
        if c == '\n' && i > 0 && v[i - 1] == '\r' {
        } else if c == '\r' {
            out.push('\n');
        } else {
            out.push(c);
        }
        i += 1;
    }
    proof {
        assert(s@.take(i as int) =~= s@);
    }
    out
}

// ------------------------------------------------------------------------ laws

proof fn lemma_put(s: Seq<char>, k: int, t: Seq<char>)
    requires
        0 <= k <= s.len(),
    ensures
        put(s, k, t).take(k) == s.take(k),
        put(s, k, t).take(k + t.len()) == s.take(k) + t,
        put(s, k, t).skip(k + t.len()) == s.skip(k),
        place(put(s, k, t), k) == place(s, k),
        place(put(s, k, t), k + t.len()) == place(s, k) + byte_len(t),
{
    let p = put(s, k, t);
    assert(p.take(k) =~= s.take(k));
    assert(p.take(k + t.len()) =~= s.take(k) + t);
    assert(p.skip(k + t.len()) =~= s.skip(k));
    lemma_byte_len_add(s.take(k), t);
}

/// Behind what was put in, the cursor stands between two characters again.
pub proof fn law_insert_keeps_place(s: Seq<char>, b: nat, t: Seq<char>)
    requires
        is_place(s, b),
    ensures
        is_place(put(s, begun(s, b), t), b + byte_len(t)),
        begun(put(s, begun(s, b), t), b + byte_len(t)) == begun(s, b) + t.len(),
{
    lemma_begun_bound(s, b);
    let k = begun(s, b);
    lemma_put(s, k, t);
    lemma_begun_place(put(s, k, t), k + t.len());
}

/// Taking out the character before the cursor undoes putting one in: the text and
/// the cursor are as they were.
pub proof fn law_backspace_undoes_insert(s: Seq<char>, b: nat, c: char)
    requires
        is_place(s, b),
    ensures
        ({
            let p = put(s, begun(s, b), seq![c]);
            let e = b + char_len(c);
            &&& is_place(p, e)
            &&& cut(p, begun(p, e) - 1, begun(p, e)) == s
            &&& prev_place(p, e) == b
        }),
{
    lemma_begun_bound(s, b);
    let k = begun(s, b);
    let p = put(s, k, seq![c]);
    lemma_byte_len_one(c);
    law_insert_keeps_place(s, b, seq![c]);
    lemma_put(s, k, seq![c]);
    assert(cut(p, k, k + 1) =~= s);
}

/// Taking out the character at the cursor undoes putting one in behind it.
pub proof fn law_delete_undoes_insert(s: Seq<char>, b: nat, c: char)
    requires
        is_place(s, b),
    ensures
        ({
            let p = put(s, begun(s, b), seq![c]);
            &&& is_place(p, b)
            &&& b < byte_len(p)
            &&& cut(p, begun(p, b), begun(p, b) + 1) == s
        }),
{
    lemma_begun_bound(s, b);
    let k = begun(s, b);
    let p = put(s, k, seq![c]);
    lemma_put(s, k, seq![c]);
    lemma_begun_place(p, k);
    lemma_place_step(p, k);
    lemma_ends(p);
    lemma_places_grow(p, k + 1, p.len() as int);
    assert(cut(p, k, k + 1) =~= s);
}

/// Taking out the character before the cursor leaves it between two characters.
pub proof fn law_backspace_keeps_place(s: Seq<char>, b: nat)
    requires
        is_place(s, b),
        b > 0,
    ensures
        is_place(cut(s, begun(s, b) - 1, begun(s, b)), prev_place(s, b)),
{
    lemma_begun_bound(s, b);
    lemma_ends(s);
    let k = begun(s, b);
    let t = cut(s, k - 1, k);
    assert(t.take(k - 1) =~= s.take(k - 1));
    lemma_begun_place(t, k - 1);
}

/// Taking out the character at the cursor leaves it between two characters.
pub proof fn law_delete_keeps_place(s: Seq<char>, b: nat)
    requires
        is_place(s, b),
        b < byte_len(s),
    ensures
        is_place(cut(s, begun(s, b), begun(s, b) + 1), b),
{
    lemma_begun_bound(s, b);
    lemma_ends(s);
    let k = begun(s, b);
    let t = cut(s, k, k + 1);
    assert(t.take(k) =~= s.take(k));
    lemma_begun_place(t, k);
}

/// Wherever the cursor is, a move to the left or to the right takes it between two
/// characters.
pub proof fn law_moves_keep_place(s: Seq<char>, b: nat)
    ensures
        is_place(s, prev_place(s, b)),
        is_place(s, b) ==> is_place(s, next_place(s, b)),
{
    lemma_begun_bound(s, b);
    lemma_ends(s);
    let k = begun(s, b);
    if k > 0 {
        lemma_begun_place(s, k - 1);
    } else {
        lemma_begun_place(s, 0);
    }
    if k < s.len() {
        lemma_begun_place(s, k + 1);
    } else if is_place(s, b) {
        lemma_begun_place(s, k);
    }
}

/// A move to the right undoes one to the left, and the other way round, unless the
/// cursor stands at the end that stops the first of them.
pub proof fn law_moves_undo(s: Seq<char>, b: nat)
    requires
        is_place(s, b),
    ensures
        b > 0 ==> next_place(s, prev_place(s, b)) == b,
        b < byte_len(s) ==> prev_place(s, next_place(s, b)) == b,
{
    lemma_begun_bound(s, b);
    lemma_ends(s);
    let k = begun(s, b);
    if k > 0 {
        lemma_begun_place(s, k - 1);
    }
    if k < s.len() {
        lemma_begun_place(s, k + 1);
    }
}

proof fn lemma_sanitized_typed(s: Seq<char>)
    ensures
        forall|i: int| 0 <= i < sanitized(s).len() ==> is_typed(#[trigger] sanitized(s)[i]),
    decreases s.len(),
{
    if s.len() > 0 {
        let t = s.drop_last();
        lemma_sanitized_typed(t);
        assert forall|i: int| 0 <= i < sanitized(s).len() implies is_typed(
            #[trigger] sanitized(s)[i],
        ) by {
            if i < sanitized(t).len() {
                assert(sanitized(s)[i] == sanitized(t)[i]);
            }
        }
    } else {
        assert(sanitized(s).len() == 0);
    }
}

/// No control character is put in, but for line feeds and tabs.
pub proof fn law_sanitize_leaves_no_controls(s: Seq<char>, i: int)
    requires
        0 <= i < sanitized(s).len(),
    ensures
        !text::is_control(sanitized(s)[i]) || sanitized(s)[i] == '\n' || sanitized(s)[i] == '\t',
{
    lemma_sanitized_typed(s);
}

/// A text without control characters, but for line feeds and tabs, is put in as it
/// is.
pub proof fn law_sanitize_keeps_clean_text(s: Seq<char>)
    requires
        forall|i: int| 0 <= i < s.len() ==> is_typed(#[trigger] s[i]),
    ensures
        sanitized(s) == s,
        typed_scan(s).at == Typed::Text,
    decreases s.len(),
{
    if s.len() > 0 {
        let t = s.drop_last();
        assert forall|i: int| 0 <= i < t.len() implies is_typed(#[trigger] t[i]) by {
            assert(t[i] == s[i]);
        }
        law_sanitize_keeps_clean_text(t);
        assert(is_typed(s[s.len() - 1]));
        assert(text::is_control('\x1b'));
        assert(t.push(s.last()) =~= s);
    } else {
        assert(sanitized(s) =~= s);
    }
}

/// What has been cleaned once stays as it is.
pub proof fn law_sanitize_twice(s: Seq<char>)
    ensures
        sanitized(sanitized(s)) == sanitized(s),
{
    lemma_sanitized_typed(s);
    law_sanitize_keeps_clean_text(sanitized(s));
}

} // verus!
