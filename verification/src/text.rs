//! Text as a sequence of characters: character classes, display width, and the
//! handful of string operations that the rest of the library is built from.
//! Every operation is stated on the characters (`Seq<char>`) of the strings.
use vstd::prelude::*;

verus! {

/// `String::push` appends the given character at the end of the string.
pub assume_specification[ String::push ](s: &mut String, c: char)
    ensures
        final(s)@ == old(s)@.push(c),
;

// ---------------------------------------------------------------- characters

/// General category `Cc`: the C0 controls, DEL and the C1 controls.
pub open spec fn is_control(c: char) -> bool {
    (c as u32) < 0x20 || 0x7f <= (c as u32) <= 0x9f
}

/// The Unicode `White_Space` property.
pub open spec fn is_white(c: char) -> bool {
    let n = c as u32;
    ||| 0x09 <= n <= 0x0d
    ||| n == 0x20
    ||| n == 0x85
    ||| n == 0xa0
    ||| n == 0x1680
    ||| 0x2000 <= n <= 0x200a
    ||| n == 0x2028
    ||| n == 0x2029
    ||| n == 0x202f
    ||| n == 0x205f
    ||| n == 0x3000
}

/// CJK, full-width forms and the common emoji blocks, which take two columns.
pub open spec fn is_wide(c: char) -> bool {
    let n = c as u32;
    ||| 0x1100 <= n <= 0x115f
    ||| 0x2600 <= n <= 0x27bf
    ||| 0x2e80 <= n <= 0xa4cf
    ||| 0xac00 <= n <= 0xd7a3
    ||| 0xf900 <= n <= 0xfaff
    ||| 0xfe30 <= n <= 0xfe4f
    ||| 0xff00 <= n <= 0xff60
    ||| 0xffe0 <= n <= 0xffe6
    ||| 0x1f000 <= n <= 0x1faff
}

/// Columns that a character takes on screen.
pub open spec fn char_width(c: char) -> nat {
    if is_control(c) {
        0
    } else if is_wide(c) {
        2
    } else {
        1
    }
}

/// Columns that a text takes on screen.
pub open spec fn width(s: Seq<char>) -> nat
    decreases s.len(),
{
    if s.len() == 0 {
        0
    } else {
        width(s.drop_last()) + char_width(s.last())
    }
}

/// A decimal digit of ASCII.
pub open spec fn is_digit(c: char) -> bool {
    '0' <= c <= '9'
}

/// Whether the character is a control character.
pub fn char_is_control(c: char) -> (r: bool)
    ensures
        r == is_control(c),
{
    let n: u32 = c as u32;
    n < 0x20 || (0x7f <= n && n <= 0x9f)
}

/// Whether the character is white space.
pub fn char_is_white(c: char) -> (r: bool)
    ensures
        r == is_white(c),
{
    let n: u32 = c as u32;
    (0x09 <= n && n <= 0x0d) || n == 0x20 || n == 0x85 || n == 0xa0 || n == 0x1680 || (0x2000 <= n
        && n <= 0x200a) || n == 0x2028 || n == 0x2029 || n == 0x202f || n == 0x205f || n == 0x3000
}

/// Whether the character is a decimal digit of ASCII.
pub fn char_is_digit(c: char) -> (r: bool)
    ensures
        r == is_digit(c),
{
    '0' <= c && c <= '9'
}

/// Columns that a character takes on screen: none for a control character,
/// two for CJK, full-width forms and common emoji, one for the rest.
pub fn wc(c: char) -> (r: u16)
    ensures
        r == char_width(c),
{
    if char_is_control(c) {
        return 0;
    }
    let n: u32 = c as u32;
    if (0x1100 <= n && n <= 0x115f) || (0x2600 <= n && n <= 0x27bf) || (0x2e80 <= n && n <= 0xa4cf)
        || (0xac00 <= n && n <= 0xd7a3) || (0xf900 <= n && n <= 0xfaff) || (0xfe30 <= n && n
        <= 0xfe4f) || (0xff00 <= n && n <= 0xff60) || (0xffe0 <= n && n <= 0xffe6) || (0x1f000 <= n
        && n <= 0x1faff) {
        2
    } else {
        1
    }
}

/// Width is additive.
pub proof fn lemma_width_push(s: Seq<char>, c: char)
    ensures
        width(s.push(c)) == width(s) + char_width(c),
{
    assert(s.push(c).drop_last() =~= s);
}

/// The width of a concatenation is the sum of the widths.
pub proof fn lemma_width_add(a: Seq<char>, b: Seq<char>)
    ensures
        width(a + b) == width(a) + width(b),
    decreases b.len(),
{
    if b.len() == 0 {
        assert(a + b =~= a);
    } else {
        lemma_width_add(a, b.drop_last());
        assert((a + b).drop_last() =~= a + b.drop_last());
        assert((a + b).last() == b.last());
    }
}

/// No character is wider than two columns.
pub proof fn lemma_width_bound(s: Seq<char>)
    ensures
        width(s) <= 2 * s.len(),
    decreases s.len(),
{
    if s.len() > 0 {
        lemma_width_bound(s.drop_last());
    }
}

/// Columns that a text takes on screen.
pub fn text_width(s: &str) -> (r: u16)
    requires
        width(s@) <= u16::MAX,
    ensures
        r == width(s@),
{
    let v = chars_of(s);
    let mut w: u16 = 0;
    let mut i: usize = 0;
    proof {
        assert(s@.take(0) =~= Seq::<char>::empty());
    }
    while i < v.len()
        invariant
            v@ == s@,
            i <= v.len(),
            w == width(s@.take(i as int)),
            width(s@) <= u16::MAX,
        decreases v.len() - i,
    {
        proof {
            assert(s@.take(i + 1) =~= s@.take(i as int).push(s@[i as int]));
            lemma_width_push(s@.take(i as int), s@[i as int]);
            assert(s@ =~= s@.take(i + 1) + s@.skip(i + 1));
            lemma_width_add(s@.take(i + 1), s@.skip(i + 1));
        }
        w = w + wc(v[i]);
        i += 1;
    }
    proof {
        assert(s@.take(i as int) =~= s@);
    }
    w
}

// ---------------------------------------------------------------- conversion

/// The characters of `s`, in order.
pub fn chars_of(s: &str) -> (v: Vec<char>)
    ensures
        v@ == s@,
{
    let mut v: Vec<char> = Vec::new();
    for c in it: s.chars()
        invariant
            it.seq() == s@,
            v@ == s@.take(it.index()),
    {
        v.push(c);
        assert(s@.take(it.index() + 1) =~= s@.take(it.index()).push(c));
    }
    assert(s@.take(s@.len() as int) =~= s@);
    v
}

/// The string made of the characters at positions `from..to`.
pub fn string_of(v: &Vec<char>, from: usize, to: usize) -> (s: String)
    requires
        from <= to <= v.len(),
    ensures
        s@ == v@.subrange(from as int, to as int),
{
    let mut s = String::new();
    let mut i: usize = from;
    while i < to
        invariant
            from <= i <= to <= v.len(),
            s@ == v@.subrange(from as int, i as int),
        decreases to - i,
    {
        s.push(v[i]);
        proof {
            assert(v@.subrange(from as int, i + 1) =~= v@.subrange(from as int, i as int).push(
                v@[i as int],
            ));
        }
        i += 1;
    }
    s
}

/// The number of characters of `s`.
pub fn count_chars(s: &str) -> (n: usize)
    ensures
        n == s@.len(),
{
    chars_of(s).len()
}

/// A copy of a text.
pub fn copy(s: &str) -> (r: String)
    ensures
        r@ == s@,
{
    s.to_owned()
}

/// Whether two strings hold the same characters.
pub fn same(a: &str, b: &str) -> (r: bool)
    ensures
        r == (a@ == b@),
{
    let x = copy(a);
    let y = copy(b);
    x == y
}

/// Two texts, one after the other.
pub fn cat2(a: &str, b: &str) -> (r: String)
    ensures
        r@ == a@ + b@,
{
    let mut s = copy(a);
    s.append(b);
    s
}

/// Three texts, one after the other.
pub fn cat3(a: &str, b: &str, c: &str) -> (r: String)
    ensures
        r@ == a@ + b@ + c@,
{
    let mut s = cat2(a, b);
    s.append(c);
    s
}

/// Four texts, one after the other.
pub fn cat4(a: &str, b: &str, c: &str, d: &str) -> (r: String)
    ensures
        r@ == a@ + b@ + c@ + d@,
{
    let mut s = cat3(a, b, c);
    s.append(d);
    s
}

/// Five texts, one after the other.
pub fn cat5(a: &str, b: &str, c: &str, d: &str, e: &str) -> (r: String)
    ensures
        r@ == a@ + b@ + c@ + d@ + e@,
{
    let mut s = cat4(a, b, c, d);
    s.append(e);
    s
}

/// The text of one character.
pub fn of_char(c: char) -> (r: String)
    ensures
        r@ == seq![c],
{
    let mut s = String::new();
    s.push(c);
    proof {
        assert(s@ =~= seq![c]);
    }
    s
}

/// The text without its last character; an empty text stays empty.
pub open spec fn without_last(s: Seq<char>) -> Seq<char> {
    if s.len() == 0 {
        s
    } else {
        s.drop_last()
    }
}

/// The text without its last character.
pub fn drop_last_char(s: &str) -> (r: String)
    ensures
        r@ == without_last(s@),
{
    let v = chars_of(s);
    let n: usize = v.len();
    if n == 0 {
        return copy(s);
    }
    let t = string_of(&v, 0, n - 1);
    proof {
        assert(t@ =~= s@.drop_last());
    }
    t
}

/// `n` copies of a character.
pub open spec fn repeated(c: char, n: nat) -> Seq<char> {
    Seq::new(n, |i: int| c)
}

/// `n` copies of a character.
pub fn repeat_char(c: char, n: usize) -> (r: String)
    ensures
        r@ == repeated(c, n as nat),
{
    let mut s = String::new();
    let mut i: usize = 0;
    while i < n
        invariant
            i <= n,
            s@ == repeated(c, i as nat),
        decreases n - i,
    {
        s.push(c);
        proof {
            assert(repeated(c, i as nat).push(c) =~= repeated(c, (i + 1) as nat));
        }
        i += 1;
    }
    s
}

// ---------------------------------------------------------------- lower case

/// The lower-case form of a text, as `str::to_lowercase` gives it.
pub uninterp spec fn lowered(s: Seq<char>) -> Seq<char>;

/// A character that is ASCII or a CJK unified ideograph.
pub open spec fn is_simple(c: char) -> bool {
    (c as u32) < 0x80 || 0x4e00 <= (c as u32) <= 0x9fff
}

/// A text of such characters alone.
pub open spec fn all_simple(s: Seq<char>) -> bool {
    forall|i: int| 0 <= i < s.len() ==> is_simple(#[trigger] s[i])
}

/// An ASCII capital as its small letter; any other character as it is.
pub open spec fn ascii_lower(c: char) -> char {
    if 'A' <= c <= 'Z' {
        ((c as u32) + 32) as char
    } else {
        c
    }
}

/// The lower-case form of a character, as `char::to_lowercase` gives it.
pub uninterp spec fn small_form(c: char) -> Seq<char>;

/// `char::to_lowercase` gives the lower-case form of a character, which depends on the
/// character alone and may be several of them. An ASCII capital has its small letter,
/// and the rest of ASCII and the ideographs are as they are. What it makes of other
/// characters is not stated.
#[verifier::external_body]
pub(crate) fn small(c: char) -> (r: String)
    ensures
        r@ == small_form(c),
        is_simple(c) ==> r@ == seq![ascii_lower(c)],
{
    c.to_lowercase().to_string()
}

/// The lower-case form of a character: of ASCII and ideographs the small letter or the
/// character itself, of others what `char::to_lowercase` gives.
pub open spec fn small_of(c: char) -> Seq<char> {
    if is_simple(c) {
        seq![ascii_lower(c)]
    } else {
        small_form(c)
    }
}

/// The lower-case forms of the characters of a text, one after the other.
pub open spec fn small_text(s: Seq<char>) -> Seq<char>
    decreases s.len(),
{
    if s.len() == 0 {
        Seq::empty()
    } else {
        small_text(s.drop_last()) + small_of(s.last())
    }
}

/// The lower-case form of a text, as far as it goes letter by letter; where it holds a
/// capital sigma, what `str::to_lowercase` gives.
pub open spec fn low(s: Seq<char>) -> Seq<char> {
    if s.contains('Σ') {
        lowered(s)
    } else {
        small_text(s)
    }
}

/// `str::to_lowercase` gives the lower-case form of a text, which depends on the text
/// alone. It puts the lower-case forms of the characters, as `char::to_lowercase` gives
/// them, one after the other; of ASCII and ideographs these are the small letters and
/// the characters themselves. The one letter whose form depends on where it stands is
/// the capital sigma: a text that holds one becomes a text that holds one of the two
/// small sigmas, and no more is stated of it.
#[verifier::external_body]
pub(crate) fn lowercase(s: &str) -> (r: String)
    ensures
        r@ == lowered(s@),
        !s@.contains('Σ') ==> r@ == small_text(s@),
        s@.contains('Σ') ==> r@.contains('σ') || r@.contains('ς'),
{
    s.to_lowercase()
}

// ------------------------------------------------------------------ decimals

/// The decimal digit with the value `d`.
pub open spec fn digit(d: nat) -> char {
    (('0' as u32) + d) as char
}

/// The decimal notation of `n`, without leading zeros.
pub open spec fn decimal(n: nat) -> Seq<char>
    decreases n,
{
    if n < 10 {
        seq![digit(n)]
    } else {
        decimal(n / 10).push(digit(n % 10))
    }
}

fn digit_char(d: u64) -> (c: char)
    requires
        d < 10,
    ensures
        c == digit(d as nat),
{
    if d == 0 {
        '0'
    } else if d == 1 {
        '1'
    } else if d == 2 {
        '2'
    } else if d == 3 {
        '3'
    } else if d == 4 {
        '4'
    } else if d == 5 {
        '5'
    } else if d == 6 {
        '6'
    } else if d == 7 {
        '7'
    } else if d == 8 {
        '8'
    } else {
        '9'
    }
}

/// The decimal notation of `n`.
pub fn dec64(n: u64) -> (r: String)
    ensures
        r@ == decimal(n as nat),
    decreases n,
{
    if n < 10 {
        let mut s = String::new();
        s.push(digit_char(n));
        proof {
            assert(Seq::<char>::empty().push(digit(n as nat)) =~= seq![digit(n as nat)]);
        }
        s
    } else {
        let mut s = dec64(n / 10);
        s.push(digit_char(n % 10));
        s
    }
}

/// The decimal notation of `n`.
pub fn dec128(n: u128) -> (r: String)
    ensures
        r@ == decimal(n as nat),
    decreases n,
{
    if n < 10 {
        dec64(n as u64)
    } else {
        let mut s = dec128(n / 10);
        s.push(digit_char((n % 10) as u64));
        s
    }
}

/// The decimal notation of `n`.
pub fn dec(n: usize) -> (r: String)
    ensures
        r@ == decimal(n as nat),
{
    dec64(n as u64)
}

/// The value of a run of decimal digits.
pub open spec fn digits_value(s: Seq<char>) -> nat
    decreases s.len(),
{
    if s.len() == 0 {
        0
    } else {
        10 * digits_value(s.drop_last()) + ((s.last() as u32) - ('0' as u32)) as nat
    }
}

/// A text of decimal digits alone.
pub open spec fn all_digits(s: Seq<char>) -> bool {
    forall|i: int| 0 <= i < s.len() ==> is_digit(#[trigger] s[i])
}

/// The digits of a number as it is read: an optional `+`, then the digits.
pub open spec fn number_digits(s: Seq<char>) -> Seq<char> {
    if s.len() > 0 && s[0] == '+' {
        s.skip(1)
    } else {
        s
    }
}

/// The number that a text stands for: at least one decimal digit behind an
/// optional `+`, with a value of at most `max`.
pub open spec fn parse_number(s: Seq<char>, max: nat) -> Option<nat> {
    let d = number_digits(s);
    if d.len() > 0 && all_digits(d) && digits_value(d) <= max {
        Some(digits_value(d))
    } else {
        None
    }
}

proof fn lemma_digits_value_prefix(s: Seq<char>, i: int)
    requires
        0 <= i <= s.len(),
        all_digits(s),
    ensures
        digits_value(s.take(i)) <= digits_value(s),
    decreases s.len() - i,
{
    if i < s.len() {
        lemma_digits_value_prefix(s, i + 1);
        assert(s.take(i + 1).drop_last() =~= s.take(i));
        assert(is_digit(s[i]));
    } else {
        assert(s.take(i) =~= s);
    }
}

/// Reads a number of at most `max`.
pub fn read_number(s: &str, max: u64) -> (r: Option<u64>)
    ensures
        match r {
            Some(n) => parse_number(s@, max as nat) == Some(n as nat),
            None => parse_number(s@, max as nat) is None,
        },
{
    let v = chars_of(s);
    let mut i: usize = 0;
    if v.len() > 0 && v[0] == '+' {
        i = 1;
    }
    let start: usize = i;
    let ghost d = number_digits(s@);
    proof {
        assert(d =~= s@.skip(start as int));
        assert(d.take(0) =~= Seq::<char>::empty());
    }
    if i == v.len() {
        return None;
    }
    let mut n: u64 = 0;
    while i < v.len()
        invariant
            v@ == s@,
            start <= i <= v.len(),
            start < v.len(),
            d == s@.skip(start as int),
            d == number_digits(s@),
            n == digits_value(d.take(i - start)),
            n <= max,
            forall|j: int| 0 <= j < i - start ==> is_digit(#[trigger] d[j]),
        decreases v.len() - i,
    {
        let c = v[i];
        proof {
            assert(d[i - start] == c);
        }
        if !char_is_digit(c) {
            return None;
        }
        let k: u64 = ((c as u32) - ('0' as u32)) as u64;
        proof {
            assert(d.take(i - start + 1).drop_last() =~= d.take(i - start));
            assert(d.take(i - start + 1).last() == c);
            assert(digits_value(d.take(i - start + 1)) == 10 * n + k);
        }
        if n > max / 10 || k > max - 10 * n {
            proof {
                assert(10 * n + k > max);
                if all_digits(d) {
                    lemma_digits_value_prefix(d, i - start + 1);
                }
            }
            return None;
        }
        n = 10 * n + k;
        i += 1;
    }
    proof {
        assert(d.take(d.len() as int) =~= d);
        assert(all_digits(d));
    }
    Some(n)
}

/// `true` or `false`.
pub open spec fn bool_name(b: bool) -> Seq<char> {
    if b {
        "true"@
    } else {
        "false"@
    }
}

/// The word for a truth value.
pub fn bool_text(b: bool) -> (r: &'static str)
    ensures
        r@ == bool_name(b),
{
    if b {
        "true"
    } else {
        "false"
    }
}

/// The decimal notation of `n` with zeros in front, up to at least `w` digits.
pub open spec fn padded(n: nat, w: nat) -> Seq<char> {
    let d = decimal(n);
    if d.len() < w {
        repeated('0', (w - d.len()) as nat) + d
    } else {
        d
    }
}

/// The decimal notation of `n` with zeros in front, up to at least `w` digits.
pub fn pad(n: u64, w: usize) -> (r: String)
    ensures
        r@ == padded(n as nat, w as nat),
{
    let d = dec64(n);
    let k: usize = count_chars(d.as_str());
    if k < w {
        cat2(repeat_char('0', w - k).as_str(), d.as_str())
    } else {
        d
    }
}

} // verus!
