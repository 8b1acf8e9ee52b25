//! Cutting text up: trimming, searching, splitting into lines and fields.
use crate::text;
use vstd::prelude::*;

verus! {

// ------------------------------------------------------------ lists of texts

/// The texts of a list of strings.
pub open spec fn texts(v: Seq<String>) -> Seq<Seq<char>> {
    v.map_values(|s: String| s@)
}

/// Appends a string to a list.
pub fn push_text(v: &mut Vec<String>, s: String)
    ensures
        texts(final(v)@) == texts(old(v)@).push(s@),
        final(v)@ == old(v)@.push(s),
{
    v.push(s);
    proof {
        assert(texts(v@) =~= texts(old(v)@).push(s@));
    }
}

// ------------------------------------------------------------------ trimming

/// The first position at or behind `i` that holds no white space.
pub open spec fn skip_white(s: Seq<char>, i: int) -> int
    decreases s.len() - i,
{
    if 0 <= i < s.len() && text::is_white(s[i]) {
        skip_white(s, i + 1)
    } else {
        i
    }
}

/// The end of `s.take(j)` once trailing white space is taken off.
pub open spec fn back_white(s: Seq<char>, j: int) -> int
    decreases j,
{
    if 0 < j <= s.len() && text::is_white(s[j - 1]) {
        back_white(s, j - 1)
    } else {
        j
    }
}

/// The text without its leading white space.
pub open spec fn trimmed_start(s: Seq<char>) -> Seq<char> {
    s.skip(skip_white(s, 0))
}

/// The text without its trailing white space.
pub open spec fn trimmed_end(s: Seq<char>) -> Seq<char> {
    s.take(back_white(s, s.len() as int))
}

/// The text without white space at either end.
pub open spec fn trimmed(s: Seq<char>) -> Seq<char> {
    trimmed_end(trimmed_start(s))
}

/// Where the white space from a place on ends.
pub proof fn lemma_skip_white(s: Seq<char>, i: int)
    requires
        0 <= i <= s.len(),
    ensures
        i <= skip_white(s, i) <= s.len(),
        skip_white(s, i) < s.len() ==> !text::is_white(s[skip_white(s, i)]),
        forall|k: int| i <= k < skip_white(s, i) ==> text::is_white(#[trigger] s[k]),
    decreases s.len() - i,
{
    if i < s.len() && text::is_white(s[i]) {
        lemma_skip_white(s, i + 1);
    }
}

/// Where the white space before a place begins.
pub proof fn lemma_back_white(s: Seq<char>, j: int)
    requires
        0 <= j <= s.len(),
    ensures
        0 <= back_white(s, j) <= j,
        back_white(s, j) > 0 ==> !text::is_white(s[back_white(s, j) - 1]),
        forall|k: int| back_white(s, j) <= k < j ==> text::is_white(#[trigger] s[k]),
    decreases j,
{
    if 0 < j && text::is_white(s[j - 1]) {
        lemma_back_white(s, j - 1);
    }
}

/// Where what is left of a text begins and ends.
pub proof fn lemma_trimmed_is(s: Seq<char>, i: int, j: int)
    requires
        0 <= i <= j <= s.len(),
        forall|k: int| 0 <= k < i ==> text::is_white(#[trigger] s[k]),
        forall|k: int| j <= k < s.len() ==> text::is_white(#[trigger] s[k]),
        i < j ==> !text::is_white(s[i]) && !text::is_white(s[j - 1]),
    ensures
        trimmed(s) == s.subrange(i, j),
{
    let b = skip_white(s, 0);
    let t = trimmed_start(s);
    lemma_skip_white(s, 0);
    lemma_back_white(t, t.len() as int);
    let e = back_white(t, t.len() as int);
    if i < j {
        assert(b == i);
        if e > j - i {
            assert(t[e - 1] == s[i + e - 1]);
        }
        if e < j - i {
            assert(t[j - i - 1] == s[j - 1]);
        }
        assert(e == j - i);
    } else {
        if b < s.len() {
            assert(text::is_white(s[b]));
        }
        assert(t.len() == 0);
    }
    assert(trimmed(s) =~= s.subrange(i, j));
}

/// What is left of a text is a part of it, with nothing but white space around it.
pub proof fn lemma_trimmed_part(s: Seq<char>) -> (r: (int, int))
    ensures
        0 <= r.0 <= r.1 <= s.len(),
        forall|k: int| 0 <= k < r.0 ==> text::is_white(#[trigger] s[k]),
        forall|k: int| r.1 <= k < s.len() ==> text::is_white(#[trigger] s[k]),
        r.0 < r.1 ==> !text::is_white(s[r.0]) && !text::is_white(s[r.1 - 1]),
        trimmed(s) == s.subrange(r.0, r.1),
{
    let b = skip_white(s, 0);
    let t = trimmed_start(s);
    lemma_skip_white(s, 0);
    lemma_back_white(t, t.len() as int);
    let e = back_white(t, t.len() as int);
    assert forall|k: int| b + e <= k < s.len() implies text::is_white(#[trigger] s[k]) by {
        assert(s[k] == t[k - b]);
    }
    if e > 0 {
        assert(t[e - 1] == s[b + e - 1]);
    }
    assert(trimmed(s) =~= s.subrange(b, b + e));
    (b, b + e)
}

fn white_head(v: &Vec<char>) -> (k: usize)
    ensures
        k == skip_white(v@, 0),
        k <= v.len(),
{
    let mut k: usize = 0;
    while k < v.len() && text::char_is_white(v[k])
        invariant
            k <= v.len(),
            skip_white(v@, k as int) == skip_white(v@, 0),
        decreases v.len() - k,
    {
        k += 1;
    }
    k
}

fn white_tail(v: &Vec<char>) -> (j: usize)
    ensures
        j == back_white(v@, v@.len() as int),
        j <= v.len(),
{
    let mut j: usize = v.len();
    while j > 0 && text::char_is_white(v[j - 1])
        invariant
            j <= v.len(),
            back_white(v@, j as int) == back_white(v@, v@.len() as int),
        decreases j,
    {
        j -= 1;
    }
    j
}

/// The text without its leading white space.
pub fn trim_start(s: &str) -> (r: String)
    ensures
        r@ == trimmed_start(s@),
{
    let v = text::chars_of(s);
    let k: usize = white_head(&v);
    text::string_of(&v, k, v.len())
}

/// The text without its trailing white space.
pub fn trim_end(s: &str) -> (r: String)
    ensures
        r@ == trimmed_end(s@),
{
    let v = text::chars_of(s);
    let j: usize = white_tail(&v);
    text::string_of(&v, 0, j)
}

/// The text without white space at either end.
pub fn trim(s: &str) -> (r: String)
    ensures
        r@ == trimmed(s@),
{
    let t = trim_start(s);
    trim_end(t.as_str())
}

// ----------------------------------------------------------------- searching

/// The first position at or behind `i` that holds `c`; -1 where there is none.
pub open spec fn find_from(s: Seq<char>, c: char, i: int) -> int
    decreases s.len() - i,
{
    if i < 0 || i >= s.len() {
        -1
    } else if s[i] == c {
        i
    } else {
        find_from(s, c, i + 1)
    }
}

/// What searching for a character finds.
pub proof fn lemma_find_from(s: Seq<char>, c: char, i: int)
    requires
        0 <= i,
    ensures
        find_from(s, c, i) == -1 || i <= find_from(s, c, i) < s.len(),
        find_from(s, c, i) != -1 ==> s[find_from(s, c, i)] == c,
        forall|k: int|
            i <= k < s.len() && (find_from(s, c, i) == -1 || k < find_from(s, c, i)) ==> s[k] != c,
    decreases s.len() - i,
{
    if i < s.len() && s[i] != c {
        lemma_find_from(s, c, i + 1);
    }
}

/// The first position at or behind `i` that holds `c`.
pub fn find_char(v: &Vec<char>, c: char, i: usize) -> (r: Option<usize>)
    ensures
        match r {
            Some(k) => k == find_from(v@, c, i as int) && i <= k < v.len(),
            None => find_from(v@, c, i as int) == -1,
        },
{
    let mut k: usize = i;
    while k < v.len()
        invariant
            i <= k,
            find_from(v@, c, k as int) == find_from(v@, c, i as int),
        decreases v.len() - k,
    {
        if v[k] == c {
            return Some(k);
        }
        k += 1;
    }
    None
}

/// Whether `c` occurs in the text.
pub fn has_char(s: &str, c: char) -> (r: bool)
    ensures
        r == s@.contains(c),
{
    let v = text::chars_of(s);
    let r = find_char(&v, c, 0);
    proof {
        lemma_find_from(s@, c, 0);
        if r is Some {
            assert(s@[r->0 as int] == c);
        }
    }
    r.is_some()
}

/// Whether the text starts with `p`.
pub fn starts_with(s: &str, p: &str) -> (r: bool)
    ensures
        r == p@.is_prefix_of(s@),
{
    let v = text::chars_of(s);
    let q = text::chars_of(p);
    at_position(&v, &q, 0)
}

/// Whether `p` stands in `s` at the position `i`.
pub open spec fn stands_at(s: Seq<char>, p: Seq<char>, i: int) -> bool {
    0 <= i && i + p.len() <= s.len() && s.subrange(i, i + p.len()) == p
}

/// Whether `p` occurs somewhere in `s`.
pub open spec fn occurs(s: Seq<char>, p: Seq<char>) -> bool {
    exists|i: int| stands_at(s, p, i)
}

fn at_position(v: &Vec<char>, q: &Vec<char>, i: usize) -> (r: bool)
    ensures
        r == stands_at(v@, q@, i as int),
        i == 0 ==> r == q@.is_prefix_of(v@),
{
    if i > v.len() || q.len() > v.len() - i {
        return false;
    }
    let mut k: usize = 0;
    while k < q.len()
        invariant
            i <= v.len(),
            q.len() <= v.len() - i,
            k <= q.len(),
            forall|j: int| 0 <= j < k ==> v@[i + j] == q@[j],
        decreases q.len() - k,
    {
        if v[i + k] != q[k] {
            proof {
                assert(v@.subrange(i as int, i + q@.len())[k as int] != q@[k as int]);
            }
            return false;
        }
        k += 1;
    }
    proof {
        assert(v@.subrange(i as int, i + q@.len()) =~= q@);
    }
    true
}

/// Whether `p` occurs somewhere in `s`.
pub fn contains_text(s: &str, p: &str) -> (r: bool)
    ensures
        r == occurs(s@, p@),
{
    let v = text::chars_of(s);
    let q = text::chars_of(p);
    let mut i: usize = 0;
    loop
        invariant
            v@ == s@,
            q@ == p@,
            i <= v.len(),
            forall|j: int| 0 <= j < i ==> !stands_at(s@, p@, j),
        decreases v.len() - i,
    {
        if at_position(&v, &q, i) {
            return true;
        }
        if i == v.len() {
            return false;
        }
        i += 1;
    }
}

/// The first position at or behind `i` at which `p` stands in `s`; -1 where it
/// stands nowhere.
pub open spec fn first_at(s: Seq<char>, p: Seq<char>, i: int) -> int
    decreases s.len() - i,
{
    if i < 0 || i > s.len() {
        -1
    } else if stands_at(s, p, i) {
        i
    } else if i == s.len() {
        -1
    } else {
        first_at(s, p, i + 1)
    }
}

/// The first position at which `p` stands in `s`.
pub fn find_sub(s: &str, p: &str) -> (r: Option<usize>)
    ensures
        match r {
            Some(i) => i == first_at(s@, p@, 0) && stands_at(s@, p@, i as int),
            None => first_at(s@, p@, 0) == -1,
        },
{
    let v = text::chars_of(s);
    let q = text::chars_of(p);
    let mut i: usize = 0;
    loop
        invariant
            v@ == s@,
            q@ == p@,
            i <= v.len(),
            first_at(s@, p@, i as int) == first_at(s@, p@, 0),
        decreases v.len() - i,
    {
        if at_position(&v, &q, i) {
            return Some(i);
        }
        if i == v.len() {
            return None;
        }
        i += 1;
    }
}

// ----------------------------------------------------------------- splitting

/// The fields of `s` between the separators `c`: one more than separators.
pub open spec fn fields(s: Seq<char>, c: char) -> Seq<Seq<char>>
    decreases s.len(),
{
    if s.len() == 0 {
        seq![Seq::<char>::empty()]
    } else {
        let f = fields(s.drop_last(), c);
        if s.last() == c {
            f.push(Seq::empty())
        } else {
            f.drop_last().push(f.last().push(s.last()))
        }
    }
}

/// There is at least one field.
pub proof fn lemma_fields_nonempty(s: Seq<char>, c: char)
    ensures
        fields(s, c).len() >= 1,
    decreases s.len(),
{
    if s.len() > 0 {
        lemma_fields_nonempty(s.drop_last(), c);
    }
}

/// The fields of `s` between the separators `c`.
pub fn split(s: &str, c: char) -> (r: Vec<String>)
    ensures
        texts(r@) == fields(s@, c),
{
    let v = text::chars_of(s);
    let mut done: Vec<String> = Vec::new();
    let mut cur = String::new();
    let mut i: usize = 0;
    proof {
        assert(s@.take(0) =~= Seq::<char>::empty());
        assert(texts(done@) =~= Seq::<Seq<char>>::empty());
        assert(texts(done@).push(cur@) =~= seq![Seq::<char>::empty()]);
    }
    while i < v.len()
        invariant
            v@ == s@,
            i <= v.len(),
            fields(s@.take(i as int), c) == texts(done@).push(cur@),
        decreases v.len() - i,
    {
        let ghost before = texts(done@).push(cur@);
        proof {
            assert(s@.take(i + 1).drop_last() =~= s@.take(i as int));
            assert(before.drop_last() =~= texts(done@));
            assert(before.last() == cur@);
        }
        if v[i] == c {
            push_text(&mut done, cur);
            cur = String::new();
        } else {
            cur.push(v[i]);
        }
        i += 1;
    }
    proof {
        assert(s@.take(i as int) =~= s@);
    }
    push_text(&mut done, cur);
    done
}

/// The text with one `\r` taken off its end, where it ends in one.
pub open spec fn without_cr(s: Seq<char>) -> Seq<char> {
    if s.len() > 0 && s.last() == '\r' {
        s.drop_last()
    } else {
        s
    }
}

/// The lines of a text. Each ends at a `\n` or `\r\n`, which is no part of it;
/// a last line without a line end counts unless it is empty.
pub open spec fn line_list(s: Seq<char>) -> Seq<Seq<char>> {
    let f = fields(s, '\n');
    let done = f.drop_last().map_values(|l: Seq<char>| without_cr(l));
    if f.last().len() == 0 {
        done
    } else {
        done.push(f.last())
    }
}

/// The lines of a text.
pub fn lines(s: &str) -> (r: Vec<String>)
    ensures
        texts(r@) == line_list(s@),
{
    let f = split(s, '\n');
    let ghost fs = fields(s@, '\n');
    proof {
        lemma_fields_nonempty(s@, '\n');
        assert(fs.len() == f@.len());
        assert(forall|k: int| 0 <= k < f@.len() ==> fs[k] == #[trigger] f@[k]@);
    }
    let ghost done = fs.drop_last().map_values(|l: Seq<char>| without_cr(l));
    let mut r: Vec<String> = Vec::new();
    let n: usize = f.len() - 1;
    let mut i: usize = 0;
    proof {
        assert(texts(r@) =~= done.take(0));
    }
    while i < n
        invariant
            n == f@.len() - 1,
            fs.len() == f@.len(),
            forall|k: int| 0 <= k < f@.len() ==> fs[k] == #[trigger] f@[k]@,
            done == fs.drop_last().map_values(|l: Seq<char>| without_cr(l)),
            i <= n,
            texts(r@) == done.take(i as int),
        decreases n - i,
    {
        let l = text::chars_of(f[i].as_str());
        let mut end: usize = l.len();
        if end > 0 && l[end - 1] == '\r' {
            end = end - 1;
        }
        let t = text::string_of(&l, 0, end);
        proof {
            assert(t@ =~= without_cr(fs[i as int]));
            assert(done[i as int] == t@);
            assert(done.take(i + 1) =~= done.take(i as int).push(t@));
        }
        push_text(&mut r, t);
        i += 1;
    }
    let last = text::chars_of(f[n].as_str());
    proof {
        assert(done.take(n as int) =~= done);
    }
    if last.len() > 0 {
        push_text(&mut r, f[n].clone());
    }
    r
}

/// Texts one after the other, with a line feed between two.
pub open spec fn join_lines(v: Seq<Seq<char>>) -> Seq<char>
    decreases v.len(),
{
    if v.len() == 0 {
        Seq::empty()
    } else if v.len() == 1 {
        v[0]
    } else {
        join_lines(v.drop_last()).push('\n') + v.last()
    }
}

/// Texts one after the other, with a line feed between two.
pub fn join(v: &Vec<String>) -> (r: String)
    ensures
        r@ == join_lines(texts(v@)),
{
    let ghost tv = texts(v@);
    let mut out = String::new();
    let mut i: usize = 0;
    proof {
        assert(tv.take(0) =~= Seq::<Seq<char>>::empty());
    }
    while i < v.len()
        invariant
            tv == texts(v@),
            i <= v.len(),
            out@ == join_lines(tv.take(i as int)),
        decreases v.len() - i,
    {
        proof {
            assert(tv.take(i + 1).drop_last() =~= tv.take(i as int));
            assert(tv.take(i + 1).last() == v@[i as int]@);
        }
        if i > 0 {
            out.push('\n');
        } else {
            proof {
                assert(out@ + v@[0]@ =~= v@[0]@);
            }
        }
        out.append(v[i].as_str());
        i += 1;
    }
    proof {
        assert(tv.take(i as int) =~= tv);
    }
    out
}

// --------------------------------------------------------------------- words

/// The words that are complete, and the one that is being read.
#[verifier::ext_equal]
pub struct WordScan {
    pub done: Seq<Seq<char>>,
    pub cur: Seq<char>,
}

/// A word is complete unless it is empty.
pub open spec fn end_word(w: WordScan) -> Seq<Seq<char>> {
    if w.cur.len() == 0 {
        w.done
    } else {
        w.done.push(w.cur)
    }
}

/// The words behind the given text.
pub open spec fn word_scan(s: Seq<char>) -> WordScan
    decreases s.len(),
{
    if s.len() == 0 {
        WordScan { done: Seq::empty(), cur: Seq::empty() }
    } else {
        let w = word_scan(s.drop_last());
        if text::is_white(s.last()) {
            WordScan { done: end_word(w), cur: Seq::empty() }
        } else {
            WordScan { done: w.done, cur: w.cur.push(s.last()) }
        }
    }
}

/// The words of a text: what stands between white space.
pub open spec fn words(s: Seq<char>) -> Seq<Seq<char>> {
    end_word(word_scan(s))
}

/// The words of a text.
pub fn split_words(s: &str) -> (r: Vec<String>)
    ensures
        texts(r@) == words(s@),
{
    let v = text::chars_of(s);
    let mut done: Vec<String> = Vec::new();
    let mut cur = String::new();
    let mut i: usize = 0;
    proof {
        assert(s@.take(0) =~= Seq::<char>::empty());
        assert(texts(done@) =~= Seq::<Seq<char>>::empty());
    }
    while i < v.len()
        invariant
            v@ == s@,
            i <= v.len(),
            word_scan(s@.take(i as int)) == (WordScan { done: texts(done@), cur: cur@ }),
        decreases v.len() - i,
    {
        proof {
            assert(s@.take(i + 1).drop_last() =~= s@.take(i as int));
        }
        if text::char_is_white(v[i]) {
            if !cur.as_str().is_empty() {
                push_text(&mut done, cur);
                cur = String::new();
            }
        } else {
            cur.push(v[i]);
        }
        i += 1;
    }
    proof {
        assert(s@.take(i as int) =~= s@);
    }
    if !cur.as_str().is_empty() {
        push_text(&mut done, cur);
    }
    done
}

/// Texts one after the other, with a separator between two.
pub open spec fn join_with(v: Seq<Seq<char>>, sep: Seq<char>) -> Seq<char>
    decreases v.len(),
{
    if v.len() == 0 {
        Seq::empty()
    } else if v.len() == 1 {
        v[0]
    } else {
        join_with(v.drop_last(), sep) + sep + v.last()
    }
}

/// The texts from the position `from` on, with a separator between two.
pub fn join_from(v: &Vec<String>, from: usize, sep: &str) -> (r: String)
    requires
        from <= v@.len(),
    ensures
        r@ == join_with(texts(v@).skip(from as int), sep@),
{
    let ghost tv = texts(v@).skip(from as int);
    let mut out = String::new();
    let mut i: usize = from;
    proof {
        assert(tv.take(0) =~= Seq::<Seq<char>>::empty());
    }
    while i < v.len()
        invariant
            tv == texts(v@).skip(from as int),
            from <= i <= v.len(),
            out@ == join_with(tv.take(i - from), sep@),
        decreases v.len() - i,
    {
        let ghost k = i - from;
        proof {
            assert(tv.take(k + 1).drop_last() =~= tv.take(k));
            assert(tv.take(k + 1).last() == v@[i as int]@);
        }
        if i > from {
            out.append(sep);
        } else {
            proof {
                assert(out@ + v@[i as int]@ =~= v@[i as int]@);
            }
        }
        out.append(v[i].as_str());
        i += 1;
    }
    proof {
        assert(tv.take(v@.len() - from) =~= tv);
    }
    out
}

} // verus!
