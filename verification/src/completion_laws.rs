//! What is completed where, which candidates are offered for it, and what taking one
//! puts in.

use crate::completion;
use crate::completion::{CompletionKind, CompletionView, ItemView, LookupView, SkillView};
use crate::completion_menu;
use crate::editor;
use crate::input::{KeyCode, KeyEvent};
use crate::scan;
use crate::text;
use crate::text_laws;
use vstd::prelude::*;

verus! {

/// A text in which no character parts two words.
pub open spec fn unparted(s: Seq<char>) -> bool {
    forall|i: int| 0 <= i < s.len() ==> !completion::is_separator(#[trigger] s[i])
}

/// Blanks, line ends and the marks that end a sentence or a bracket part two words;
/// letters, digits, dots, dashes and slashes do not.
pub proof fn law_separators(c: char)
    ensures
        c == ' ' || c == '\n' || c == '\t' || c == ',' || c == ';' || c == ':' || c == ')' || c
            == ']' || c == '}' || c == '。' || c == '：' || c == '」' ==> completion::is_separator(c),
        ('a' <= c <= 'z') || ('A' <= c <= 'Z') || ('0' <= c <= '9') || c == '.' || c == '-' || c
            == '_' || c == '/' || c == '@' || c == '"' || c == '~' ==> !completion::is_separator(c),
{
}

// --------------------------------------------------------------------- detection

proof fn lemma_last_word(x: Seq<char>, w: Seq<char>)
    requires
        x.len() > 0 ==> completion::is_separator(x.last()),
        unparted(w),
    ensures
        completion::last_word(x + w) == x.len(),
    decreases w.len(),
{
    let s = x + w;
    if w.len() == 0 {
        assert(s =~= x);
    } else {
        assert(s.last() == w[w.len() - 1]);
        assert(s.drop_last() =~= x + w.drop_last());
        assert forall|i: int| 0 <= i < w.len() - 1 implies !completion::is_separator(
            #[trigger] w.drop_last()[i],
        ) by {
            assert(w.drop_last()[i] == w[i]);
        }
        lemma_last_word(x, w.drop_last());
    }
}

proof fn lemma_no_quote(s: Seq<char>, from: int, i: int)
    requires
        0 <= from,
        forall|k: int| from < k < s.len() ==> #[trigger] s[k] != '"',
    ensures
        completion::last_quote(s, from, i) is None,
    decreases i - from,
{
    if i > from {
        lemma_no_quote(s, from, i - 1);
    }
}

proof fn lemma_last_line(s: Seq<char>)
    ensures
        0 <= completion::last_line(s) <= s.len(),
    decreases s.len(),
{
    if s.len() > 0 {
        lemma_last_line(s.drop_last());
    }
}

/// A word that begins with `@` in front of the cursor is a reference, wherever it
/// stands, and what follows its `@` is what was typed.
pub proof fn law_references_are_completed(x: Seq<char>, t: Seq<char>, rest: Seq<char>)
    requires
        x.len() > 0 ==> completion::is_separator(x.last()),
        unparted(t),
        !x.contains('"'),
        !t.contains('"'),
    ensures
        ({
            let left = x + seq!['@'] + t;
            completion::detected(left + rest, editor::byte_len(left)) == Some(
                (CompletionKind::At, x.len() as int, t),
            )
        }),
{
    let left = x + seq!['@'] + t;
    lemma_left(left, rest);
    lemma_word(x, '@', t);
    assert(!left.contains('"')) by {
        assert forall|i: int| 0 <= i < left.len() implies left[i] != '"' by {
            if i < x.len() {
                assert(x.contains(x[i]));
            } else if i > x.len() {
                assert(t.contains(t[i - x.len() - 1]));
            }
        }
    }
    lemma_last_line(left);
    assert forall|k: int| completion::last_line(left) < k < left.len() implies #[trigger] left[k]
        != '"' by {
        assert(left.contains(left[k]));
    }
    lemma_no_quote(left, completion::last_line(left), left.len() as int);
}

proof fn lemma_left(left: Seq<char>, rest: Seq<char>)
    requires
        left.len() > 0,
    ensures
        (left + rest).take(editor::begun(left + rest, editor::byte_len(left))) == left,
        editor::byte_len(left) > 0,
{
    let s = left + rest;
    assert(s.take(left.len() as int) =~= left);
    editor::lemma_begun_place(s, left.len() as int);
}

proof fn lemma_word(x: Seq<char>, c: char, t: Seq<char>)
    requires
        x.len() > 0 ==> completion::is_separator(x.last()),
        !completion::is_separator(c),
        unparted(t),
    ensures
        completion::last_word(x + seq![c] + t) == x.len(),
        (x + seq![c] + t).skip(x.len() as int) == seq![c] + t,
        (seq![c] + t)[0] == c,
        (seq![c] + t).skip(1) == t,
{
    let w = seq![c] + t;
    assert forall|i: int| 0 <= i < w.len() implies !completion::is_separator(#[trigger] w[i]) by {
        if i > 0 {
            assert(w[i] == t[i - 1]);
        }
    }
    lemma_last_word(x, w);
    assert(x + seq![c] + t =~= x + w);
    assert((x + w).skip(x.len() as int) =~= w);
    assert(w.skip(1) =~= t);
}

/// Behind an open `@"` blanks and marks belong to the reference too.
pub proof fn law_quoted_references_are_completed(x: Seq<char>, t: Seq<char>, rest: Seq<char>)
    requires
        t.len() > 0,
        !t.contains('"'),
        !t.contains('\n'),
    ensures
        ({
            let left = x + seq!['@', '"'] + t;
            completion::detected(left + rest, editor::byte_len(left)) == Some(
                (CompletionKind::At, x.len() as int, t),
            )
        }),
{
    let left = x + seq!['@', '"'] + t;
    lemma_left(left, rest);
    lemma_line_before(x + seq!['@', '"'], t);
    let from = completion::last_line(left);
    assert(from <= x.len()) by {
        lemma_line_before(x, seq!['@', '"']);
        lemma_last_line(x);
    }
    lemma_last_line(left);
    lemma_quote_found(left, from, x.len() as int, left.len() as int, t);
    assert(left.skip(x.len() as int + 2) =~= t);
}

proof fn lemma_line_before(a: Seq<char>, t: Seq<char>)
    requires
        !t.contains('\n'),
    ensures
        completion::last_line(a + t) == completion::last_line(a),
    decreases t.len(),
{
    let s = a + t;
    if t.len() == 0 {
        assert(s =~= a);
    } else {
        assert(s.last() == t[t.len() - 1]);
        assert(t.contains(t[t.len() - 1]));
        assert(s.drop_last() =~= a + t.drop_last());
        assert(!t.drop_last().contains('\n')) by {
            assert forall|i: int| 0 <= i < t.len() - 1 implies t.drop_last()[i] != '\n' by {
                assert(t.contains(t[i]));
            }
        }
        lemma_line_before(a, t.drop_last());
    }
}

proof fn lemma_quote_found(left: Seq<char>, from: int, q: int, i: int, t: Seq<char>)
    requires
        0 <= from <= q,
        q + 1 <= i <= left.len(),
        left.len() == q + 2 + t.len(),
        left[q] == '@',
        left[q + 1] == '"',
        !t.contains('"'),
        forall|k: int| q + 2 <= k < left.len() ==> left[k] == #[trigger] t[k - q - 2],
    ensures
        completion::last_quote(left, from, i) == Some(q),
    decreases i,
{
    if i == q + 1 {
    } else {
        if i < left.len() {
            assert(left[i] == t[i - q - 2]);
            assert(t.contains(t[i - q - 2]));
        }
        lemma_quote_found(left, from, q, i - 1, t);
    }
}

/// A word that begins with `/` in front of the cursor is a command where nothing but
/// white space stands before it, and is not completed elsewhere; neither is a word that
/// begins with any other character, nor an empty one.
pub proof fn law_commands_are_completed(x: Seq<char>, c: char, t: Seq<char>, rest: Seq<char>)
    requires
        x.len() > 0 ==> completion::is_separator(x.last()),
        !completion::is_separator(c),
        c != '@',
        unparted(t),
        !x.contains('"'),
        !t.contains('"'),
        c != '"',
    ensures
        ({
            let left = x + seq![c] + t;
            let d = completion::detected(left + rest, editor::byte_len(left));
            &&& c == '/' && text_laws::blank(x) ==> d == Some(
                (CompletionKind::Slash, x.len() as int, t),
            )
            &&& c != '/' ==> d is None
            &&& !text_laws::blank(x) ==> d is None
        }),
{
    let left = x + seq![c] + t;
    let e = Seq::<char>::empty();
    lemma_left(left, rest);
    lemma_word(x, c, t);
    assert forall|i: int| 0 <= i < left.len() implies #[trigger] left[i] != '"' by {
        if i < x.len() {
            assert(x.contains(x[i]));
        } else if i > x.len() {
            assert(t.contains(t[i - x.len() - 1]));
        }
    }
    lemma_last_line(left);
    lemma_no_quote(left, completion::last_line(left), left.len() as int);
    assert((left + rest).take(x.len() as int) =~= x);
    if text_laws::blank(x) {
        text_laws::law_trimming_takes_white_space(x, e, e);
        assert(x + e + e =~= x);
    } else {
        let (a, b) = text_laws::law_trimmed_text_stands_in_white_space(x);
        if scan::trimmed(x).len() == 0 {
            assert(x =~= a + b);
            assert forall|i: int| 0 <= i < x.len() implies text::is_white(#[trigger] x[i]) by {
                if i < a.len() {
                    assert(x[i] == a[i]);
                } else {
                    assert(x[i] == b[i - a.len()]);
                }
            }
        }
    }
}

// -------------------------------------------------------------------- candidates

/// Two texts of the same length whose characters differ at most in the case of ASCII
/// letters.
pub open spec fn same_letters(a: Seq<char>, b: Seq<char>) -> bool {
    &&& a.len() == b.len()
    &&& forall|i: int|
        0 <= i < a.len() ==> {
            ||| #[trigger] a[i] == b[i]
            ||| 'A' <= a[i] <= 'Z' && (b[i] as u32) == (a[i] as u32) + 32
            ||| 'A' <= b[i] <= 'Z' && (a[i] as u32) == (b[i] as u32) + 32
        }
}

proof fn lemma_begins(name: Seq<char>, head: Seq<char>, tail: Seq<char>, typed: Seq<char>)
    requires
        name == head + tail,
        same_letters(head, typed),
    ensures
        completion::begins_with(name, typed),
{
    assert forall|i: int| 0 <= i < typed.len() implies text::small_of(#[trigger] name[i])
        == text::small_of(typed[i]) by {
        assert(name[i] == head[i]);
        lemma_small_letters(head[i], typed[i]);
    }
}

proof fn lemma_small_letters(a: char, b: char)
    requires
        a == b || ('A' <= a <= 'Z' && (b as u32) == (a as u32) + 32) || ('A' <= b <= 'Z' && (
        a as u32) == (b as u32) + 32),
    ensures
        text::small_of(a) == text::small_of(b),
{
}

proof fn lemma_other_letters(name: Seq<char>, typed: Seq<char>)
    requires
        completion::begins_with(name, typed),
        text::all_simple(name),
        text::all_simple(typed),
    ensures
        same_letters(name.take(typed.len() as int), typed),
{
    let head = name.take(typed.len() as int);
    assert forall|i: int| 0 <= i < head.len() implies {
        ||| #[trigger] head[i] == typed[i]
        ||| 'A' <= head[i] <= 'Z' && (typed[i] as u32) == (head[i] as u32) + 32
        ||| 'A' <= typed[i] <= 'Z' && (head[i] as u32) == (typed[i] as u32) + 32
    } by {
        assert(text::small_of(name[i]) == text::small_of(typed[i]));
        assert(text::is_simple(name[i]) && text::is_simple(typed[i]));
        lemma_small_again(name[i], typed[i]);
    }
}

proof fn lemma_small_again(a: char, b: char)
    requires
        text::is_simple(a),
        text::is_simple(b),
        text::small_of(a) == text::small_of(b),
    ensures
        a == b || ('A' <= a <= 'Z' && (b as u32) == (a as u32) + 32) || ('A' <= b <= 'Z' && (
        a as u32) == (b as u32) + 32),
{
    let x = seq![text::ascii_lower(a)];
    let y = seq![text::ascii_lower(b)];
    assert(x == y);
    assert(x[0] == y[0]);
}

/// One of the candidates puts in a text and shows it.
pub open spec fn offers(v: Seq<ItemView>, label: Seq<char>, insert: Seq<char>) -> bool {
    exists|i: int|
        0 <= i < v.len() && #[trigger] v[i].label == label && v[i].insert == insert
}

/// The candidates for a command.
pub open spec fn commands(skills: Seq<SkillView>, typed: Seq<char>) -> Seq<ItemView> {
    completion::builtin_items(typed, completion::BUILTIN_COUNT as nat) + completion::skill_items(
        skills,
        typed,
    )
}

/// A name of a command that is built in, without its slash.
pub open spec fn built_in(name: Seq<char>) -> bool {
    name == "help"@ || name == "skills"@ || name == "config"@ || name == "undo"@ || name
        == "resume"@ || name == "clear"@ || name == "compact"@ || name == "update"@ || name
        == "persona"@ || name == "quit"@
}

/// Every command that is built in is offered when its name begins with what was typed,
/// in whatever case, and so is every skill; taking it puts in its name behind a slash.
pub proof fn law_matching_commands_are_offered(
    skills: Seq<SkillView>,
    typed: Seq<char>,
    head: Seq<char>,
    tail: Seq<char>,
)
    requires
        same_letters(head, typed),
        built_in(head + tail) || exists|i: int|
            0 <= i < skills.len() && #[trigger] skills[i].name == head + tail,
    ensures
        offers(commands(skills, typed), "/"@ + (head + tail), "/"@ + (head + tail)),
{
    let name = head + tail;
    let b = completion::builtin_items(typed, 10);
    let k = completion::skill_items(skills, typed);
    let all = commands(skills, typed);
    assert(all == b + k);
    lemma_begins(name, head, tail, typed);
    if built_in(name) {
        let n: int = if name == "help"@ {
            0
        } else if name == "skills"@ {
            1
        } else if name == "config"@ {
            2
        } else if name == "undo"@ {
            3
        } else if name == "resume"@ {
            4
        } else if name == "clear"@ {
            5
        } else if name == "compact"@ {
            6
        } else if name == "update"@ {
            7
        } else if name == "persona"@ {
            8
        } else {
            9
        };
        let i = lemma_builtin_offered(typed, n, 10);
        assert(completion::builtin_name(n) == name);
        assert(all[i] == b[i]);
        assert(all[i].label == "/"@ + name && all[i].insert == "/"@ + name);
    } else {
        let j = choose|i: int| 0 <= i < skills.len() && #[trigger] skills[i].name == name;
        let i = lemma_skill_offered(skills, typed, j);
        assert(all[b.len() + i] == k[i]);
        assert(all[b.len() + i].label == "/"@ + name && all[b.len() + i].insert == "/"@ + name);
    }
}

proof fn lemma_builtin_offered(typed: Seq<char>, n: int, m: nat) -> (i: int)
    requires
        0 <= n < m,
        completion::begins_with(completion::builtin_name(n), typed),
    ensures
        0 <= i < completion::builtin_items(typed, m).len(),
        completion::builtin_items(typed, m)[i] == completion::command_item(
            completion::builtin_name(n),
            completion::builtin_hint(n),
        ),
    decreases m,
{
    let r = completion::builtin_items(typed, (m - 1) as nat);
    if n == m - 1 {
        r.len() as int
    } else {
        lemma_builtin_offered(typed, n, (m - 1) as nat)
    }
}

proof fn lemma_skill_offered(skills: Seq<SkillView>, typed: Seq<char>, j: int) -> (i: int)
    requires
        0 <= j < skills.len(),
        completion::begins_with(skills[j].name, typed),
    ensures
        0 <= i < completion::skill_items(skills, typed).len(),
        completion::skill_items(skills, typed)[i].label == "/"@ + skills[j].name,
        completion::skill_items(skills, typed)[i].insert == "/"@ + skills[j].name,
    decreases skills.len(),
{
    let r = completion::skill_items(skills.drop_last(), typed);
    if j == skills.len() - 1 {
        r.len() as int
    } else {
        assert(skills.drop_last()[j] == skills[j]);
        lemma_skill_offered(skills.drop_last(), typed, j)
    }
}

/// A name of ASCII and ideographs begins with what was typed just where their letters
/// are the same, the case aside.
pub proof fn law_case_does_not_count(name: Seq<char>, typed: Seq<char>)
    requires
        text::all_simple(name),
        text::all_simple(typed),
    ensures
        completion::begins_with(name, typed) <==> typed.len() <= name.len() && same_letters(
            name.take(typed.len() as int),
            typed,
        ),
{
    if completion::begins_with(name, typed) {
        lemma_other_letters(name, typed);
    }
    if typed.len() <= name.len() && same_letters(name.take(typed.len() as int), typed) {
        let n = typed.len() as int;
        assert(name =~= name.take(n) + name.skip(n));
        lemma_begins(name, name.take(n), name.skip(n), typed);
    }
}

// ------------------------------------------------------------------- directories

/// What was typed of a reference is a directory, up to its last slash, and the
/// beginning of a name: entries of that directory are looked up.
pub proof fn law_directories_are_looked_up(dir: Seq<char>, base: Seq<char>)
    requires
        !base.contains('/'),
        dir.len() > 0 ==> dir.last() == '/',
    ensures
        completion::dir_len(dir + base) == dir.len(),
        completion::lookup(base) == LookupView::Here,
        dir.len() > 0 && dir[0] != '~' ==> completion::lookup(dir + base) == LookupView::Path(dir),
        completion::lookup(seq!['~', '/'] + dir + base) == LookupView::Home(dir),
{
    let e = Seq::<char>::empty();
    lemma_dir(dir, base);
    lemma_dir(e, base);
    assert(e + base =~= base);
    assert(base.take(0) =~= e);
    assert((dir + base).take(dir.len() as int) =~= dir);
    let h = seq!['~', '/'] + dir;
    assert(h.last() == '/');
    lemma_dir(h, base);
    assert((h + base).take(h.len() as int) =~= h);
    assert(h.skip(2) =~= dir);
}

proof fn lemma_dir(dir: Seq<char>, base: Seq<char>)
    requires
        !base.contains('/'),
        dir.len() > 0 ==> dir.last() == '/',
    ensures
        completion::dir_len(dir + base) == dir.len(),
    decreases base.len(),
{
    let s = dir + base;
    if base.len() == 0 {
        assert(s =~= dir);
    } else {
        assert(s.last() == base[base.len() - 1]);
        assert(base.contains(base[base.len() - 1]));
        assert(s.drop_last() =~= dir + base.drop_last());
        assert forall|i: int| 0 <= i < base.len() - 1 implies base.drop_last()[i] != '/' by {
            assert(base.contains(base[i]));
        }
        lemma_dir(dir, base.drop_last());
    }
}

/// A path without blanks and marks is put in as it is, and any other between quotes.
pub proof fn law_paths_are_quoted(name: Seq<char>)
    ensures
        unparted(name) ==> completion::quoted(name) == name,
        !unparted(name) ==> completion::quoted(name) == seq!['"'] + name + seq!['"'],
{
    reveal_strlit("\"");
    assert("\""@ =~= seq!['"']);
    if !unparted(name) {
        let i = choose|i: int| 0 <= i < name.len() && completion::is_separator(#[trigger] name[i]);
        assert(completion::is_separator(name[i]));
    }
}

/// An entry whose name begins with what was typed, in whatever case, is offered: with
/// its directory in front, and with a slash behind it where it is a directory itself.
/// Hidden entries are offered only where a dot was typed, and names with quotes never.
pub proof fn law_matching_entries_are_offered(
    entries: Seq<(Seq<char>, bool)>,
    dir: Seq<char>,
    base: Seq<char>,
    i: int,
    head: Seq<char>,
    tail: Seq<char>,
)
    requires
        !base.contains('/'),
        dir.len() > 0 ==> dir.last() == '/',
        0 <= i < entries.len(),
        entries[i].0 == head + tail,
        same_letters(head, base),
        !entries[i].0.contains('"'),
        head.len() > 0 && head[0] == '.' || entries[i].0.len() > 0 && entries[i].0[0] != '.'
            || entries[i].0.len() == 0,
    ensures
        ({
            let full = dir + entries[i].0 + (if entries[i].1 {
                seq!['/']
            } else {
                Seq::empty()
            });
            offers(
                completion::sorted(completion::entry_items(entries, dir + base)),
                full,
                completion::quoted(full),
            )
        }),
{
    let typed = dir + base;
    let name = entries[i].0;
    law_directories_are_looked_up(dir, base);
    assert(typed.take(dir.len() as int) =~= dir);
    assert(typed.skip(dir.len() as int) =~= base);
    lemma_begins(name, head, tail, base);
    if name.len() > 0 && name[0] == '.' {
        assert(head[0] == '.');
        assert(base[0] == '.');
    }
    let v = completion::entry_items(entries, typed);
    let k = lemma_entry_offered(entries, typed, i);
    reveal_strlit("/");
    assert("/"@ =~= seq!['/']);
    let full = dir + name + (if entries[i].1 {
        seq!['/']
    } else {
        Seq::empty()
    });
    assert(v[k].label =~= full);
    completion::law_candidates_are_sorted(v);
    let w = completion::sorted(v);
    broadcast use vstd::seq_lib::group_to_multiset_ensures;

    assert(v.contains(v[k]));
    assert(v.to_multiset().count(v[k]) > 0);
    assert(w.contains(v[k]));
    let m = choose|m: int| 0 <= m < w.len() && w[m] == v[k];
    assert(w[m].label == full && w[m].insert == completion::quoted(full));
}

proof fn lemma_entry_offered(entries: Seq<(Seq<char>, bool)>, typed: Seq<char>, i: int) -> (k: int)
    requires
        0 <= i < entries.len(),
        completion::is_candidate(entries[i].0, typed.skip(completion::dir_len(typed))),
    ensures
        0 <= k < completion::entry_items(entries, typed).len(),
        completion::entry_items(entries, typed)[k] == completion::entry_item(
            typed.take(completion::dir_len(typed)),
            entries[i].0,
            entries[i].1,
        ),
    decreases entries.len(),
{
    let r = completion::entry_items(entries.drop_last(), typed);
    if i == entries.len() - 1 {
        r.len() as int
    } else {
        assert(entries.drop_last()[i] == entries[i]);
        lemma_entry_offered(entries.drop_last(), typed, i)
    }
}

/// Labels are in order as the words of a dictionary are: a text comes before those that
/// it begins, and otherwise the first character in which two texts differ decides.
pub proof fn law_order_of_labels(a: Seq<char>, x: char, y: char, b: Seq<char>, c: Seq<char>)
    requires
        x < y,
    ensures
        completion::comes_before(a + seq![x] + b, a + seq![y] + c),
        !completion::comes_before(a + seq![y] + c, a + seq![x] + b),
        completion::comes_before(a, a + seq![x] + b),
        !completion::comes_before(a, a),
    decreases a.len(),
{
    let p = a + seq![x] + b;
    let q = a + seq![y] + c;
    if a.len() > 0 {
        let t = a.skip(1);
        law_order_of_labels(t, x, y, b, c);
        assert(p.skip(1) =~= t + seq![x] + b);
        assert(q.skip(1) =~= t + seq![y] + c);
        assert(p[0] == a[0] && q[0] == a[0]);
    } else {
        assert(p[0] == x && q[0] == y);
    }
}

/// Of not more than two hundred candidates all are shown, and of more the first two
/// hundred.
pub proof fn law_candidates_are_limited(v: Seq<ItemView>)
    ensures
        v.len() <= 200 ==> completion::limited(v, completion::AT_LIMIT as nat) == v,
        v.len() > 200 ==> completion::limited(v, completion::AT_LIMIT as nat) == v.take(200),
{
}

// ------------------------------------------------------------------------ taking

/// Taking the selected candidate in a text `x + word` with the cursor behind the word
/// puts it in the word's place: a reference with its `@`, a command as it is. A blank
/// follows, unless it is a directory or white space stands there already.
pub proof fn law_selected_candidate_is_put_in(
    x: Seq<char>,
    word: Seq<char>,
    rest: Seq<char>,
    c: CompletionView,
)
    requires
        c.selected < c.items.len(),
        c.word_start == editor::byte_len(x),
        c.items[c.selected as int].label.len() > 0,
    ensures
        ({
            let it = c.items[c.selected as int];
            let put = if c.kind == CompletionKind::At {
                seq!['@'] + it.insert
            } else {
                it.insert
            };
            let open = it.label.last() == '/' || (rest.len() > 0 && text::is_white(rest[0]));
            let (t, e) = completion_menu::accepted(
                x + word + rest,
                editor::byte_len(x + word),
                c,
            );
            &&& open ==> t == x + put + rest && e == editor::byte_len(x + put)
            &&& !open ==> t == x + put + seq![' '] + rest && e == editor::byte_len(
                x + put + seq![' '],
            )
        }),
{
    let s = x + word + rest;
    let it = c.items[c.selected as int];
    let put = if c.kind == CompletionKind::At {
        seq!['@'] + it.insert
    } else {
        it.insert
    };
    reveal_strlit("@");
    assert("@"@ =~= seq!['@']);
    assert(s.take(x.len() as int) =~= x);
    assert(s.take((x + word).len() as int) =~= x + word);
    editor::lemma_begun_place(s, x.len() as int);
    editor::lemma_begun_place(s, (x + word).len() as int);
    assert(s.skip((x + word).len() as int) =~= rest);
    editor::lemma_byte_len_add(x, put);
    editor::lemma_byte_len_add(x, put.push(' '));
    assert(x + put.push(' ') + rest =~= x + put + seq![' '] + rest);
    assert(x + put.push(' ') =~= x + put + seq![' ']);
}

/// The arrows move the selection by one candidate and stop at the ends of the list; the
/// list itself stays.
pub proof fn law_arrows_move_the_selection(c: CompletionView, k: KeyEvent)
    requires
        c.selected < c.items.len(),
    ensures
        k.code == KeyCode::Down ==> completion_menu::menu_step(Some(c), k)
            == completion_menu::MenuView::Used(
            CompletionView {
                selected: if c.selected + 1 < c.items.len() {
                    c.selected + 1
                } else {
                    c.selected
                },
                ..c
            },
        ),
        k.code == KeyCode::Up ==> completion_menu::menu_step(Some(c), k)
            == completion_menu::MenuView::Used(
            CompletionView {
                selected: if c.selected > 0 {
                    (c.selected - 1) as nat
                } else {
                    0
                },
                ..c
            },
        ),
{
}

/// The keys that confirm take the selected candidate, unless another key is held with
/// them.
pub proof fn law_confirming_takes(c: CompletionView, k: KeyEvent)
    requires
        c.items.len() > 0,
    ensures
        k.code == KeyCode::Enter && !k.shift && !k.alt ==> completion_menu::menu_step(Some(c), k)
            == completion_menu::MenuView::Take(c),
        k.code == KeyCode::Tab && !k.shift ==> completion_menu::menu_step(Some(c), k)
            == completion_menu::MenuView::Take(c),
        k.code is Char || k.code == KeyCode::Backspace ==> completion_menu::menu_step(Some(c), k)
            == completion_menu::MenuView::Pass(Some(c)),
{
}

/// A list is opened with all the candidates that were found, the first selected, and
/// none is opened where nothing was found.
pub proof fn law_lists_open_at_the_first(
    kind: CompletionKind,
    at: nat,
    typed: Seq<char>,
    items: Seq<ItemView>,
)
    ensures
        items.len() == 0 ==> completion_menu::opened(kind, at, typed, items) is None,
        items.len() > 0 ==> completion_menu::opened(kind, at, typed, items) == Some(
            CompletionView { kind, typed, word_start: at, items, selected: 0 },
        ),
{
}

// ---------------------------------------------------------------------- the list

/// The list is asked for anew when another word, or more of it, stands at the cursor;
/// it stays while the same does, and is closed where nothing is completed.
pub proof fn law_list_follows_the_word(
    s: Seq<char>,
    b: nat,
    kind: CompletionKind,
    start: int,
    typed: Seq<char>,
    cm: Option<CompletionView>,
)
    ensures
        completion::detected(s, b) == Some((kind, start, typed)) ==> {
            let at = editor::byte_len(s.take(start));
            let r = completion_menu::refresh_of(s, b, true, cm);
            let same = cm is Some && cm->Some_0.kind == kind && cm->Some_0.word_start == at
                && cm->Some_0.typed == typed;
            &&& same ==> r == completion_menu::RefreshView::Keep
            &&& !same ==> r == (completion_menu::RefreshView::Query {
                kind,
                word_start: at,
                typed,
            })
        },
        completion::detected(s, b) is None ==> completion_menu::refresh_of(s, b, true, cm)
            == completion_menu::RefreshView::Close,
        completion_menu::refresh_of(s, b, false, cm) == completion_menu::RefreshView::Close,
{
}

proof fn lemma_menu_lines(c: CompletionView, from: int, to: int, avail: int, k: int)
    requires
        0 <= k < to - from,
    ensures
        completion_menu::menu_lines(c, from, to, avail).len() == to - from,
        completion_menu::menu_lines(c, from, to, avail)[k] == completion_menu::menu_line(
            completion_menu::drawable(c.items[from + k]),
            from + k == c.selected,
            avail,
        ),
    decreases to - from,
{
    lemma_menu_len(c, from, to - 1, avail);
    if k < to - 1 - from {
        lemma_menu_lines(c, from, to - 1, avail, k);
    }
}

proof fn lemma_menu_len(c: CompletionView, from: int, to: int, avail: int)
    requires
        from <= to,
    ensures
        completion_menu::menu_lines(c, from, to, avail).len() == to - from,
    decreases to - from,
{
    if from < to {
        lemma_menu_len(c, from, to - 1, avail);
    }
}

/// The rows of the list show the candidates in their order, the selected one among them
/// and in a style of its own; a label that has room is shown whole.
pub proof fn law_candidates_are_shown(c: CompletionView, area: crate::layout::Rect, i: int)
    requires
        c.selected < c.items.len(),
        0 <= i < c.items.len(),
    ensures
        ({
            let n = c.items.len();
            let rows = completion_menu::menu_rows(n) as int;
            let start = completion_menu::menu_start(n as int, c.selected as int, rows);
            let ls = completion_menu::menu_text(c, area);
            let avail = completion_menu::menu_rect(area, n).width - 4;
            let it = completion_menu::drawable(c.items[i]);
            &&& ls.len() == rows
            &&& start <= c.selected < start + rows
            &&& start <= i < start + rows ==> {
                &&& ls[i - start].len() == 2
                &&& ls[i - start][0].style.bg is Some <==> i == c.selected
                &&& it.label.len() + it.hint.len() + 1 <= avail && it.hint.len() <= 30 ==> ls[i
                    - start][0].content == seq![' '] + it.label
            }
        }),
{
    let n = c.items.len();
    let rows = completion_menu::menu_rows(n) as int;
    let start = completion_menu::menu_start(n as int, c.selected as int, rows);
    let avail = completion_menu::menu_rect(area, n).width - 4;
    completion_menu::law_selection_is_shown(n, c.selected);
    lemma_menu_len(c, start, start + rows, avail);
    reveal_strlit(" ");
    assert(" "@ =~= seq![' ']);
    if start <= i < start + rows {
        lemma_menu_lines(c, start, start + rows, avail, i - start);
    }
}

} // verus!
