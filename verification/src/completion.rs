//! Completion of slash commands and of `@` references: what is being typed, the
//! candidates for it, and what taking one makes of the text.
use crate::editor;
use crate::scan;
use crate::text;
use vstd::prelude::*;

verus! {

// ----------------------------------------------------------------------- types

/// What a list shows for a candidate, what it puts in, and what explains it.
#[derive(Debug)]
pub struct CompletionItem {
    pub label: String,
    pub insert: String,
    pub hint: String,
}

/// What a candidate holds.
#[verifier::ext_equal]
pub struct ItemView {
    pub label: Seq<char>,
    pub insert: Seq<char>,
    pub hint: Seq<char>,
}

impl View for CompletionItem {
    type V = ItemView;

    open spec fn view(&self) -> ItemView {
        ItemView { label: self.label@, insert: self.insert@, hint: self.hint@ }
    }
}

/// The candidates of a list.
pub open spec fn item_views(v: Seq<CompletionItem>) -> Seq<ItemView> {
    v.map_values(|i: CompletionItem| i@)
}

/// What is completed.
#[derive(Clone, Copy, Debug, PartialEq, Eq, Structural)]
pub enum CompletionKind {
    Slash,
    At,
}

/// A list of candidates that is open.
#[derive(Debug)]
pub struct Completion {
    pub kind: CompletionKind,
    /// What was typed behind the `/` or the `@`.
    pub typed: String,
    /// The place of the word that is completed, its `/` or `@` in front.
    pub word_start: usize,
    pub items: Vec<CompletionItem>,
    pub selected: usize,
}

/// What a list of candidates holds.
#[verifier::ext_equal]
pub struct CompletionView {
    pub kind: CompletionKind,
    pub typed: Seq<char>,
    pub word_start: nat,
    pub items: Seq<ItemView>,
    pub selected: nat,
}

impl View for Completion {
    type V = CompletionView;

    open spec fn view(&self) -> CompletionView {
        CompletionView {
            kind: self.kind,
            typed: self.typed@,
            word_start: self.word_start as nat,
            items: item_views(self.items@),
            selected: self.selected as nat,
        }
    }
}

/// The list that is open, if one is.
pub open spec fn opt_view(o: Option<Completion>) -> Option<CompletionView> {
    match o {
        Some(c) => Some(c@),
        None => None,
    }
}

/// A skill that is installed.
#[derive(Debug)]
pub struct Skill {
    pub name: String,
    pub description: String,
    /// Where it comes from, as it is shown.
    pub source: String,
    /// Whether only the user may call it.
    pub manual: bool,
    /// Whether it has an entry script.
    pub entry: bool,
}

/// What a skill holds.
#[verifier::ext_equal]
pub struct SkillView {
    pub name: Seq<char>,
    pub description: Seq<char>,
    pub source: Seq<char>,
    pub manual: bool,
    pub entry: bool,
}

impl View for Skill {
    type V = SkillView;

    open spec fn view(&self) -> SkillView {
        SkillView {
            name: self.name@,
            description: self.description@,
            source: self.source@,
            manual: self.manual,
            entry: self.entry,
        }
    }
}

/// The skills of a list.
pub open spec fn skill_views(v: Seq<Skill>) -> Seq<SkillView> {
    v.map_values(|s: Skill| s@)
}

// ------------------------------------------------------------------- detection

/// Whether a character cannot stand in a bare reference.
pub open spec fn is_mark(c: char) -> bool {
    c == ',' || c == '。' || c == ';' || c == '」' || c == ')' || c == ']' || c == '}' || c == '：'
        || c == ':'
}

/// Whether a character parts two words.
pub open spec fn is_separator(c: char) -> bool {
    text::is_white(c) || is_mark(c)
}

fn char_is_separator(c: char) -> (r: bool)
    ensures
        r == is_separator(c),
{
    text::char_is_white(c) || c == ',' || c == '。' || c == ';' || c == '」' || c == ')' || c
        == ']' || c == '}' || c == '：' || c == ':'
}

/// Where the last word of a text begins.
pub open spec fn last_word(s: Seq<char>) -> int
    decreases s.len(),
{
    if s.len() == 0 {
        0
    } else if is_separator(s.last()) {
        s.len() as int
    } else {
        last_word(s.drop_last())
    }
}

/// Where the last line of a text begins.
pub open spec fn last_line(s: Seq<char>) -> int
    decreases s.len(),
{
    if s.len() == 0 {
        0
    } else if s.last() == '\n' {
        s.len() as int
    } else {
        last_line(s.drop_last())
    }
}

/// The last `@"` of a text at `from` or later that begins before `i`, if there is
/// one.
pub open spec fn last_quote(s: Seq<char>, from: int, i: int) -> Option<int>
    decreases i - from,
{
    if i <= from {
        None
    } else if i < s.len() && s[i - 1] == '@' && s[i] == '"' {
        Some(i - 1)
    } else {
        last_quote(s, from, i - 1)
    }
}

/// What is being completed at the cursor: its kind, the character that its word
/// begins with, and what was typed.
///
/// In the cursor's line, an `@"` that is not closed begins a reference in which
/// blanks may stand. Otherwise the word that begins last before the cursor counts, as
/// far as the cursor: it is a reference where it begins with `@`, and a command where
/// it begins with `/` and nothing but blanks stands before it.
pub open spec fn detected(s: Seq<char>, b: nat) -> Option<(CompletionKind, int, Seq<char>)> {
    let left = s.take(editor::begun(s, b));
    let from = last_line(left);
    let start = last_word(left);
    let word = left.skip(start);
    let plain = if word.len() > 0 && word[0] == '@' {
        Some((CompletionKind::At, start, word.skip(1)))
    } else if word.len() > 0 && word[0] == '/' && scan::trimmed(s.take(start)).len() == 0 {
        Some((CompletionKind::Slash, start, word.skip(1)))
    } else {
        None
    };
    if b == 0 {
        None
    } else {
        match last_quote(left, from, left.len() as int) {
            Some(q) => {
                let after = left.skip(q + 2);
                if after.len() > 0 && !after.contains('"') {
                    Some((CompletionKind::At, q, after))
                } else {
                    plain
                }
            },
            None => plain,
        }
    }
}

proof fn lemma_last_word(s: Seq<char>)
    ensures
        0 <= last_word(s) <= s.len(),
    decreases s.len(),
{
    if s.len() > 0 {
        lemma_last_word(s.drop_last());
    }
}

proof fn lemma_last_line(s: Seq<char>)
    ensures
        0 <= last_line(s) <= s.len(),
    decreases s.len(),
{
    if s.len() > 0 {
        lemma_last_line(s.drop_last());
    }
}

proof fn lemma_last_quote(s: Seq<char>, from: int, i: int)
    requires
        0 <= from,
        i <= s.len(),
    ensures
        match last_quote(s, from, i) {
            Some(q) => from <= q && q + 2 <= s.len() && s[q] == '@' && s[q + 1] == '"',
            None => true,
        },
    decreases i - from,
{
    if i > from {
        lemma_last_quote(s, from, i - 1);
    }
}

/// The word that is completed begins before the cursor.
pub proof fn lemma_detected(s: Seq<char>, b: nat)
    ensures
        match detected(s, b) {
            Some((_, start, _)) => 0 <= start <= editor::begun(s, b),
            None => true,
        },
{
    editor::lemma_begun_bound(s, b);
    let left = s.take(editor::begun(s, b));
    lemma_last_line(left);
    lemma_last_word(left);
    lemma_last_quote(left, last_line(left), left.len() as int);
}

fn find_last_line(v: &Vec<char>, n: usize) -> (r: usize)
    requires
        n <= v.len(),
    ensures
        r == last_line(v@.take(n as int)),
        r <= n,
{
    let mut i: usize = n;
    while i > 0
        invariant
            i <= n <= v.len(),
            last_line(v@.take(i as int)) == last_line(v@.take(n as int)),
        decreases i,
    {
        proof {
            assert(v@.take(i as int).drop_last() =~= v@.take(i - 1));
        }
        if v[i - 1] == '\n' {
            return i;
        }
        i -= 1;
    }
    0
}

fn find_last_word(v: &Vec<char>, n: usize) -> (r: usize)
    requires
        n <= v.len(),
    ensures
        r == last_word(v@.take(n as int)),
        r <= n,
{
    let mut i: usize = n;
    while i > 0
        invariant
            i <= n <= v.len(),
            last_word(v@.take(i as int)) == last_word(v@.take(n as int)),
        decreases i,
    {
        proof {
            assert(v@.take(i as int).drop_last() =~= v@.take(i - 1));
        }
        if char_is_separator(v[i - 1]) {
            return i;
        }
        i -= 1;
    }
    0
}

fn find_last_quote(v: &Vec<char>, n: usize, from: usize) -> (r: Option<usize>)
    requires
        from <= n <= v.len(),
    ensures
        match r {
            Some(q) => last_quote(v@.take(n as int), from as int, n as int) == Some(q as int),
            None => last_quote(v@.take(n as int), from as int, n as int) is None,
        },
{
    let ghost s = v@.take(n as int);
    let mut i: usize = n;
    while i > from
        invariant
            from <= i <= n <= v.len(),
            s == v@.take(n as int),
            last_quote(s, from as int, i as int) == last_quote(s, from as int, n as int),
        decreases i,
    {
        if i < n && v[i - 1] == '@' && v[i] == '"' {
            return Some(i - 1);
        }
        i -= 1;
    }
    None
}

fn has_quote(v: &Vec<char>, from: usize, to: usize) -> (r: bool)
    requires
        from <= to <= v.len(),
    ensures
        r == v@.subrange(from as int, to as int).contains('"'),
{
    let ghost t = v@.subrange(from as int, to as int);
    let mut i: usize = from;
    while i < to
        invariant
            from <= i <= to <= v.len(),
            t == v@.subrange(from as int, to as int),
            forall|j: int| 0 <= j < i - from ==> t[j] != '"',
        decreases to - i,
    {
        if v[i] == '"' {
            proof {
                assert(t[i - from] == '"');
            }
            return true;
        }
        i += 1;
    }
    false
}

/// What is being completed at the cursor: its kind, the place of its word, and what
/// was typed behind the word's first character.
pub fn completion_detect(input: &str, cursor: usize) -> (r: Option<
    (CompletionKind, usize, String),
>)
    requires
        editor::is_place(input@, cursor as nat),
    ensures
        match detected(input@, cursor as nat) {
            Some((kind, start, typed)) => match r {
                Some((k, at, t)) => k == kind && at == editor::place(input@, start) && t@ == typed,
                None => false,
            },
            None => r is None,
        },
        r matches Some((_, at, _)) ==> editor::is_place(input@, at as nat) && at <= cursor,
{
    if cursor == 0 {
        return None;
    }
    let ghost s = input@;
    let (k, _at) = editor::locate(input, cursor);
    let v = text::chars_of(input);
    let ghost left = s.take(k as int);
    let from: usize = find_last_line(&v, k);
    proof {
        lemma_last_quote(left, from as int, k as int);
    }
    if let Some(q) = find_last_quote(&v, k, from) {
        if q + 2 < k && !has_quote(&v, q + 2, k) {
            let t = text::string_of(&v, q + 2, k);
            proof {
                assert(left.skip(q + 2) =~= v@.subrange(q + 2, k as int));
                editor::lemma_begun_place(s, q as int);
                editor::lemma_places_grow(s, q as int, k as int);
            }
            return Some((CompletionKind::At, place_of(input, q), t));
        }
        proof {
            assert(left.skip(q + 2) =~= v@.subrange(q + 2, k as int));
        }
    }
    let start: usize = find_last_word(&v, k);
    if start >= k {
        return None;
    }
    let ghost word = left.skip(start as int);
    let c = v[start];
    proof {
        assert(word[0] == c);
        assert(word.skip(1) =~= v@.subrange(start + 1, k as int));
        editor::lemma_begun_place(s, start as int);
        editor::lemma_places_grow(s, start as int, k as int);
    }
    if c == '@' {
        let t = text::string_of(&v, start + 1, k);
        return Some((CompletionKind::At, place_of(input, start), t));
    }
    if c == '/' {
        let head = text::string_of(&v, 0, start);
        proof {
            assert(v@.subrange(0, start as int) =~= s.take(start as int));
        }
        let rest = scan::trim(head.as_str());
        if rest.as_str().is_empty() {
            let t = text::string_of(&v, start + 1, k);
            return Some((CompletionKind::Slash, place_of(input, start), t));
        }
    }
    None
}

fn place_of(input: &str, k: usize) -> (r: usize)
    requires
        k <= input@.len(),
    ensures
        r == editor::place(input@, k as int),
{
    let v = text::chars_of(input);
    let head = text::string_of(&v, 0, k);
    proof {
        assert(v@.subrange(0, k as int) =~= input@.take(k as int));
    }
    editor::length(head.as_str())
}

// ------------------------------------------------------------------ candidates

/// Whether a name begins with what was typed, whatever the case of the letters.
pub open spec fn begins_with(name: Seq<char>, typed: Seq<char>) -> bool {
    typed.len() <= name.len() && (forall|i: int|
        0 <= i < typed.len() ==> text::small_of(#[trigger] name[i]) == text::small_of(
            typed[i],
        ))
}

/// Whether a name begins with what was typed, whatever the case of the letters.
pub fn prefix_ci(name: &str, typed: &str) -> (r: bool)
    ensures
        r == begins_with(name@, typed@),
{
    let n = text::chars_of(name);
    let t = text::chars_of(typed);
    if t.len() > n.len() {
        return false;
    }
    let mut i: usize = 0;
    while i < t.len()
        invariant
            n@ == name@,
            t@ == typed@,
            i <= t.len() <= n.len(),
            forall|j: int|
                0 <= j < i ==> text::small_of(#[trigger] name@[j]) == text::small_of(typed@[j]),
        decreases t.len() - i,
    {
        if !text::same(text::small(n[i]).as_str(), text::small(t[i]).as_str()) {
            proof {
                assert(text::small_of(name@[i as int]) != text::small_of(typed@[i as int]));
            }
            return false;
        }
        i += 1;
    }
    true
}

/// How many commands are built in.
pub const BUILTIN_COUNT: usize = 10;

/// The commands that are built in, without their `/`, and what explains them.
pub open spec fn builtin_name(i: int) -> Seq<char> {
    if i == 0 {
        "help"@
    } else if i == 1 {
        "skills"@
    } else if i == 2 {
        "config"@
    } else if i == 3 {
        "undo"@
    } else if i == 4 {
        "resume"@
    } else if i == 5 {
        "clear"@
    } else if i == 6 {
        "compact"@
    } else if i == 7 {
        "update"@
    } else if i == 8 {
        "persona"@
    } else {
        "quit"@
    }
}

/// What explains a command that is built in.
pub open spec fn builtin_hint(i: int) -> Seq<char> {
    if i == 0 {
        "显示帮助"@
    } else if i == 1 {
        "已安装技能列表"@
    } else if i == 2 {
        "打开配置向导"@
    } else if i == 3 {
        "undo 快照/回滚(/undo <序号>)"@
    } else if i == 4 {
        "历史会话管理窗口(批量删/备注/恢复); /resume <片段> 直接恢复"@
    } else if i == 5 {
        "清空会话(确认后不可恢复)"@
    } else if i == 6 {
        "压缩上下文:旧对话 → 摘要,释放空间"@
    } else if i == 7 {
        "检查并更新到 GitHub 最新版本"@
    } else if i == 8 {
        "人格设置:列表/切换(/persona <名字>, /persona 无 关闭)"@
    } else {
        "退出本次会话(显示统计);/exit 同效"@
    }
}

fn builtin(i: usize) -> (r: (&'static str, &'static str))
    requires
        i < BUILTIN_COUNT,
    ensures
        r.0@ == builtin_name(i as int),
        r.1@ == builtin_hint(i as int),
{
    if i == 0 {
        ("help", "显示帮助")
    } else if i == 1 {
        ("skills", "已安装技能列表")
    } else if i == 2 {
        ("config", "打开配置向导")
    } else if i == 3 {
        ("undo", "undo 快照/回滚(/undo <序号>)")
    } else if i == 4 {
        (
            "resume",
            "历史会话管理窗口(批量删/备注/恢复); /resume <片段> 直接恢复",
        )
    } else if i == 5 {
        ("clear", "清空会话(确认后不可恢复)")
    } else if i == 6 {
        ("compact", "压缩上下文:旧对话 → 摘要,释放空间")
    } else if i == 7 {
        ("update", "检查并更新到 GitHub 最新版本")
    } else if i == 8 {
        (
            "persona",
            "人格设置:列表/切换(/persona <名字>, /persona 无 关闭)",
        )
    } else {
        ("quit", "退出本次会话(显示统计);/exit 同效")
    }
}

/// A candidate that puts in a command.
pub open spec fn command_item(name: Seq<char>, hint: Seq<char>) -> ItemView {
    ItemView { label: "/"@ + name, insert: "/"@ + name, hint }
}

/// The candidates among the first `n` commands that are built in.
pub open spec fn builtin_items(typed: Seq<char>, n: nat) -> Seq<ItemView>
    decreases n,
{
    if n == 0 {
        Seq::empty()
    } else {
        let r = builtin_items(typed, (n - 1) as nat);
        if begins_with(builtin_name(n - 1), typed) {
            r.push(command_item(builtin_name(n - 1), builtin_hint(n - 1)))
        } else {
            r
        }
    }
}

/// What marks a skill that only the user may call.
pub open spec fn manual_mark(manual: bool) -> Seq<char> {
    if manual {
        " [仅手动]"@
    } else {
        Seq::empty()
    }
}

/// The candidates among a list of skills.
pub open spec fn skill_items(skills: Seq<SkillView>, typed: Seq<char>) -> Seq<ItemView>
    decreases skills.len(),
{
    if skills.len() == 0 {
        Seq::empty()
    } else {
        let r = skill_items(skills.drop_last(), typed);
        let s = skills.last();
        if begins_with(s.name, typed) {
            r.push(command_item(s.name, "技能 · "@ + s.description + manual_mark(s.manual)))
        } else {
            r
        }
    }
}

/// Adds a candidate.
pub fn push_item(v: &mut Vec<CompletionItem>, label: String, insert: String, hint: String)
    ensures
        item_views(final(v)@) == item_views(old(v)@).push(
            (ItemView { label: label@, insert: insert@, hint: hint@ }),
        ),
{
    let it = CompletionItem { label, insert, hint };
    v.push(it);
    proof {
        assert(item_views(v@) =~= item_views(old(v)@).push(it@));
    }
}

/// What marks a skill that only the user may call.
pub fn mark_of(manual: bool) -> (r: String)
    ensures
        r@ == manual_mark(manual),
{
    if manual {
        text::copy(" [仅手动]")
    } else {
        String::new()
    }
}

/// The candidates for a command: those that are built in, then the skills.
pub fn slash_candidates(skills: &Vec<Skill>, typed: &str) -> (r: Vec<CompletionItem>)
    ensures
        item_views(r@) == builtin_items(typed@, BUILTIN_COUNT as nat) + skill_items(
            skill_views(skills@),
            typed@,
        ),
{
    let mut out: Vec<CompletionItem> = Vec::new();
    let mut i: usize = 0;
    proof {
        assert(item_views(out@) =~= Seq::<ItemView>::empty());
    }
    while i < BUILTIN_COUNT
        invariant
            i <= BUILTIN_COUNT,
            item_views(out@) == builtin_items(typed@, i as nat),
        decreases BUILTIN_COUNT - i,
    {
        let (name, hint) = builtin(i);
        if prefix_ci(name, typed) {
            push_item(&mut out, text::cat2("/", name), text::cat2("/", name), text::copy(hint));
        }
        i += 1;
    }
    let ghost built = item_views(out@);
    let ghost all = skill_views(skills@);
    let mut j: usize = 0;
    proof {
        assert(all.take(0) =~= Seq::<SkillView>::empty());
        assert(built + skill_items(all.take(0), typed@) =~= built);
    }
    while j < skills.len()
        invariant
            all == skill_views(skills@),
            j <= skills.len(),
            item_views(out@) == built + skill_items(all.take(j as int), typed@),
        decreases skills.len() - j,
    {
        let s = &skills[j];
        proof {
            assert(all.take(j + 1).drop_last() =~= all.take(j as int));
            assert(all.take(j + 1).last() == s@);
        }
        let ghost before = item_views(out@);
        if prefix_ci(s.name.as_str(), typed) {
            let name = s.name.as_str();
            let hint = text::cat3("技能 · ", s.description.as_str(), mark_of(s.manual).as_str());
            push_item(&mut out, text::cat2("/", name), text::cat2("/", name), hint);
            proof {
                assert(item_views(out@) =~= built + skill_items(all.take(j + 1), typed@));
            }
        }
        j += 1;
    }
    proof {
        assert(all.take(j as int) =~= all);
    }
    out
}

/// Whether a path has to stand in quotes.
pub open spec fn needs_quotes(name: Seq<char>) -> bool {
    exists|i: int| 0 <= i < name.len() && is_separator(#[trigger] name[i])
}

/// A path as a reference holds it.
pub open spec fn quoted(name: Seq<char>) -> Seq<char> {
    if needs_quotes(name) {
        "\""@ + name + "\""@
    } else {
        name
    }
}

/// A path as a reference holds it: in quotes where a character would end it.
pub fn quote_at_path(name: &str) -> (r: String)
    ensures
        r@ == quoted(name@),
{
    let v = text::chars_of(name);
    let mut i: usize = 0;
    while i < v.len()
        invariant
            v@ == name@,
            i <= v.len(),
            forall|j: int| 0 <= j < i ==> !is_separator(#[trigger] name@[j]),
        decreases v.len() - i,
    {
        if char_is_separator(v[i]) {
            proof {
                assert(is_separator(name@[i as int]));
            }
            return text::cat3("\"", name, "\"");
        }
        i += 1;
    }
    text::copy(name)
}

// ----------------------------------------------------------------- directories

/// How much of a path is its directory: all up to its last `/`.
pub open spec fn dir_len(s: Seq<char>) -> int
    decreases s.len(),
{
    if s.len() == 0 {
        0
    } else if s.last() == '/' {
        s.len() as int
    } else {
        dir_len(s.drop_last())
    }
}

/// The directory of a path, its last `/` at the end, and the name behind it.
pub fn split_path(typed: &str) -> (r: (String, String))
    ensures
        r.0@ == typed@.take(dir_len(typed@)),
        r.1@ == typed@.skip(dir_len(typed@)),
{
    let v = text::chars_of(typed);
    let n: usize = v.len();
    let mut i: usize = n;
    proof {
        assert(typed@.take(n as int) =~= typed@);
    }
    while i > 0 && v[i - 1] != '/'
        invariant
            v@ == typed@,
            n == v.len(),
            i <= n,
            dir_len(typed@.take(i as int)) == dir_len(typed@),
        decreases i,
    {
        proof {
            assert(typed@.take(i as int).drop_last() =~= typed@.take(i - 1));
        }
        i -= 1;
    }
    proof {
        assert(v@.subrange(0, i as int) =~= typed@.take(i as int));
        assert(v@.subrange(i as int, n as int) =~= typed@.skip(i as int));
    }
    (text::string_of(&v, 0, i), text::string_of(&v, i, n))
}

/// Where a reference is looked up.
#[derive(Debug)]
pub enum Lookup {
    /// The directory that the program runs in.
    Here,
    /// A path below the user's own directory.
    Home(String),
    /// A path, below the directory that the program runs in unless it is absolute.
    Path(String),
}

/// Where a reference is looked up.
pub enum LookupView {
    Here,
    Home(Seq<char>),
    Path(Seq<char>),
}

impl View for Lookup {
    type V = LookupView;

    open spec fn view(&self) -> LookupView {
        match self {
            Lookup::Here => LookupView::Here,
            Lookup::Home(p) => LookupView::Home(p@),
            Lookup::Path(p) => LookupView::Path(p@),
        }
    }
}

/// Where a reference is looked up.
pub open spec fn lookup(typed: Seq<char>) -> LookupView {
    let dir = typed.take(dir_len(typed));
    if dir.len() == 0 {
        LookupView::Here
    } else if dir.len() >= 2 && dir[0] == '~' && dir[1] == '/' {
        LookupView::Home(dir.skip(2))
    } else {
        LookupView::Path(dir)
    }
}

/// Where a reference is looked up.
pub fn at_directory(typed: &str) -> (r: Lookup)
    ensures
        r@ == lookup(typed@),
{
    let (dir, _base) = split_path(typed);
    let v = text::chars_of(dir.as_str());
    if v.len() == 0 {
        return Lookup::Here;
    }
    if v.len() >= 2 && v[0] == '~' && v[1] == '/' {
        let rest = text::string_of(&v, 2, v.len());
        proof {
            assert(v@.subrange(2, v@.len() as int) =~= dir@.skip(2));
        }
        return Lookup::Home(rest);
    }
    Lookup::Path(dir)
}

/// How many candidates a directory gives at most.
pub const AT_LIMIT: usize = 200;

/// Whether an entry of a directory is a candidate: its name can stand in quotes, it
/// is not hidden unless a hidden one is asked for, and it begins with what was typed.
pub open spec fn is_candidate(name: Seq<char>, base: Seq<char>) -> bool {
    &&& !name.contains('"')
    &&& (name.len() > 0 && name[0] == '.') ==> (base.len() > 0 && base[0] == '.')
    &&& begins_with(name, base)
}

/// The candidate for an entry of a directory.
pub open spec fn entry_item(dir: Seq<char>, name: Seq<char>, is_dir: bool) -> ItemView {
    let full = if is_dir {
        dir + name + "/"@
    } else {
        dir + name
    };
    ItemView {
        label: full,
        insert: quoted(full),
        hint: if is_dir {
            "目录"@
        } else {
            "文件"@
        },
    }
}

/// The candidates among the entries of a directory, in their order.
pub open spec fn entry_items(entries: Seq<(Seq<char>, bool)>, typed: Seq<char>) -> Seq<ItemView>
    decreases entries.len(),
{
    if entries.len() == 0 {
        Seq::empty()
    } else {
        let r = entry_items(entries.drop_last(), typed);
        let e = entries.last();
        if is_candidate(e.0, typed.skip(dir_len(typed))) {
            r.push(entry_item(typed.take(dir_len(typed)), e.0, e.1))
        } else {
            r
        }
    }
}

/// Whether a text stands before another: by the first character in which they
/// differ, and a text before those that it begins.
pub open spec fn comes_before(a: Seq<char>, b: Seq<char>) -> bool
    decreases a.len(),
{
    if b.len() == 0 {
        false
    } else if a.len() == 0 {
        true
    } else if a[0] != b[0] {
        a[0] < b[0]
    } else {
        comes_before(a.skip(1), b.skip(1))
    }
}

/// A list with one more candidate, behind all that do not come after it.
pub open spec fn with_item(v: Seq<ItemView>, it: ItemView) -> Seq<ItemView>
    decreases v.len(),
{
    if v.len() == 0 || !comes_before(it.label, v.last().label) {
        v.push(it)
    } else {
        with_item(v.drop_last(), it).push(v.last())
    }
}

/// A list in the order of its labels; equal ones keep their order.
pub open spec fn sorted(v: Seq<ItemView>) -> Seq<ItemView>
    decreases v.len(),
{
    if v.len() == 0 {
        Seq::empty()
    } else {
        with_item(sorted(v.drop_last()), v.last())
    }
}

/// The first candidates of a list.
pub open spec fn limited(v: Seq<ItemView>, n: nat) -> Seq<ItemView> {
    if v.len() > n {
        v.take(n as int)
    } else {
        v
    }
}

/// The names of entries, and whether each is a directory.
pub open spec fn entry_views(v: Seq<(String, bool)>) -> Seq<(Seq<char>, bool)> {
    v.map_values(|e: (String, bool)| (e.0@, e.1))
}

proof fn lemma_comes_before_skip(a: Seq<char>, b: Seq<char>, i: int)
    requires
        0 <= i < a.len(),
        i < b.len(),
        a[i] == b[i],
    ensures
        comes_before(a.skip(i), b.skip(i)) == comes_before(a.skip(i + 1), b.skip(i + 1)),
{
    assert(a.skip(i).skip(1) =~= a.skip(i + 1));
    assert(b.skip(i).skip(1) =~= b.skip(i + 1));
}

fn stands_before(x: &str, y: &str) -> (r: bool)
    ensures
        r == comes_before(x@, y@),
{
    let a = text::chars_of(x);
    let b = text::chars_of(y);
    let mut i: usize = 0;
    proof {
        assert(a@.skip(0) =~= a@);
        assert(b@.skip(0) =~= b@);
    }
    while i < a.len() && i < b.len() && a[i] == b[i]
        invariant
            a@ == x@,
            b@ == y@,
            i <= a.len(),
            i <= b.len(),
            comes_before(a@.skip(i as int), b@.skip(i as int)) == comes_before(x@, y@),
        decreases a.len() - i,
    {
        proof {
            lemma_comes_before_skip(a@, b@, i as int);
        }
        i += 1;
    }
    if i >= b.len() {
        return false;
    }
    if i >= a.len() {
        return true;
    }
    proof {
        assert(a@.skip(i as int)[0] == a@[i as int]);
        assert(b@.skip(i as int)[0] == b@[i as int]);
    }
    a[i] < b[i]
}

proof fn lemma_with_item(v: Seq<ItemView>, it: ItemView, k: int)
    requires
        0 <= k <= v.len(),
        forall|j: int| k <= j < v.len() ==> comes_before(it.label, #[trigger] v[j].label),
        k > 0 ==> !comes_before(it.label, v[k - 1].label),
    ensures
        with_item(v, it) == v.take(k).push(it) + v.skip(k),
    decreases v.len(),
{
    if k == v.len() {
        assert(v.take(k).push(it) + v.skip(k) =~= v.push(it));
    } else {
        let t = v.drop_last();
        assert forall|j: int| k <= j < t.len() implies comes_before(
            it.label,
            #[trigger] t[j].label,
        ) by {
            assert(t[j] == v[j]);
        }
        lemma_with_item(t, it, k);
        assert(comes_before(it.label, v[v.len() - 1].label));
        assert(v.take(k).push(it) + v.skip(k) =~= (t.take(k).push(it) + t.skip(k)).push(v.last()));
    }
}

fn add_sorted(v: &mut Vec<CompletionItem>, it: CompletionItem)
    ensures
        item_views(final(v)@) == with_item(item_views(old(v)@), it@),
{
    let ghost vs = item_views(old(v)@);
    let mut k: usize = v.len();
    while k > 0 && stands_before(it.label.as_str(), v[k - 1].label.as_str())
        invariant
            v@ == old(v)@,
            vs == item_views(v@),
            k <= v.len(),
            forall|j: int| k <= j < vs.len() ==> comes_before(it@.label, #[trigger] vs[j].label),
        decreases k,
    {
        k -= 1;
    }
    let ghost iv = it@;
    proof {
        lemma_with_item(vs, iv, k as int);
    }
    v.insert(k, it);
    proof {
        assert(item_views(v@) =~= vs.take(k as int).push(iv) + vs.skip(k as int));
    }
}

fn check_candidate(name: &str, base: &str) -> (r: bool)
    ensures
        r == is_candidate(name@, base@),
{
    if scan::has_char(name, '"') {
        return false;
    }
    let n = text::chars_of(name);
    let b = text::chars_of(base);
    if n.len() > 0 && n[0] == '.' && !(b.len() > 0 && b[0] == '.') {
        return false;
    }
    prefix_ci(name, base)
}

/// The candidates for a reference among the entries of its directory, each with
/// whether it is a directory itself: in order, and not more than [`AT_LIMIT`].
pub fn at_candidates(entries: &Vec<(String, bool)>, typed: &str) -> (r: Vec<CompletionItem>)
    ensures
        item_views(r@) == limited(
            sorted(entry_items(entry_views(entries@), typed@)),
            AT_LIMIT as nat,
        ),
{
    let (dir, base) = split_path(typed);
    let ghost all = entry_views(entries@);
    let mut out: Vec<CompletionItem> = Vec::new();
    let mut i: usize = 0;
    proof {
        assert(item_views(out@) =~= Seq::<ItemView>::empty());
        assert(all.take(0) =~= Seq::<(Seq<char>, bool)>::empty());
    }
    while i < entries.len()
        invariant
            all == entry_views(entries@),
            dir@ == typed@.take(dir_len(typed@)),
            base@ == typed@.skip(dir_len(typed@)),
            i <= entries.len(),
            item_views(out@) == sorted(entry_items(all.take(i as int), typed@)),
        decreases entries.len() - i,
    {
        let e = &entries[i];
        proof {
            assert(all.take(i + 1).drop_last() =~= all.take(i as int));
            assert(all.take(i + 1).last() == (e.0@, e.1));
        }
        if check_candidate(e.0.as_str(), base.as_str()) {
            let full = if e.1 {
                text::cat3(dir.as_str(), e.0.as_str(), "/")
            } else {
                text::cat2(dir.as_str(), e.0.as_str())
            };
            let hint = if e.1 {
                text::copy("目录")
            } else {
                text::copy("文件")
            };
            let insert = quote_at_path(full.as_str());
            let it = CompletionItem { label: full, insert, hint };
            let ghost was = entry_items(all.take(i as int), typed@);
            proof {
                let now = entry_items(all.take(i + 1), typed@);
                assert(now == was.push(it@));
                assert(now.drop_last() =~= was);
            }
            add_sorted(&mut out, it);
        }
        i += 1;
    }
    proof {
        assert(all.take(i as int) =~= all);
        assert(item_views(out@).len() == out@.len());
    }
    let ghost full = item_views(out@);
    while out.len() > AT_LIMIT
        invariant
            full.len() >= out@.len(),
            out@.len() >= AT_LIMIT || out@.len() == full.len(),
            item_views(out@) == full.take(out@.len() as int),
        decreases out.len(),
    {
        out.pop();
        proof {
            assert(item_views(out@) =~= full.take(out@.len() as int));
        }
    }
    proof {
        assert(full.take(full.len() as int) =~= full);
    }
    out
}

// ------------------------------------------------------------------------ laws

/// Whether a list is in the order of its labels.
pub open spec fn in_order(v: Seq<ItemView>) -> bool {
    forall|i: int, j: int|
        0 <= i < j < v.len() ==> !comes_before(#[trigger] v[j].label, #[trigger] v[i].label)
}

proof fn lemma_order_antisymmetric(a: Seq<char>, b: Seq<char>)
    requires
        comes_before(a, b),
    ensures
        !comes_before(b, a),
    decreases a.len(),
{
    if a.len() > 0 && a[0] == b[0] {
        lemma_order_antisymmetric(a.skip(1), b.skip(1));
    }
}

proof fn lemma_order_transitive(a: Seq<char>, b: Seq<char>, c: Seq<char>)
    requires
        !comes_before(b, a),
        !comes_before(c, b),
    ensures
        !comes_before(c, a),
    decreases a.len(),
{
    if a.len() > 0 && b.len() > 0 && c.len() > 0 && a[0] == c[0] && a[0] == b[0] {
        lemma_order_transitive(a.skip(1), b.skip(1), c.skip(1));
    }
}

proof fn lemma_with_item_holds(v: Seq<ItemView>, it: ItemView)
    ensures
        with_item(v, it).to_multiset() == v.to_multiset().insert(it),
    decreases v.len(),
{
    broadcast use vstd::seq_lib::group_to_multiset_ensures;

    if v.len() == 0 || !comes_before(it.label, v.last().label) {
    } else {
        let t = v.drop_last();
        lemma_with_item_holds(t, it);
        assert(t.push(v.last()) =~= v);
        assert(with_item(v, it).to_multiset() =~= v.to_multiset().insert(it));
    }
}

proof fn lemma_with_item_in_order(v: Seq<ItemView>, it: ItemView)
    requires
        in_order(v),
    ensures
        in_order(with_item(v, it)),
    decreases v.len(),
{
    let w = with_item(v, it);
    if v.len() == 0 || !comes_before(it.label, v.last().label) {
        assert forall|i: int, j: int| 0 <= i < j < w.len() implies !comes_before(
            #[trigger] w[j].label,
            #[trigger] w[i].label,
        ) by {
            if j == v.len() {
                assert(w[i] == v[i]);
                if i < v.len() - 1 {
                    assert(!comes_before(v[v.len() - 1].label, v[i].label));
                }
                if i == v.len() - 1 {
                } else {
                    lemma_order_transitive(v[i].label, v.last().label, it.label);
                }
            } else {
                assert(w[i] == v[i] && w[j] == v[j]);
            }
        }
    } else {
        let t = v.drop_last();
        assert(in_order(t));
        lemma_with_item_in_order(t, it);
        let u = with_item(t, it);
        lemma_with_item_from(t, it);
        assert forall|i: int, j: int| 0 <= i < j < w.len() implies !comes_before(
            #[trigger] w[j].label,
            #[trigger] w[i].label,
        ) by {
            assert(w[i] == u[i]);
            if j < u.len() {
                assert(w[j] == u[j]);
            } else {
                assert(u.contains(u[i]));
                if u[i] == it {
                    lemma_order_antisymmetric(it.label, v.last().label);
                } else {
                    let k = choose|k: int| 0 <= k < t.len() && t[k] == u[i];
                    assert(v[k] == u[i]);
                    assert(!comes_before(v[v.len() - 1].label, v[k].label));
                }
            }
        }
    }
}

proof fn lemma_with_item_from(v: Seq<ItemView>, it: ItemView)
    ensures
        with_item(v, it).len() == v.len() + 1,
        forall|x: ItemView| #[trigger]
            with_item(v, it).contains(x) ==> x == it || v.contains(x),
    decreases v.len(),
{
    let w = with_item(v, it);
    if v.len() == 0 || !comes_before(it.label, v.last().label) {
        assert forall|x: ItemView| #[trigger] w.contains(x) implies x == it || v.contains(x) by {
            let k = choose|k: int| 0 <= k < w.len() && w[k] == x;
            if k < v.len() {
                assert(v[k] == x);
            }
        }
    } else {
        let t = v.drop_last();
        lemma_with_item_from(t, it);
        let u = with_item(t, it);
        assert forall|x: ItemView| #[trigger] w.contains(x) implies x == it || v.contains(x) by {
            let k = choose|k: int| 0 <= k < w.len() && w[k] == x;
            if k < u.len() {
                assert(u[k] == x);
                assert(u.contains(x));
                if x != it {
                    let m = choose|m: int| 0 <= m < t.len() && t[m] == x;
                    assert(v[m] == x);
                }
            } else {
                assert(v[v.len() - 1] == x);
            }
        }
    }
}

/// The candidates of a directory come in the order of their labels, and none is
/// lost or added by that.
pub proof fn law_candidates_are_sorted(v: Seq<ItemView>)
    ensures
        in_order(sorted(v)),
        sorted(v).to_multiset() == v.to_multiset(),
    decreases v.len(),
{
    broadcast use vstd::seq_lib::group_to_multiset_ensures;

    if v.len() > 0 {
        let t = v.drop_last();
        law_candidates_are_sorted(t);
        lemma_with_item_in_order(sorted(t), v.last());
        lemma_with_item_holds(sorted(t), v.last());
        assert(t.push(v.last()) =~= v);
    } else {
        assert(sorted(v) =~= v);
    }
}

/// Every candidate for a command begins with what was typed, whatever the case.
pub proof fn law_commands_begin_with_typed(skills: Seq<SkillView>, typed: Seq<char>, i: int)
    requires
        0 <= i < (builtin_items(typed, BUILTIN_COUNT as nat) + skill_items(skills, typed)).len(),
    ensures
        ({
            let it = (builtin_items(typed, BUILTIN_COUNT as nat) + skill_items(skills, typed))[i];
            &&& it.insert == it.label
            &&& exists|name: Seq<char>| #[trigger]
                begins_with(name, typed) && it.label == "/"@ + name
        }),
{
    let b = builtin_items(typed, BUILTIN_COUNT as nat);
    if i < b.len() {
        lemma_builtin_item(typed, BUILTIN_COUNT as nat, i);
    } else {
        lemma_skill_item(skills, typed, i - b.len());
    }
}

proof fn lemma_builtin_item(typed: Seq<char>, n: nat, i: int)
    requires
        0 <= i < builtin_items(typed, n).len(),
    ensures
        ({
            let it = builtin_items(typed, n)[i];
            &&& it.insert == it.label
            &&& exists|name: Seq<char>| #[trigger]
                begins_with(name, typed) && it.label == "/"@ + name
        }),
    decreases n,
{
    if n > 0 {
        let r = builtin_items(typed, (n - 1) as nat);
        if i < r.len() {
            lemma_builtin_item(typed, (n - 1) as nat, i);
        } else {
            assert(begins_with(builtin_name(n - 1), typed));
        }
    }
}

proof fn lemma_skill_item(skills: Seq<SkillView>, typed: Seq<char>, i: int)
    requires
        0 <= i < skill_items(skills, typed).len(),
    ensures
        ({
            let it = skill_items(skills, typed)[i];
            &&& it.insert == it.label
            &&& exists|name: Seq<char>| #[trigger]
                begins_with(name, typed) && it.label == "/"@ + name
        }),
    decreases skills.len(),
{
    if skills.len() > 0 {
        let r = skill_items(skills.drop_last(), typed);
        if i < r.len() {
            lemma_skill_item(skills.drop_last(), typed, i);
        } else {
            assert(begins_with(skills.last().name, typed));
        }
    }
}

} // verus!
