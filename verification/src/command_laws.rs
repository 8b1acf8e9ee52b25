//! What is found by what is typed behind a command.

use crate::command;
use crate::command::{ActView, CommandView, SnapshotView};
use crate::completion::SkillView;
use crate::messages::MsgView;
use crate::scan;
use crate::text;
use crate::text_laws;
use vstd::prelude::*;

verus! {

// -------------------------------------------------------------- what a line asks for

/// A text that is not empty and holds no white space.
pub open spec fn is_word(w: Seq<char>) -> bool {
    w.len() > 0 && forall|i: int| 0 <= i < w.len() ==> !text::is_white(#[trigger] w[i])
}

/// The words with which commands are called that are built in.
pub open spec fn built_in(w: Seq<char>) -> bool {
    w == "/help"@ || w == "/clear"@ || w == "/skills"@ || w == "/undo"@ || w == "/resume"@ || w
        == "/compact"@ || w == "/quit"@ || w == "/exit"@ || w == "/update"@ || w == "/persona"@
}

proof fn lemma_first(a: Seq<char>, w: Seq<char>, c: char, rest: Seq<char>)
    requires
        text_laws::blank(a),
        is_word(w),
        text::is_white(c),
    ensures
        scan::words(a + w) == seq![w],
        scan::words(a + w.push(c) + rest) == seq![w] + scan::words(rest),
        scan::words(a + w.push(c) + rest)[0] == w,
        is_word(rest) ==> scan::words(a + w.push(c) + rest) == seq![w, rest],
{
    text_laws::law_first_word(a, w, c, rest);
    text_laws::law_one_word(rest);
    assert(seq![w] + seq![rest] =~= seq![w, rest]);
}

/// A command that is built in is called by its name, white space in front of it aside.
pub proof fn law_commands_are_called_by_name(a: Seq<char>, w: Seq<char>)
    requires
        text_laws::blank(a),
        is_word(w),
    ensures
        w == "/help"@ ==> command::command_of(a + w) == CommandView::Help,
        w == "/clear"@ ==> command::command_of(a + w) == CommandView::Clear,
        w == "/skills"@ ==> command::command_of(a + w) == CommandView::Skills,
        w == "/undo"@ ==> command::command_of(a + w) == CommandView::UndoList,
        w == "/resume"@ ==> command::command_of(a + w) == CommandView::OpenSessions,
        w == "/compact"@ ==> command::command_of(a + w) == CommandView::Compact,
        w == "/quit"@ || w == "/exit"@ ==> command::command_of(a + w) == CommandView::Quit,
        w == "/update"@ ==> command::command_of(a + w) == CommandView::Update,
        w == "/persona"@ ==> command::command_of(a + w) == CommandView::Persona(None),
{
    lemma_first(a, w, ' ', Seq::empty());
    lemma_names_differ();
}

proof fn lemma_names_differ()
    ensures
        "/help"@ != "/clear"@ && "/help"@ != "/skills"@ && "/clear"@ != "/skills"@,
        "/undo"@ != "/help"@ && "/undo"@ != "/clear"@ && "/undo"@ != "/skills"@,
        "/resume"@ != "/help"@ && "/resume"@ != "/clear"@ && "/resume"@ != "/skills"@
            && "/resume"@ != "/undo"@,
        "/compact"@ != "/help"@ && "/compact"@ != "/clear"@ && "/compact"@ != "/skills"@
            && "/compact"@ != "/undo"@ && "/compact"@ != "/resume"@,
        "/quit"@ != "/help"@ && "/quit"@ != "/clear"@ && "/quit"@ != "/skills"@ && "/quit"@
            != "/undo"@ && "/quit"@ != "/resume"@ && "/quit"@ != "/compact"@,
        "/exit"@ != "/help"@ && "/exit"@ != "/clear"@ && "/exit"@ != "/skills"@ && "/exit"@
            != "/undo"@ && "/exit"@ != "/resume"@ && "/exit"@ != "/compact"@,
        "/update"@ != "/help"@ && "/update"@ != "/clear"@ && "/update"@ != "/skills"@
            && "/update"@ != "/undo"@ && "/update"@ != "/resume"@ && "/update"@ != "/compact"@
            && "/update"@ != "/quit"@ && "/update"@ != "/exit"@,
        "/persona"@ != "/help"@ && "/persona"@ != "/clear"@ && "/persona"@ != "/skills"@
            && "/persona"@ != "/undo"@ && "/persona"@ != "/resume"@ && "/persona"@ != "/compact"@
            && "/persona"@ != "/quit"@ && "/persona"@ != "/exit"@ && "/persona"@ != "/update"@,
{
    reveal_strlit("/help");
    reveal_strlit("/clear");
    reveal_strlit("/skills");
    reveal_strlit("/undo");
    reveal_strlit("/resume");
    reveal_strlit("/compact");
    reveal_strlit("/quit");
    reveal_strlit("/exit");
    reveal_strlit("/update");
    reveal_strlit("/persona");
    assert("/help"@[1] == 'h' && "/clear"@[1] == 'c' && "/skills"@[1] == 's');
    assert("/undo"@[1] == 'u' && "/resume"@[1] == 'r' && "/compact"@[1] == 'c');
    assert("/compact"@[2] == 'o' && "/clear"@[2] == 'l');
    assert("/quit"@[1] == 'q' && "/exit"@[1] == 'e' && "/update"@[1] == 'u');
    assert("/update"@[2] == 'p' && "/undo"@[2] == 'n' && "/persona"@[1] == 'p');
}

proof fn lemma_names_are_words()
    ensures
        is_word("/undo"@),
        is_word("/resume"@),
        is_word("/persona"@),
        is_word("del"@),
{
    reveal_strlit("/undo");
    reveal_strlit("/resume");
    reveal_strlit("/persona");
    reveal_strlit("del");
}

/// `/undo` with the digits of a number takes that change back; with anything else it
/// says how it is used.
pub proof fn law_undo_takes_a_number(a: Seq<char>, c: char, n: usize, w: Seq<char>)
    requires
        text_laws::blank(a),
        text::is_white(c),
        is_word(w),
    ensures
        command::command_of(a + "/undo"@.push(c) + text::decimal(n as nat))
            == CommandView::UndoAt(n as nat),
        text::parse_number(w, usize::MAX as nat) is None ==> command::command_of(
            a + "/undo"@.push(c) + w,
        ) == CommandView::UndoUsage,
{
    let d = text::decimal(n as nat);
    lemma_names_are_words();
    lemma_names_differ();
    text_laws::law_numbers_are_read_back(n as nat, usize::MAX as nat);
    text_laws::lemma_decimal_digits(n as nat);
    assert forall|i: int| 0 <= i < d.len() implies !text::is_white(#[trigger] d[i]) by {
        assert(text::is_digit(d[i]));
        text_laws::law_white_space(d[i]);
    }
    lemma_first(a, "/undo"@, c, d);
    lemma_first(a, "/undo"@, c, w);
}

/// `/resume` with a word loads the session that is meant by it, and with `del` in front
/// of the word deletes it; with `del` alone none is meant.
pub proof fn law_resume_takes_a_target(a: Seq<char>, c: char, d: char, w: Seq<char>)
    requires
        text_laws::blank(a),
        text::is_white(c),
        text::is_white(d),
        is_word(w),
    ensures
        w != "del"@ ==> command::command_of(a + "/resume"@.push(c) + w) == (CommandView::Resume {
            del: false,
            target: Some(w),
        }),
        command::command_of(a + "/resume"@.push(c) + ("del"@.push(d) + w)) == (
        CommandView::Resume { del: true, target: Some(w) }),
        command::command_of(a + "/resume"@.push(c) + "del"@) == (CommandView::Resume {
            del: true,
            target: None,
        }),
{
    let e = Seq::<char>::empty();
    lemma_names_are_words();
    lemma_names_differ();
    lemma_first(a, "/resume"@, c, w);
    lemma_first(a, "/resume"@, c, "del"@);
    lemma_first(a, "/resume"@, c, "del"@.push(d) + w);
    lemma_first(e, "del"@, d, w);
    assert(e + "del"@.push(d) + w =~= "del"@.push(d) + w);
    let v = scan::words(a + "/resume"@.push(c) + ("del"@.push(d) + w));
    assert(v =~= seq!["/resume"@, "del"@, w]);
}

/// `/persona` with a name asks for that persona.
pub proof fn law_persona_takes_a_name(a: Seq<char>, c: char, w: Seq<char>)
    requires
        text_laws::blank(a),
        text::is_white(c),
        is_word(w),
    ensures
        command::command_of(a + "/persona"@.push(c) + w) == CommandView::Persona(Some(w)),
{
    lemma_names_are_words();
    lemma_names_differ();
    lemma_first(a, "/persona"@, c, w);
}

/// Every other word calls the skill of that name, without the slash in front; what
/// stands behind it are the arguments, with one blank between two words.
pub proof fn law_other_words_call_skills(
    a: Seq<char>,
    name: Seq<char>,
    c: char,
    x: Seq<char>,
    d: char,
    y: Seq<char>,
)
    requires
        text_laws::blank(a),
        is_word(name),
        name[0] != '/',
        !built_in(seq!['/'] + name),
        text::is_white(c),
        text::is_white(d),
        is_word(x),
        is_word(y),
    ensures
        ({
            let w = seq!['/'] + name;
            let e = Seq::<char>::empty();
            &&& command::command_of(a + w) == (CommandView::Skill { word: w, name, args: e })
            &&& command::command_of(a + w.push(c) + x) == (CommandView::Skill {
                word: w,
                name,
                args: x,
            })
            &&& command::command_of(a + w.push(c) + (x.push(d) + y)) == (CommandView::Skill {
                word: w,
                name,
                args: x + seq![' '] + y,
            })
        }),
{
    let w = seq!['/'] + name;
    let e = Seq::<char>::empty();
    assert forall|i: int| 0 <= i < w.len() implies !text::is_white(#[trigger] w[i]) by {
        if i > 0 {
            assert(w[i] == name[i - 1]);
        }
    }
    assert(is_word(w));
    assert(w.skip(1) =~= name);
    reveal_with_fuel(command::without_slashes, 2);
    lemma_first(a, w, c, x);
    lemma_first(a, w, c, x.push(d) + y);
    lemma_first(e, x, d, y);
    assert(e + x.push(d) + y =~= x.push(d) + y);
    let v = scan::words(a + w.push(c) + (x.push(d) + y));
    assert(v =~= seq![w, x, y]);
    assert(v.skip(1) =~= seq![x, y]);
    assert(seq![x, y].drop_last() =~= seq![x]);
    reveal_with_fuel(scan::join_with, 2);
    reveal_strlit(" ");
    assert(" "@ =~= seq![' ']);
    assert(seq![w].skip(1) =~= Seq::<Seq<char>>::empty());
    assert(seq![w, x].skip(1) =~= seq![x]);
}

// ----------------------------------------------------------------------- answers

/// What each command sets off. Nothing but `/quit` ends the program, nothing but
/// `/clear` asks whether to clear, and what has to be looked up is asked for unchanged.
pub proof fn law_commands_are_carried_out(c: CommandView)
    ensures
        command::answer_of(c).act == (match c {
            CommandView::Clear => ActView::ConfirmClear,
            CommandView::OpenSessions => ActView::OpenSessions,
            CommandView::Compact => ActView::Compact,
            CommandView::Quit => ActView::Quit,
            CommandView::Update => ActView::CheckUpdate,
            CommandView::Help => ActView::Idle,
            CommandView::UndoUsage => ActView::Idle,
            _ => ActView::Ask(c),
        }),
        c is Help ==> command::answer_of(c).items == seq![
            MsgView::CommandOutput(command::HELP_TEXT@),
        ],
{
}

/// A session that was found is deleted or loaded, as was asked; where none was found,
/// nothing is done, and the answer says for what.
pub proof fn law_resume_does_what_was_asked(
    del: bool,
    t: Seq<char>,
    paths: Seq<Seq<char>>,
)
    ensures
        ({
            let r = command::resume_answer(del, Some(t), paths);
            &&& paths.len() > 0 ==> match command::matched(paths, t) {
                Some(p) => r.act == (if del {
                    ActView::Delete(p)
                } else {
                    ActView::Load(p)
                }),
                None => r.act == ActView::Idle && r.items.len() == 1 && r.items[0]
                    is CommandOutput && scan::occurs(r.items[0]->CommandOutput_0, t),
            }
            &&& paths.len() == 0 ==> r.act == ActView::Idle
        }),
        command::resume_answer(del, None, paths).act == ActView::Idle,
{
    text_laws::law_parts_occur("未找到匹配「"@, t, "」的历史会话"@);
}

/// A persona that there is, or none at all, is switched to; a name that there is not
/// does nothing but say so, with every name that there is.
pub proof fn law_personas_are_switched(t: Seq<char>, avail: Seq<Seq<char>>, current: Seq<char>)
    ensures
        ({
            let r = command::persona_answer(Some(t), avail, current);
            &&& avail.contains(t) || t == "无"@ ==> r.act == ActView::SetPersona(t)
            &&& !avail.contains(t) && t != "无"@ ==> r.act == ActView::Idle && r.items.len() == 1
                && r.items[0] is CommandOutput && scan::occurs(r.items[0]->CommandOutput_0, t)
        }),
        command::persona_answer(None, avail, current).act == ActView::Idle,
{
    if !avail.contains(t) && t != "无"@ {
        let more = if avail.len() == 0 {
            "无"@
        } else {
            scan::join_with(avail, "、"@) + "、无"@
        };
        let s = "没有这个人格:「"@ + t + "」。可用:"@ + more;
        text_laws::law_parts_occur("没有这个人格:「"@, t, "」。可用:"@ + more);
        assert(s =~= "没有这个人格:「"@ + t + ("」。可用:"@ + more));
    }
}

/// The list of personas shows the current one and every one that can be chosen.
pub proof fn law_personas_are_listed(avail: Seq<Seq<char>>, current: Seq<char>, i: int)
    ensures
        scan::occurs(command::persona_list(avail, current), current),
        0 <= i < avail.len() ==> scan::occurs(
            command::persona_list(avail, current),
            "/persona "@ + avail[i],
        ),
{
    let s = command::persona_list(avail, current);
    let tail = "  /persona 无   关闭人格,恢复默认助手\n\n自定义:往 ~/.znaide/personas/ 放一个 <名字>.md(正文即人设说明),下次启动即可用 /persona 选它"@;
    let mid = ",全局生效)\n\n可用人格:\n"@;
    let head = "人格设置(当前:"@;
    if current.len() > 0 {
        let rest = "」"@ + mid + command::persona_lines(avail) + tail;
        text_laws::law_parts_occur(head + "「"@, current, rest);
        assert(s =~= head + "「"@ + current + rest);
    } else {
        text_laws::law_parts_occur(Seq::empty(), current, s);
        assert(s =~= Seq::<char>::empty() + current + s);
    }
    if 0 <= i < avail.len() {
        lemma_persona_line(avail, i);
        let front = s.take(s.len() - tail.len() - command::persona_lines(avail).len());
        text_laws::law_parts_of_parts_occur(
            front,
            command::persona_lines(avail),
            tail,
            "/persona "@ + avail[i],
        );
        assert(s =~= front + command::persona_lines(avail) + tail);
    }
}

proof fn lemma_persona_line(avail: Seq<Seq<char>>, i: int)
    requires
        0 <= i < avail.len(),
    ensures
        scan::occurs(command::persona_lines(avail), "/persona "@ + avail[i]),
    decreases avail.len(),
{
    let p = "/persona "@ + avail[i];
    let e = Seq::<char>::empty();
    let done = command::persona_lines(avail.drop_last());
    let line = "  /persona "@ + avail.last() + "\n"@;
    if i == avail.len() - 1 {
        reveal_strlit("  /persona ");
        reveal_strlit("/persona ");
        let two = seq![' ', ' '];
        assert(two + "/persona "@ =~= "  /persona "@);
        text_laws::law_parts_occur(done + two, p, "\n"@);
        assert(done + line =~= done + two + p + "\n"@);
    } else {
        lemma_persona_line(avail.drop_last(), i);
        text_laws::law_parts_of_parts_occur(e, done, line, p);
        assert(e + done + line =~= done + line);
    }
}

/// The list of changes says how many there are, and shows each of the first twenty with
/// its number, counted from one, what was done, to which file and when.
pub proof fn law_changes_are_listed(v: Seq<SnapshotView>, i: int)
    requires
        v.len() > 0,
    ensures
        command::undo_list_answer(v).items == seq![
            MsgView::CommandOutput(command::undo_list(v)),
        ],
        scan::occurs(command::undo_list(v), text::decimal(v.len())),
        0 <= i < v.len() && i < 20 ==> scan::occurs(
            command::undo_list(v),
            text::decimal((i + 1) as nat) + ". "@ + v[i].action + " — "@ + v[i].orig + " ("@
                + v[i].when + ")"@,
        ),
{
    let n = v.len();
    let k = if n > 20 {
        20int
    } else {
        n as int
    };
    let s = command::undo_list(v);
    let head = "undo 快照(最新在前,共 "@;
    let lines = command::snapshot_lines(v.take(k));
    let tail = if n > 20 {
        "…(共 "@ + text::decimal(n) + " 条,最新 20 条)\n"@
    } else {
        Seq::empty()
    };
    assert(s == head + text::decimal(n) + "):\n"@ + lines + tail);
    text_laws::law_parts_occur(head, text::decimal(n), "):\n"@ + lines + tail);
    assert(s =~= head + text::decimal(n) + ("):\n"@ + lines + tail));
    if 0 <= i < k {
        let p = text::decimal((i + 1) as nat) + ". "@ + v[i].action + " — "@ + v[i].orig + " ("@
            + v[i].when + ")"@;
        lemma_snapshot_line(v.take(k), i);
        assert(v.take(k)[i] == v[i]);
        text_laws::law_parts_of_parts_occur(head + text::decimal(n) + "):\n"@, lines, tail, p);
    }
}

proof fn lemma_grouped(a: Seq<char>, b: Seq<char>, c: Seq<char>)
    ensures
        a + b + c == a + (b + c),
{
    assert(a + b + c =~= a + (b + c));
}

proof fn lemma_snapshot_parts(n: nat, s: SnapshotView)
    ensures
        command::snapshot_line(n, s) == "  "@ + (text::decimal(n) + ". "@ + s.action + " — "@
            + s.orig + " ("@ + s.when + ")"@) + ((if s.external {
            " ·外部"@
        } else {
            Seq::empty()
        }) + "\n"@),
{
    let a = "  "@;
    let p1 = text::decimal(n);
    lemma_grouped(a, p1, ". "@);
    let p2 = p1 + ". "@;
    lemma_grouped(a, p2, s.action);
    let p3 = p2 + s.action;
    lemma_grouped(a, p3, " — "@);
    let p4 = p3 + " — "@;
    lemma_grouped(a, p4, s.orig);
    let p5 = p4 + s.orig;
    lemma_grouped(a, p5, " ("@);
    let p6 = p5 + " ("@;
    lemma_grouped(a, p6, s.when);
    let p7 = p6 + s.when;
    lemma_grouped(a, p7, ")"@);
    let p8 = p7 + ")"@;
    let mark = if s.external {
        " ·外部"@
    } else {
        Seq::empty()
    };
    lemma_grouped(a + p8, mark, "\n"@);
}

proof fn lemma_snapshot_line(v: Seq<SnapshotView>, i: int)
    requires
        0 <= i < v.len(),
    ensures
        scan::occurs(
            command::snapshot_lines(v),
            text::decimal((i + 1) as nat) + ". "@ + v[i].action + " — "@ + v[i].orig + " ("@
                + v[i].when + ")"@,
        ),
    decreases v.len(),
{
    let p = text::decimal((i + 1) as nat) + ". "@ + v[i].action + " — "@ + v[i].orig + " ("@
        + v[i].when + ")"@;
    let done = command::snapshot_lines(v.drop_last());
    let line = command::snapshot_line(v.len(), v.last());
    let e = Seq::<char>::empty();
    if i == v.len() - 1 {
        let mark = if v.last().external {
            " ·外部"@
        } else {
            e
        };
        text_laws::law_parts_occur("  "@, p, mark + "\n"@);
        lemma_snapshot_parts(v.len(), v.last());
        text_laws::law_parts_of_parts_occur(done, line, e, p);
        assert(done + line + e =~= done + line);
    } else {
        lemma_snapshot_line(v.drop_last(), i);
        assert(v.drop_last()[i] == v[i]);
        text_laws::law_parts_of_parts_occur(e, done, line, p);
        assert(e + done + line =~= done + line);
    }
}

/// The list of skills shows every skill with what it is for and where it comes from,
/// and every warning.
pub proof fn law_skills_are_listed(
    skills: Seq<SkillView>,
    ws: Seq<Seq<char>>,
    i: int,
    j: int,
)
    ensures
        0 <= i < skills.len() ==> scan::occurs(
            command::skill_list(skills, ws),
            "/"@ + skills[i].name + " — "@ + skills[i].description + "("@ + skills[i].source
                + ")"@,
        ),
        0 <= j < ws.len() ==> scan::occurs(command::skill_list(skills, ws), ws[j]),
        skills.len() > 0 || ws.len() > 0 ==> command::skills_answer(skills, ws).items == seq![
            MsgView::CommandOutput(command::skill_list(skills, ws)),
        ],
{
    if skills.len() > 0 || ws.len() > 0 {
        let s = command::skill_list(skills, ws);
        let head = "已安装技能(直接输入 /名字 触发;模型也可自主调用):\n"@;
        let none = if skills.len() == 0 {
            "  (暂无可用技能)\n"@
        } else {
            Seq::empty()
        };
        let tail = "(技能目录:~/.znaide/skills/ 用户级, .znaide/skills/ 项目级)"@;
        let a = command::skill_lines(skills);
        let b = command::warning_lines(ws);
        assert(s == head + a + none + b + tail);
        if 0 <= i < skills.len() {
            let p = "/"@ + skills[i].name + " — "@ + skills[i].description + "("@
                + skills[i].source + ")"@;
            lemma_skill_line(skills, i);
            text_laws::law_parts_of_parts_occur(head, a, none + b + tail, p);
            assert(s =~= head + a + (none + b + tail));
        }
        if 0 <= j < ws.len() {
            lemma_warning_line(ws, j);
            text_laws::law_parts_of_parts_occur(head + a + none, b, tail, ws[j]);
        }
        reveal_strlit("(技能目录:~/.znaide/skills/ 用户级, .znaide/skills/ 项目级)");
        assert(tail.len() > 0);
    }
}

proof fn lemma_skill_line(v: Seq<SkillView>, i: int)
    requires
        0 <= i < v.len(),
    ensures
        scan::occurs(
            command::skill_lines(v),
            "/"@ + v[i].name + " — "@ + v[i].description + "("@ + v[i].source + ")"@,
        ),
    decreases v.len(),
{
    let p = "/"@ + v[i].name + " — "@ + v[i].description + "("@ + v[i].source + ")"@;
    let done = command::skill_lines(v.drop_last());
    let line = command::skill_line(v.last());
    let e = Seq::<char>::empty();
    if i == v.len() - 1 {
        let mark = crate::completion::manual_mark(v.last().manual);
        reveal_strlit("  /");
        reveal_strlit("/");
        let two = seq![' ', ' '];
        assert(two + "/"@ =~= "  /"@);
        text_laws::law_parts_occur(done + two, p, mark + "\n"@);
        assert(done + line =~= done + two + p + (mark + "\n"@));
    } else {
        lemma_skill_line(v.drop_last(), i);
        assert(v.drop_last()[i] == v[i]);
        text_laws::law_parts_of_parts_occur(e, done, line, p);
        assert(e + done + line =~= done + line);
    }
}

proof fn lemma_warning_line(v: Seq<Seq<char>>, i: int)
    requires
        0 <= i < v.len(),
    ensures
        scan::occurs(command::warning_lines(v), v[i]),
    decreases v.len(),
{
    let done = command::warning_lines(v.drop_last());
    let line = "  ⚠ "@ + v.last() + "\n"@;
    let e = Seq::<char>::empty();
    if i == v.len() - 1 {
        text_laws::law_parts_occur(done + "  ⚠ "@, v[i], "\n"@);
        assert(done + line =~= done + "  ⚠ "@ + v[i] + "\n"@);
    } else {
        lemma_warning_line(v.drop_last(), i);
        text_laws::law_parts_of_parts_occur(e, done, line, v[i]);
        assert(e + done + line =~= done + line);
    }
}

/// A skill that was found is run with its arguments where it has a script, and its text
/// is the task where it has none; an unknown command does nothing but say so.
pub proof fn law_skills_are_called(
    word: Seq<char>,
    args: Seq<char>,
    s: SkillView,
    prompt: Seq<char>,
    any: bool,
)
    ensures
        command::skill_answer(word, args, Some((s, prompt)), any).act == (if s.entry {
            ActView::RunSkill { name: s.name, args }
        } else {
            ActView::Task(prompt)
        }),
        ({
            let r = command::skill_answer(word, args, None, any);
            r.act == ActView::Idle && r.items.len() == 1 && r.items[0] is CommandOutput
                && scan::occurs(r.items[0]->CommandOutput_0, word)
        }),
{
    let more = if any {
        "\n输入 /skills 可查看已安装技能"@
    } else {
        Seq::empty()
    };
    let hint = "\n输入 /help 查看内置命令"@;
    text_laws::law_parts_occur("未知命令: "@, word, hint + more);
    assert("未知命令: "@ + word + hint + more =~= "未知命令: "@ + word + (hint + more));
}

/// What is said of a change that was taken back names its number, its file and its time,
/// what is said of a deleted session names it, and a failure is told; nothing else is
/// done.
pub proof fn law_outcomes_are_told(n: nat, orig: Seq<char>, ts: nat, e: Seq<char>)
    ensures
        command::undone_answer(n, Ok((orig, ts))) == command::noting(
            "已回滚 #"@ + text::decimal(n) + ": "@ + orig + " ← 快照 "@ + text::decimal(ts),
            ActView::Idle,
        ),
        ({
            let r = command::undone_answer(n, Err(e));
            r.act == ActView::Idle && r.items.len() == 1 && r.items[0] is CommandOutput
                && scan::occurs(r.items[0]->CommandOutput_0, e)
        }),
        ({
            let r = command::deleted_answer(orig, Ok(()));
            r.act == ActView::Idle && r.items.len() == 1 && r.items[0] is Notice
                && scan::occurs(r.items[0]->Notice_0, orig)
        }),
        ({
            let r = command::deleted_answer(orig, Err(e));
            r.act == ActView::Idle && r.items.len() == 1 && r.items[0] is CommandOutput
                && scan::occurs(r.items[0]->CommandOutput_0, e)
        }),
{
    let z = Seq::<char>::empty();
    text_laws::law_parts_occur("回滚失败: "@, e, z);
    assert("回滚失败: "@ + e + z =~= "回滚失败: "@ + e);
    text_laws::law_parts_occur("🗑 已删除历史会话: "@, orig, z);
    assert("🗑 已删除历史会话: "@ + orig + z =~= "🗑 已删除历史会话: "@ + orig);
    text_laws::law_parts_occur("删除失败: "@, e, z);
    assert("删除失败: "@ + e + z =~= "删除失败: "@ + e);
}

// ---------------------------------------------------------------------- sessions

/// The file name of a path is what stands behind its last `/`, or behind its last `\`
/// where it has no `/`, or all of it.
pub proof fn law_file_names(dir: Seq<char>, name: Seq<char>)
    requires
        !name.contains('/'),
    ensures
        command::file_name(dir + seq!['/'] + name) == name,
        !dir.contains('/') && !name.contains('\\') ==> command::file_name(
            dir + seq!['\\'] + name,
        ) == name,
        !name.contains('\\') ==> command::file_name(name) == name,
{
    let s = dir + seq!['/'] + name;
    assert(s[dir.len() as int] == '/');
    assert(s.contains('/'));
    lemma_name_start(dir + seq!['/'], name, '/');
    assert((dir + seq!['/']).last() == '/');
    assert(s.skip((dir + seq!['/']).len() as int) =~= name);
    if !name.contains('\\') {
        lemma_name_start(Seq::empty(), name, '\\');
        assert(Seq::<char>::empty() + name =~= name);
        assert(name.skip(0) =~= name);
        if !dir.contains('/') {
            let w = dir + seq!['\\'] + name;
            assert forall|i: int| 0 <= i < w.len() implies w[i] != '/' by {
                if i < dir.len() {
                    assert(w[i] == dir[i]);
                    assert(dir.contains(dir[i]));
                } else if i > dir.len() {
                    assert(w[i] == name[i - dir.len() - 1]);
                    assert(name.contains(name[i - dir.len() - 1]));
                }
            }
            assert(!w.contains('/'));
            lemma_name_start(dir + seq!['\\'], name, '\\');
            assert((dir + seq!['\\']).last() == '\\');
            assert(w.skip((dir + seq!['\\']).len() as int) =~= name);
        }
    }
}

proof fn lemma_name_start(a: Seq<char>, name: Seq<char>, sep: char)
    requires
        !name.contains(sep),
        a.len() > 0 ==> a.last() == sep,
    ensures
        command::name_start(a + name, sep) == a.len(),
    decreases name.len(),
{
    let s = a + name;
    if name.len() == 0 {
        assert(s =~= a);
    } else {
        assert(s.last() == name.last());
        assert(name.contains(name.last()));
        assert(s.drop_last() =~= a + name.drop_last());
        assert forall|i: int| 0 <= i < name.len() - 1 implies name.drop_last()[i] != sep by {
            assert(name.contains(name[i]));
        }
        lemma_name_start(a, name.drop_last(), sep);
    }
}

/// The file name of the `i`-th session can be written as the target between two other
/// texts.
pub open spec fn named(paths: Seq<Seq<char>>, target: Seq<char>, i: int) -> bool {
    exists|a: Seq<char>, b: Seq<char>| #[trigger]
        (a + target + b) == command::file_name(paths[i])
}

/// A target that is no number finds a session whenever the file name of one has it as a
/// contiguous part, wherever in the name; what is found is the first such session of
/// the list.
pub proof fn law_sessions_are_found_by_name(paths: Seq<Seq<char>>, target: Seq<char>)
    requires
        text::parse_number(target, usize::MAX as nat) is None,
    ensures
        (exists|i: int| 0 <= i < paths.len() && named(paths, target, i)) <==> command::matched(
            paths,
            target,
        ) is Some,
        forall|i: int|
            0 <= i < paths.len() && #[trigger] named(paths, target, i) && (forall|j: int|
                0 <= j < i ==> !#[trigger] named(paths, target, j)) ==> command::matched(
                paths,
                target,
            ) == Some(paths[i]),
{
    lemma_first_named(paths, target, 0);
}

proof fn lemma_named(paths: Seq<Seq<char>>, target: Seq<char>, i: int)
    ensures
        named(paths, target, i) <==> scan::occurs(command::file_name(paths[i]), target),
{
    let n = command::file_name(paths[i]);
    if named(paths, target, i) {
        let (a, b) = choose|a: Seq<char>, b: Seq<char>| #[trigger] (a + target + b) == n;
        text_laws::law_parts_occur(a, target, b);
    }
    if scan::occurs(n, target) {
        let (a, b) = text_laws::law_what_occurs_is_a_part(n, target);
        assert(a + target + b == n);
    }
}

proof fn lemma_first_named(paths: Seq<Seq<char>>, target: Seq<char>, i: int)
    requires
        0 <= i <= paths.len(),
    ensures
        (exists|k: int| i <= k < paths.len() && named(paths, target, k)) <==> command::first_with(
            paths,
            target,
            i,
        ) is Some,
        forall|k: int|
            i <= k < paths.len() && #[trigger] named(paths, target, k) && (forall|j: int|
                i <= j < k ==> !#[trigger] named(paths, target, j)) ==> command::first_with(
                paths,
                target,
                i,
            ) == Some(paths[k]),
    decreases paths.len() - i,
{
    if i < paths.len() {
        lemma_named(paths, target, i);
        lemma_first_named(paths, target, i + 1);
        if scan::occurs(command::file_name(paths[i]), target) {
            assert(named(paths, target, i));
            assert forall|k: int|
                i <= k < paths.len() && #[trigger] named(paths, target, k) && (forall|j: int|
                    i <= j < k ==> !#[trigger] named(paths, target, j)) implies
                command::first_with(paths, target, i) == Some(paths[k]) by {
                if k > i {
                    assert(!named(paths, target, i));
                }
            }
        } else {
            assert forall|k: int|
                i <= k < paths.len() && #[trigger] named(paths, target, k) && (forall|j: int|
                    i <= j < k ==> !#[trigger] named(paths, target, j)) implies
                command::first_with(paths, target, i) == Some(paths[k]) by {
                assert(k != i);
            }
            if exists|k: int| i <= k < paths.len() && named(paths, target, k) {
                let k = choose|k: int| i <= k < paths.len() && named(paths, target, k);
                assert(k != i);
                assert(i + 1 <= k < paths.len() && named(paths, target, k));
            }
        }
    }
}

/// A number means the session at that place of the list, counted from one, and nothing
/// where the list is shorter.
pub proof fn law_sessions_are_found_by_number(paths: Seq<Seq<char>>, n: usize)
    requires
        n > 0,
    ensures
        n <= paths.len() ==> command::matched(paths, text::decimal(n as nat)) == Some(
            paths[n - 1],
        ),
        n > paths.len() ==> command::matched(paths, text::decimal(n as nat)) is None,
{
    text_laws::law_numbers_are_read_back(n as nat, usize::MAX as nat);
}

/// What is said of an update tells the version that is there, or the reason why there is
/// none.
pub proof fn law_updates_are_told(current: Seq<char>, v: String, deferred: bool)
    ensures
        scan::occurs(command::update_note(command::UpdateResult::UpToDate, current), current),
        scan::occurs(
            command::update_note(
                command::UpdateResult::Updated { version: v, deferred },
                current,
            ),
            v@,
        ),
        scan::occurs(command::update_note(command::UpdateResult::CheckFailed(v), current), v@),
        scan::occurs(command::update_note(command::UpdateResult::DownloadFailed(v), current), v@),
        scan::occurs(command::update_note(command::UpdateResult::VerifyFailed(v), current), v@),
{
    let e = Seq::<char>::empty();
    text_laws::law_parts_occur("已是最新版本 v"@, current, "。"@);
    text_laws::law_parts_occur(
        "✔ 新版本 v"@,
        v@,
        " 已就位:退出程序后自动完成替换,下次启动生效。"@,
    );
    text_laws::law_parts_occur(
        "✔ 已更新到 v"@,
        v@,
        ":下次启动生效(本次继续用旧版本)。"@,
    );
    text_laws::law_parts_occur("⚠ 检查更新失败: "@, v@, e);
    assert("⚠ 检查更新失败: "@ + v@ + e =~= "⚠ 检查更新失败: "@ + v@);
    text_laws::law_parts_occur("⚠ 更新失败: "@, v@, e);
    assert("⚠ 更新失败: "@ + v@ + e =~= "⚠ 更新失败: "@ + v@);
    text_laws::law_parts_occur("⚠ "@, v@, e);
    assert("⚠ "@ + v@ + e =~= "⚠ "@ + v@);
}

} // verus!
