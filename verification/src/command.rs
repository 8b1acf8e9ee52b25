//! Slash commands: what a line asks for, what has to be looked up for it, and what
//! is answered.
use crate::completion;
use crate::completion::{Skill, SkillView};
use crate::messages;
use crate::messages::{MsgItem, MsgView};
use crate::scan;
use crate::text;
use vstd::prelude::*;

verus! {

/// What `/help` prints.
pub const HELP_TEXT: &'static str = "可用命令:
  /help                    显示本帮助
  /skills                  列出已安装技能
  /config                  打开配置面板(随时修改 provider/模型/端点/key,立即生效)
  /undo                    列出 undo 快照; /undo <序号> 回滚
  /resume                  打开会话管理窗口(会话/记忆页签,多选批量删、备注、恢复); /resume <序号|片段> 恢复; /resume del <序号|片段> 删除
  /clear                   清空当前会话上下文与历史文件(需确认)
  /compact                 压缩上下文:旧对话收敛为摘要,腾出空间继续对话
  /update                  检查并更新到 GitHub 最新版本
  /persona                 人格设置:/persona 列表, /persona <名字> 切换, /persona 无 关闭
  /技能名                  触发已安装技能(列表见 /skills)

输入技巧:
  @文件 或 @目录          引用本地文件/目录(自动注入内容)
  Enter                   发送
  Shift+Enter 换行        若终端不支持,可用 Alt+Enter 或 Ctrl+J
  Shift+Tab               循环切换权限模式(询问 → 编辑放行 → 全自动 → 超级)
  Shift+拖动              选择并复制文字(鼠标已用于滚轮/滚动条,按住 Shift 可拖选)
  Esc                     中断生成 / 取消
  Ctrl+C                  退出

权限模式说明(Shift+Tab 循环切换;输入框与消息区边框颜色随模式变化):
  询问       写文件、执行命令前均需你确认(默认,边框绿色)
  编辑放行   文件修改自动放行,命令执行仍确认(边框天蓝)
  全自动     全部自动执行,危险命令仍被拦截(边框紫色)
  超级 YOLO  一切放行、无任何问询,危险命令黑名单也跳过——高度危险,后果自负(边框红色)
";

// -------------------------------------------------------------------- the command

/// What a line asks for.
#[derive(Debug)]
pub enum Command {
    Help,
    Clear,
    Skills,
    /// Takes back the change with the given number.
    UndoAt(usize),
    /// Says how changes are taken back.
    UndoUsage,
    UndoList,
    OpenSessions,
    /// Loads or deletes an earlier session.
    Resume { del: bool, target: Option<String> },
    Compact,
    Quit,
    Update,
    Persona(Option<String>),
    /// Anything else: `word` is the command as it was typed, and `name` the skill.
    Skill { word: String, name: String, args: String },
}

/// What a line asks for.
pub enum CommandView {
    Help,
    Clear,
    Skills,
    UndoAt(nat),
    UndoUsage,
    UndoList,
    OpenSessions,
    Resume { del: bool, target: Option<Seq<char>> },
    Compact,
    Quit,
    Update,
    Persona(Option<Seq<char>>),
    Skill { word: Seq<char>, name: Seq<char>, args: Seq<char> },
}

/// What a text holds, where there is one.
pub open spec fn opt_view(o: Option<String>) -> Option<Seq<char>> {
    match o {
        Some(s) => Some(s@),
        None => None,
    }
}

impl View for Command {
    type V = CommandView;

    open spec fn view(&self) -> CommandView {
        match self {
            Command::Help => CommandView::Help,
            Command::Clear => CommandView::Clear,
            Command::Skills => CommandView::Skills,
            Command::UndoAt(n) => CommandView::UndoAt(*n as nat),
            Command::UndoUsage => CommandView::UndoUsage,
            Command::UndoList => CommandView::UndoList,
            Command::OpenSessions => CommandView::OpenSessions,
            Command::Resume { del, target } => CommandView::Resume {
                del: *del,
                target: opt_view(*target),
            },
            Command::Compact => CommandView::Compact,
            Command::Quit => CommandView::Quit,
            Command::Update => CommandView::Update,
            Command::Persona(t) => CommandView::Persona(opt_view(*t)),
            Command::Skill { word, name, args } => CommandView::Skill {
                word: word@,
                name: name@,
                args: args@,
            },
        }
    }
}

/// A text without the slashes that it begins with.
pub open spec fn without_slashes(s: Seq<char>) -> Seq<char>
    decreases s.len(),
{
    if s.len() > 0 && s[0] == '/' {
        without_slashes(s.skip(1))
    } else {
        s
    }
}

/// A word of a line, if it has that many.
pub open spec fn word_at(w: Seq<Seq<char>>, i: int) -> Option<Seq<char>> {
    if i < w.len() {
        Some(w[i])
    } else {
        None
    }
}

/// What a line asks for, by its words.
pub open spec fn command_of(s: Seq<char>) -> CommandView {
    let w = scan::words(s);
    let name = if w.len() == 0 {
        Seq::empty()
    } else {
        w[0]
    };
    if name == "/help"@ {
        CommandView::Help
    } else if name == "/clear"@ {
        CommandView::Clear
    } else if name == "/skills"@ {
        CommandView::Skills
    } else if name == "/undo"@ {
        if w.len() < 2 {
            CommandView::UndoList
        } else {
            match text::parse_number(w[1], usize::MAX as nat) {
                Some(n) => CommandView::UndoAt(n),
                None => CommandView::UndoUsage,
            }
        }
    } else if name == "/resume"@ {
        if w.len() < 2 {
            CommandView::OpenSessions
        } else if w[1] == "del"@ {
            CommandView::Resume { del: true, target: word_at(w, 2) }
        } else {
            CommandView::Resume { del: false, target: Some(w[1]) }
        }
    } else if name == "/compact"@ {
        CommandView::Compact
    } else if name == "/quit"@ || name == "/exit"@ {
        CommandView::Quit
    } else if name == "/update"@ {
        CommandView::Update
    } else if name == "/persona"@ {
        CommandView::Persona(word_at(w, 1))
    } else {
        CommandView::Skill {
            word: name,
            name: without_slashes(name),
            args: if w.len() == 0 {
                Seq::empty()
            } else {
                scan::join_with(w.skip(1), " "@)
            },
        }
    }
}

fn drop_slashes(s: &str) -> (r: String)
    ensures
        r@ == without_slashes(s@),
{
    let v = text::chars_of(s);
    let mut i: usize = 0;
    proof {
        assert(s@.skip(0) =~= s@);
    }
    while i < v.len() && v[i] == '/'
        invariant
            v@ == s@,
            i <= v.len(),
            without_slashes(s@.skip(i as int)) == without_slashes(s@),
        decreases v.len() - i,
    {
        proof {
            assert(s@.skip(i as int)[0] == s@[i as int]);
            assert(s@.skip(i as int).skip(1) =~= s@.skip(i + 1));
        }
        i += 1;
    }
    proof {
        assert(v@.subrange(i as int, v@.len() as int) =~= s@.skip(i as int));
        if i < v.len() {
            assert(s@.skip(i as int)[0] == s@[i as int]);
        }
    }
    text::string_of(&v, i, v.len())
}

fn nth(w: &Vec<String>, i: usize) -> (r: Option<String>)
    ensures
        opt_view(r) == word_at(scan::texts(w@), i as int),
{
    proof {
        assert(scan::texts(w@).len() == w@.len());
    }
    if i < w.len() {
        Some(w[i].clone())
    } else {
        None
    }
}

/// What a line asks for.
pub fn parse_command(cmd: &str) -> (r: Command)
    ensures
        r@ == command_of(cmd@),
{
    let w = scan::split_words(cmd);
    proof {
        assert(scan::texts(w@).len() == w@.len());
    }
    let n: usize = w.len();
    let name = if n == 0 {
        String::new()
    } else {
        w[0].clone()
    };
    let name = name.as_str();
    if text::same(name, "/help") {
        return Command::Help;
    }
    if text::same(name, "/clear") {
        return Command::Clear;
    }
    if text::same(name, "/skills") {
        return Command::Skills;
    }
    if text::same(name, "/undo") {
        if n < 2 {
            return Command::UndoList;
        }
        return match text::read_number(w[1].as_str(), usize::MAX as u64) {
            Some(k) => Command::UndoAt(k as usize),
            None => Command::UndoUsage,
        };
    }
    if text::same(name, "/resume") {
        if n < 2 {
            return Command::OpenSessions;
        }
        if text::same(w[1].as_str(), "del") {
            return Command::Resume { del: true, target: nth(&w, 2) };
        }
        return Command::Resume { del: false, target: Some(w[1].clone()) };
    }
    if text::same(name, "/compact") {
        return Command::Compact;
    }
    if text::same(name, "/quit") || text::same(name, "/exit") {
        return Command::Quit;
    }
    if text::same(name, "/update") {
        return Command::Update;
    }
    if text::same(name, "/persona") {
        return Command::Persona(nth(&w, 1));
    }
    let args = if n == 0 {
        String::new()
    } else {
        scan::join_from(&w, 1, " ")
    };
    Command::Skill { word: text::copy(name), name: drop_slashes(name), args }
}

// --------------------------------------------------------------------- the answer

/// What is done beside showing items.
#[derive(Debug)]
pub enum Act {
    /// Nothing.
    Idle,
    /// A task for the session.
    Task(String),
    /// A skill whose script the session runs.
    RunSkill { name: String, args: String },
    Compact,
    Quit,
    OpenSessions,
    /// The user is asked whether the session is to be cleared.
    ConfirmClear,
    /// An earlier session is loaded.
    Load(String),
    /// An earlier session is deleted.
    Delete(String),
    SetPersona(String),
    CheckUpdate,
    /// Something has to be looked up or done before there is an answer.
    Ask(Command),
}

/// What is done beside showing items.
pub enum ActView {
    Idle,
    Task(Seq<char>),
    RunSkill { name: Seq<char>, args: Seq<char> },
    Compact,
    Quit,
    OpenSessions,
    ConfirmClear,
    Load(Seq<char>),
    Delete(Seq<char>),
    SetPersona(Seq<char>),
    CheckUpdate,
    Ask(CommandView),
}

impl View for Act {
    type V = ActView;

    open spec fn view(&self) -> ActView {
        match self {
            Act::Idle => ActView::Idle,
            Act::Task(t) => ActView::Task(t@),
            Act::RunSkill { name, args } => ActView::RunSkill { name: name@, args: args@ },
            Act::Compact => ActView::Compact,
            Act::Quit => ActView::Quit,
            Act::OpenSessions => ActView::OpenSessions,
            Act::ConfirmClear => ActView::ConfirmClear,
            Act::Load(p) => ActView::Load(p@),
            Act::Delete(p) => ActView::Delete(p@),
            Act::SetPersona(n) => ActView::SetPersona(n@),
            Act::CheckUpdate => ActView::CheckUpdate,
            Act::Ask(c) => ActView::Ask(c@),
        }
    }
}

/// The items that answer a command, and what is done beside.
#[derive(Debug)]
pub struct Answer {
    pub items: Vec<MsgItem>,
    pub act: Act,
}

/// What an answer holds.
#[verifier::ext_equal]
pub struct AnswerView {
    pub items: Seq<MsgView>,
    pub act: ActView,
}

impl View for Answer {
    type V = AnswerView;

    open spec fn view(&self) -> AnswerView {
        AnswerView { items: messages::msg_views(self.items@), act: self.act@ }
    }
}

/// An answer that does something and shows nothing.
pub open spec fn doing(act: ActView) -> AnswerView {
    AnswerView { items: Seq::empty(), act }
}

/// An answer that prints something.
pub open spec fn printing(t: Seq<char>) -> AnswerView {
    AnswerView { items: Seq::empty().push(MsgView::CommandOutput(t)), act: ActView::Idle }
}

/// An answer with a notice, which does something beside.
pub open spec fn noting(t: Seq<char>, act: ActView) -> AnswerView {
    AnswerView { items: Seq::empty().push(MsgView::Notice(t)), act }
}

fn do_only(act: Act) -> (r: Answer)
    ensures
        r@ == doing(act@),
{
    Answer { items: messages::no_items(), act }
}

fn print(t: String) -> (r: Answer)
    ensures
        r@ == printing(t@),
{
    let mut items = messages::no_items();
    messages::push_output(&mut items, t);
    Answer { items, act: Act::Idle }
}

fn note(t: String, act: Act) -> (r: Answer)
    ensures
        r@ == noting(t@, act@),
{
    let mut items = messages::no_items();
    messages::push_notice(&mut items, t);
    Answer { items, act }
}

/// The answer to a command: what needs no more than the command is answered, and the
/// rest is asked for. Nothing is cleared before the user has confirmed it.
pub open spec fn answer_of(c: CommandView) -> AnswerView {
    match c {
        CommandView::Help => printing(HELP_TEXT@),
        CommandView::Clear => doing(ActView::ConfirmClear),
        CommandView::UndoUsage => printing("用法:/undo(列表) 或 /undo <序号>(回滚)"@),
        CommandView::OpenSessions => doing(ActView::OpenSessions),
        CommandView::Compact => noting("▶ 请求压缩上下文…"@, ActView::Compact),
        CommandView::Quit => noting("正在退出…"@, ActView::Quit),
        CommandView::Update => noting(
            "正在检查更新…(走 GitHub,网络不通请设置 HTTPS_PROXY 后重试)"@,
            ActView::CheckUpdate,
        ),
        _ => doing(ActView::Ask(c)),
    }
}

/// Answers a command as far as that can be done without looking anything up.
pub fn handle_command(c: Command) -> (r: Answer)
    ensures
        r@ == answer_of(c@),
{
    match c {
        Command::Help => print(text::copy(HELP_TEXT)),
        Command::Clear => do_only(Act::ConfirmClear),
        Command::UndoUsage => print(
            text::copy("用法:/undo(列表) 或 /undo <序号>(回滚)"),
        ),
        Command::OpenSessions => do_only(Act::OpenSessions),
        Command::Compact => note(text::copy("▶ 请求压缩上下文…"), Act::Compact),
        Command::Quit => note(text::copy("正在退出…"), Act::Quit),
        Command::Update => note(
            text::copy(
                "正在检查更新…(走 GitHub,网络不通请设置 HTTPS_PROXY 后重试)",
            ),
            Act::CheckUpdate,
        ),
        _ => do_only(Act::Ask(c)),
    }
}

// ------------------------------------------------------------------------- skills

/// The line of a skill.
pub open spec fn skill_line(s: SkillView) -> Seq<char> {
    "  /"@ + s.name + " — "@ + s.description + "("@ + s.source + ")"@ + completion::manual_mark(
        s.manual,
    ) + "\n"@
}

/// The lines of skills.
pub open spec fn skill_lines(skills: Seq<SkillView>) -> Seq<char>
    decreases skills.len(),
{
    if skills.len() == 0 {
        Seq::empty()
    } else {
        skill_lines(skills.drop_last()) + skill_line(skills.last())
    }
}

/// The lines of warnings.
pub open spec fn warning_lines(ws: Seq<Seq<char>>) -> Seq<char>
    decreases ws.len(),
{
    if ws.len() == 0 {
        Seq::empty()
    } else {
        warning_lines(ws.drop_last()) + ("  ⚠ "@ + ws.last() + "\n"@)
    }
}

/// The list of skills; empty where there is nothing to list.
pub open spec fn skill_list(skills: Seq<SkillView>, ws: Seq<Seq<char>>) -> Seq<char> {
    if skills.len() == 0 && ws.len() == 0 {
        Seq::empty()
    } else {
        "已安装技能(直接输入 /名字 触发;模型也可自主调用):\n"@ + skill_lines(skills) + (
        if skills.len() == 0 {
            "  (暂无可用技能)\n"@
        } else {
            Seq::empty()
        }) + warning_lines(ws)
            + "(技能目录:~/.znaide/skills/ 用户级, .znaide/skills/ 项目级)"@
    }
}

fn add_skill(out: &mut String, s: &Skill)
    ensures
        final(out)@ == old(out)@ + skill_line(s@),
{
    let mut line = text::cat5("  /", s.name.as_str(), " — ", s.description.as_str(), "(");
    line.append(s.source.as_str());
    line.append(")");
    line.append(completion::mark_of(s.manual).as_str());
    line.append("\n");
    out.append(line.as_str());
}

/// The list of skills, with what was wrong with others; empty where there is nothing
/// to list.
pub fn skill_list_text(skills: &Vec<Skill>, warnings: &Vec<String>) -> (r: String)
    ensures
        r@ == skill_list(completion::skill_views(skills@), scan::texts(warnings@)),
{
    let ghost sv = completion::skill_views(skills@);
    let ghost wv = scan::texts(warnings@);
    proof {
        assert(sv.len() == skills@.len());
        assert(wv.len() == warnings@.len());
    }
    if skills.len() == 0 && warnings.len() == 0 {
        return String::new();
    }
    let mut list = String::new();
    let mut i: usize = 0;
    proof {
        assert(sv.take(0) =~= Seq::<SkillView>::empty());
    }
    while i < skills.len()
        invariant
            sv == completion::skill_views(skills@),
            i <= skills@.len(),
            list@ == skill_lines(sv.take(i as int)),
        decreases skills@.len() - i,
    {
        proof {
            assert(sv.take(i + 1).drop_last() =~= sv.take(i as int));
            assert(sv.take(i + 1).last() == skills@[i as int]@);
        }
        add_skill(&mut list, &skills[i]);
        i += 1;
    }
    let mut bad = String::new();
    let mut j: usize = 0;
    proof {
        assert(sv.take(i as int) =~= sv);
        assert(wv.take(0) =~= Seq::<Seq<char>>::empty());
    }
    while j < warnings.len()
        invariant
            wv == scan::texts(warnings@),
            j <= warnings@.len(),
            bad@ == warning_lines(wv.take(j as int)),
        decreases warnings@.len() - j,
    {
        proof {
            assert(wv.take(j + 1).drop_last() =~= wv.take(j as int));
            assert(wv.take(j + 1).last() == warnings@[j as int]@);
        }
        let line = text::cat3("  ⚠ ", warnings[j].as_str(), "\n");
        bad.append(line.as_str());
        j += 1;
    }
    proof {
        assert(wv.take(j as int) =~= wv);
    }
    let none = if skills.len() == 0 {
        text::copy("  (暂无可用技能)\n")
    } else {
        String::new()
    };
    text::cat5(
        "已安装技能(直接输入 /名字 触发;模型也可自主调用):\n",
        list.as_str(),
        none.as_str(),
        bad.as_str(),
        "(技能目录:~/.znaide/skills/ 用户级, .znaide/skills/ 项目级)",
    )
}

/// What `/skills` prints.
pub open spec fn skills_answer(skills: Seq<SkillView>, ws: Seq<Seq<char>>) -> AnswerView {
    if skill_list(skills, ws).len() == 0 {
        printing(
            "暂无已安装技能。\n技能目录:~/.znaide/skills/ 用户级, .znaide/skills/ 项目级"@,
        )
    } else {
        printing(skill_list(skills, ws))
    }
}

/// Answers `/skills` with the skills and the warnings that were found.
pub fn answer_skills(skills: &Vec<Skill>, warnings: &Vec<String>) -> (r: Answer)
    ensures
        r@ == skills_answer(completion::skill_views(skills@), scan::texts(warnings@)),
{
    let t = skill_list_text(skills, warnings);
    if t.as_str().is_empty() {
        return print(
            text::copy(
                "暂无已安装技能。\n技能目录:~/.znaide/skills/ 用户级, .znaide/skills/ 项目级",
            ),
        );
    }
    print(t)
}

/// The answer to a command that is not built in: a skill that was found is called, by
/// its script where it has one, else by its text; `prompt` is that text with the
/// arguments put in.
pub open spec fn skill_answer(
    word: Seq<char>,
    args: Seq<char>,
    found: Option<(SkillView, Seq<char>)>,
    any: bool,
) -> AnswerView {
    match found {
        Some((s, prompt)) => {
            let start = Seq::empty().push(
                MsgView::Notice(
                    "▶ 技能「"@ + s.name + "」已触发: "@ + s.description + "("@ + s.source + ")"@,
                ),
            );
            if s.entry {
                AnswerView {
                    items: start.push(
                        MsgView::Notice("该技能声明了入口脚本,执行时可能需要你确认。"@),
                    ),
                    act: ActView::RunSkill { name: s.name, args },
                }
            } else {
                AnswerView { items: start, act: ActView::Task(prompt) }
            }
        },
        None => printing(
            "未知命令: "@ + word + "\n输入 /help 查看内置命令"@ + (if any {
                "\n输入 /skills 可查看已安装技能"@
            } else {
                Seq::empty()
            }),
        ),
    }
}

/// What was found: a skill, and the task it makes.
pub open spec fn found_view(o: Option<(Skill, String)>) -> Option<(SkillView, Seq<char>)> {
    match o {
        Some((s, p)) => Some((s@, p@)),
        None => None,
    }
}

/// Answers a command that is not built in, with the skill that was found for it, and
/// whether there are skills at all.
pub fn answer_skill(word: &str, args: String, found: Option<(Skill, String)>, any: bool) -> (r:
    Answer)
    ensures
        r@ == skill_answer(word@, args@, found_view(found), any),
{
    match found {
        Some((s, prompt)) => {
            let mut items = messages::no_items();
            let mut t = text::cat5(
                "▶ 技能「",
                s.name.as_str(),
                "」已触发: ",
                s.description.as_str(),
                "(",
            );
            t.append(s.source.as_str());
            t.append(")");
            messages::push_notice(&mut items, t);
            if s.entry {
                messages::push_notice(
                    &mut items,
                    text::copy("该技能声明了入口脚本,执行时可能需要你确认。"),
                );
                return Answer { items, act: Act::RunSkill { name: s.name, args } };
            }
            Answer { items, act: Act::Task(prompt) }
        },
        None => {
            let hint = if any {
                text::copy("\n输入 /skills 可查看已安装技能")
            } else {
                String::new()
            };
            print(
                text::cat4("未知命令: ", word, "\n输入 /help 查看内置命令", hint.as_str()),
            )
        },
    }
}

// --------------------------------------------------------------------------- undo

/// A change that can be taken back.
#[derive(Debug)]
pub struct Snapshot {
    pub action: String,
    /// The file that was changed.
    pub orig: String,
    /// How long ago, as it is shown.
    pub when: String,
    /// Whether the file lies outside of the project.
    pub external: bool,
}

/// What a change holds.
#[verifier::ext_equal]
pub struct SnapshotView {
    pub action: Seq<char>,
    pub orig: Seq<char>,
    pub when: Seq<char>,
    pub external: bool,
}

impl View for Snapshot {
    type V = SnapshotView;

    open spec fn view(&self) -> SnapshotView {
        SnapshotView {
            action: self.action@,
            orig: self.orig@,
            when: self.when@,
            external: self.external,
        }
    }
}

/// What changes hold.
pub open spec fn snapshot_views(v: Seq<Snapshot>) -> Seq<SnapshotView> {
    v.map_values(|s: Snapshot| s@)
}

/// How many changes are listed.
pub const UNDO_SHOWN: usize = 20;

/// The line of a change, with its number.
pub open spec fn snapshot_line(n: nat, s: SnapshotView) -> Seq<char> {
    "  "@ + text::decimal(n) + ". "@ + s.action + " — "@ + s.orig + " ("@ + s.when + ")"@ + (
    if s.external {
        " ·外部"@
    } else {
        Seq::empty()
    }) + "\n"@
}

/// The lines of changes, numbered from one.
pub open spec fn snapshot_lines(v: Seq<SnapshotView>) -> Seq<char>
    decreases v.len(),
{
    if v.len() == 0 {
        Seq::empty()
    } else {
        snapshot_lines(v.drop_last()) + snapshot_line(v.len(), v.last())
    }
}

/// The list of changes: the latest of them.
pub open spec fn undo_list(v: Seq<SnapshotView>) -> Seq<char> {
    let n = v.len();
    "undo 快照(最新在前,共 "@ + text::decimal(n) + "):\n"@ + snapshot_lines(
        v.take(
            if n > UNDO_SHOWN {
                UNDO_SHOWN as int
            } else {
                n as int
            },
        ),
    ) + (if n > UNDO_SHOWN {
        "…(共 "@ + text::decimal(n) + " 条,最新 20 条)\n"@
    } else {
        Seq::empty()
    })
}

/// What `/undo` prints.
pub open spec fn undo_list_answer(v: Seq<SnapshotView>) -> AnswerView {
    if v.len() == 0 {
        printing("暂无 undo 快照(还没有文件被修改过)"@)
    } else {
        printing(undo_list(v))
    }
}

fn add_snapshot(out: &mut String, n: usize, s: &Snapshot)
    ensures
        final(out)@ == old(out)@ + snapshot_line(n as nat, s@),
{
    let mut line = text::cat5("  ", text::dec(n).as_str(), ". ", s.action.as_str(), " — ");
    line.append(s.orig.as_str());
    line.append(" (");
    line.append(s.when.as_str());
    line.append(")");
    let ext = if s.external {
        text::copy(" ·外部")
    } else {
        String::new()
    };
    line.append(ext.as_str());
    line.append("\n");
    out.append(line.as_str());
}

/// Answers `/undo` with the changes that can be taken back, the latest first.
pub fn answer_undo_list(snaps: &Vec<Snapshot>) -> (r: Answer)
    ensures
        r@ == undo_list_answer(snapshot_views(snaps@)),
{
    let ghost all = snapshot_views(snaps@);
    proof {
        assert(all.len() == snaps@.len());
    }
    let n: usize = snaps.len();
    if n == 0 {
        return print(text::copy("暂无 undo 快照(还没有文件被修改过)"));
    }
    let shown: usize = if n > UNDO_SHOWN {
        UNDO_SHOWN
    } else {
        n
    };
    let mut list = String::new();
    let mut i: usize = 0;
    proof {
        assert(all.take(0) =~= Seq::<SnapshotView>::empty());
    }
    while i < shown
        invariant
            all == snapshot_views(snaps@),
            i <= shown <= snaps@.len(),
            list@ == snapshot_lines(all.take(i as int)),
        decreases shown - i,
    {
        proof {
            assert(all.take(i + 1).drop_last() =~= all.take(i as int));
            assert(all.take(i + 1).last() == snaps@[i as int]@);
        }
        add_snapshot(&mut list, i + 1, &snaps[i]);
        i += 1;
    }
    let count = text::dec(n);
    let more = if n > UNDO_SHOWN {
        text::cat3("…(共 ", count.as_str(), " 条,最新 20 条)\n")
    } else {
        String::new()
    };
    print(
        text::cat5(
            "undo 快照(最新在前,共 ",
            count.as_str(),
            "):\n",
            list.as_str(),
            more.as_str(),
        ),
    )
}

/// What taking back a change came to: the file and the time of the change, or why it
/// failed.
pub open spec fn undone_answer(n: nat, r: Result<(Seq<char>, nat), Seq<char>>) -> AnswerView {
    match r {
        Ok((orig, ts)) => noting(
            "已回滚 #"@ + text::decimal(n) + ": "@ + orig + " ← 快照 "@ + text::decimal(ts),
            ActView::Idle,
        ),
        Err(e) => printing("回滚失败: "@ + e),
    }
}

/// What taking back a change came to.
pub open spec fn undone_view(r: Result<(String, u64), String>) -> Result<
    (Seq<char>, nat),
    Seq<char>,
> {
    match r {
        Ok((o, t)) => Ok((o@, t as nat)),
        Err(e) => Err(e@),
    }
}

/// Says what taking back a change came to.
pub fn answer_undone(n: usize, r: Result<(String, u64), String>) -> (a: Answer)
    ensures
        a@ == undone_answer(n as nat, undone_view(r)),
{
    match r {
        Ok((orig, ts)) => {
            let mut t = text::cat5(
                "已回滚 #",
                text::dec(n).as_str(),
                ": ",
                orig.as_str(),
                " ← 快照 ",
            );
            t.append(text::dec64(ts).as_str());
            note(t, Act::Idle)
        },
        Err(e) => print(text::cat2("回滚失败: ", e.as_str())),
    }
}

// ------------------------------------------------------------------------- resume

/// The character that parts the directories of a path: a backslash only where the path
/// holds no slash.
pub open spec fn separator(s: Seq<char>) -> char {
    if s.contains('/') {
        '/'
    } else {
        '\\'
    }
}

/// Where the file name of a path begins: behind its last separator.
pub open spec fn name_start(s: Seq<char>, sep: char) -> int
    decreases s.len(),
{
    if s.len() == 0 {
        0
    } else if s.last() == sep {
        s.len() as int
    } else {
        name_start(s.drop_last(), sep)
    }
}

/// The file name of a path.
pub open spec fn file_name(s: Seq<char>) -> Seq<char> {
    s.skip(name_start(s, separator(s)))
}

fn name_of(path: &str) -> (r: String)
    ensures
        r@ == file_name(path@),
{
    let v = text::chars_of(path);
    let n: usize = v.len();
    let sep = if scan::has_char(path, '/') {
        '/'
    } else {
        '\\'
    };
    let mut i: usize = n;
    proof {
        assert(v@.take(n as int) =~= v@);
    }
    while i > 0 && v[i - 1] != sep
        invariant
            i <= n == v.len(),
            name_start(v@.take(i as int), sep) == name_start(v@, sep),
        decreases i,
    {
        proof {
            assert(v@.take(i as int).drop_last() =~= v@.take(i - 1));
        }
        i -= 1;
    }
    proof {
        assert(name_start(v@, sep) == i);
        assert(v@.skip(i as int) =~= v@.subrange(i as int, n as int));
    }
    text::string_of(&v, i, n)
}

/// The session that is meant: by its number, counted from one, or by a part of its
/// file's name.
pub open spec fn matched(paths: Seq<Seq<char>>, target: Seq<char>) -> Option<Seq<char>> {
    match text::parse_number(target, usize::MAX as nat) {
        Some(n) => {
            let i = if n > 0 {
                n - 1
            } else {
                0
            };
            if i < paths.len() {
                Some(paths[i])
            } else {
                None
            }
        },
        None => first_with(paths, target, 0),
    }
}

/// The first path at or behind `i` whose file name holds the target.
pub open spec fn first_with(paths: Seq<Seq<char>>, target: Seq<char>, i: int) -> Option<Seq<char>>
    decreases paths.len() - i,
{
    if i < 0 || i >= paths.len() {
        None
    } else if scan::occurs(file_name(paths[i]), target) {
        Some(paths[i])
    } else {
        first_with(paths, target, i + 1)
    }
}

/// The session that is meant: by its number, counted from one, or by a part of its
/// file's name.
pub fn match_session(sessions: &Vec<String>, target: &str) -> (r: Option<String>)
    ensures
        opt_view(r) == matched(scan::texts(sessions@), target@),
{
    let ghost all = scan::texts(sessions@);
    proof {
        assert(all.len() == sessions@.len());
    }
    if let Some(n) = text::read_number(target, usize::MAX as u64) {
        let i: usize = if n > 0 {
            (n - 1) as usize
        } else {
            0
        };
        return nth(sessions, i);
    }
    let mut i: usize = 0;
    while i < sessions.len()
        invariant
            all == scan::texts(sessions@),
            all.len() == sessions@.len(),
            i <= sessions@.len(),
            text::parse_number(target@, usize::MAX as nat) is None,
            first_with(all, target@, i as int) == first_with(all, target@, 0),
        decreases sessions@.len() - i,
    {
        if scan::contains_text(name_of(sessions[i].as_str()).as_str(), target) {
            return Some(sessions[i].clone());
        }
        i += 1;
    }
    None
}

/// The answer to `/resume` with a session.
pub open spec fn resume_answer(
    del: bool,
    target: Option<Seq<char>>,
    paths: Seq<Seq<char>>,
) -> AnswerView {
    if paths.len() == 0 {
        printing("暂无历史会话(~/.znaide/sessions/ 为空)"@)
    } else {
        match target {
            None => printing("用法:/resume del <序号|文件名片段>"@),
            Some(t) => match matched(paths, t) {
                None => printing("未找到匹配「"@ + t + "」的历史会话"@),
                Some(p) => if del {
                    doing(ActView::Delete(p))
                } else {
                    noting("正在恢复历史会话…"@, ActView::Load(p))
                },
            },
        }
    }
}

/// Answers `/resume` with a session, given the paths of the sessions there are.
pub fn answer_resume(del: bool, target: Option<String>, sessions: &Vec<String>) -> (r: Answer)
    ensures
        r@ == resume_answer(del, opt_view(target), scan::texts(sessions@)),
{
    proof {
        assert(scan::texts(sessions@).len() == sessions@.len());
    }
    if sessions.len() == 0 {
        return print(text::copy("暂无历史会话(~/.znaide/sessions/ 为空)"));
    }
    match target {
        None => print(text::copy("用法:/resume del <序号|文件名片段>")),
        Some(t) => match match_session(sessions, t.as_str()) {
            None => print(
                text::cat3("未找到匹配「", t.as_str(), "」的历史会话"),
            ),
            Some(p) => if del {
                do_only(Act::Delete(p))
            } else {
                note(text::copy("正在恢复历史会话…"), Act::Load(p))
            },
        },
    }
}

/// What deleting a session came to.
pub open spec fn deleted_answer(path: Seq<char>, r: Result<(), Seq<char>>) -> AnswerView {
    match r {
        Ok(_) => noting("🗑 已删除历史会话: "@ + path, ActView::Idle),
        Err(e) => printing("删除失败: "@ + e),
    }
}

/// Says what deleting a session came to.
pub fn answer_deleted(path: &str, r: Result<(), String>) -> (a: Answer)
    ensures
        a@ == deleted_answer(
            path@,
            match r {
                Ok(_) => Ok(()),
                Err(e) => Err(e@),
            },
        ),
{
    match r {
        Ok(_) => note(text::cat2("🗑 已删除历史会话: ", path), Act::Idle),
        Err(e) => print(text::cat2("删除失败: ", e.as_str())),
    }
}

// ------------------------------------------------------------------------ personas

/// What switches a persona off.
pub const NO_PERSONA: &'static str = "无";

/// Whether a persona can be chosen.
pub open spec fn is_persona(avail: Seq<Seq<char>>, t: Seq<char>) -> bool {
    t == NO_PERSONA@ || avail.contains(t)
}

/// The lines of personas.
pub open spec fn persona_lines(avail: Seq<Seq<char>>) -> Seq<char>
    decreases avail.len(),
{
    if avail.len() == 0 {
        Seq::empty()
    } else {
        persona_lines(avail.drop_last()) + ("  /persona "@ + avail.last() + "\n"@)
    }
}

/// The list of personas.
pub open spec fn persona_list(avail: Seq<Seq<char>>, current: Seq<char>) -> Seq<char> {
    "人格设置(当前:"@ + (if current.len() == 0 {
        "无(默认助手)"@
    } else {
        "「"@ + current + "」"@
    }) + ",全局生效)\n\n可用人格:\n"@ + persona_lines(avail)
        + "  /persona 无   关闭人格,恢复默认助手\n\n自定义:往 ~/.znaide/personas/ 放一个 <名字>.md(正文即人设说明),下次启动即可用 /persona 选它"@
}

/// The answer to `/persona`.
pub open spec fn persona_answer(
    target: Option<Seq<char>>,
    avail: Seq<Seq<char>>,
    current: Seq<char>,
) -> AnswerView {
    match target {
        None => printing(persona_list(avail, current)),
        Some(t) => if is_persona(avail, t) {
            noting(
                "正在切换人格「"@ + t + "」…(重建系统提示,之后所有对话都带着它)"@,
                ActView::SetPersona(t),
            )
        } else {
            printing(
                "没有这个人格:「"@ + t + "」。可用:"@ + (if avail.len() == 0 {
                    "无"@
                } else {
                    scan::join_with(avail, "、"@) + "、无"@
                }),
            )
        },
    }
}

fn knows_persona(avail: &Vec<String>, t: &str) -> (r: bool)
    ensures
        r == is_persona(scan::texts(avail@), t@),
{
    if text::same(t, NO_PERSONA) {
        return true;
    }
    let ghost all = scan::texts(avail@);
    let mut i: usize = 0;
    while i < avail.len()
        invariant
            all == scan::texts(avail@),
            all.len() == avail@.len(),
            i <= avail@.len(),
            forall|j: int| 0 <= j < i ==> all[j] != t@,
        decreases avail@.len() - i,
    {
        if text::same(avail[i].as_str(), t) {
            proof {
                assert(all[i as int] == t@);
            }
            return true;
        }
        i += 1;
    }
    false
}

fn list_personas(avail: &Vec<String>, current: &str) -> (r: String)
    ensures
        r@ == persona_list(scan::texts(avail@), current@),
{
    let ghost all = scan::texts(avail@);
    let mut list = String::new();
    let mut i: usize = 0;
    proof {
        assert(all.take(0) =~= Seq::<Seq<char>>::empty());
    }
    while i < avail.len()
        invariant
            all == scan::texts(avail@),
            all.len() == avail@.len(),
            i <= avail@.len(),
            list@ == persona_lines(all.take(i as int)),
        decreases avail@.len() - i,
    {
        proof {
            assert(all.take(i + 1).drop_last() =~= all.take(i as int));
            assert(all.take(i + 1).last() == avail@[i as int]@);
        }
        let line = text::cat3("  /persona ", avail[i].as_str(), "\n");
        list.append(line.as_str());
        i += 1;
    }
    proof {
        assert(all.take(i as int) =~= all);
    }
    let label = if current.is_empty() {
        text::copy("无(默认助手)")
    } else {
        text::cat3("「", current, "」")
    };
    text::cat5(
        "人格设置(当前:",
        label.as_str(),
        ",全局生效)\n\n可用人格:\n",
        list.as_str(),
        "  /persona 无   关闭人格,恢复默认助手\n\n自定义:往 ~/.znaide/personas/ 放一个 <名字>.md(正文即人设说明),下次启动即可用 /persona 选它",
    )
}

/// Answers `/persona` with the personas there are and the one that is on.
pub fn answer_persona(target: Option<String>, avail: &Vec<String>, current: &str) -> (r: Answer)
    ensures
        r@ == persona_answer(opt_view(target), scan::texts(avail@), current@),
{
    let t = match target {
        None => {
            return print(list_personas(avail, current));
        },
        Some(t) => t,
    };
    if knows_persona(avail, t.as_str()) {
        return note(
            text::cat3(
                "正在切换人格「",
                t.as_str(),
                "」…(重建系统提示,之后所有对话都带着它)",
            ),
            Act::SetPersona(t),
        );
    }
    proof {
        assert(scan::texts(avail@).len() == avail@.len());
        assert(scan::texts(avail@).skip(0) =~= scan::texts(avail@));
    }
    let hint = if avail.len() == 0 {
        text::copy("无")
    } else {
        text::cat2(scan::join_from(avail, 0, "、").as_str(), "、无")
    };
    print(
        text::cat4("没有这个人格:「", t.as_str(), "」。可用:", hint.as_str()),
    )
}

// ------------------------------------------------------------------------- updates

/// What an update came to.
#[derive(Debug)]
pub enum UpdateResult {
    UpToDate,
    /// Whether the program is replaced only once it has ended is `deferred`.
    Updated { version: String, deferred: bool },
    CheckFailed(String),
    DownloadFailed(String),
    VerifyFailed(String),
}

/// What is said of an update.
pub open spec fn update_note(r: UpdateResult, current: Seq<char>) -> Seq<char> {
    match r {
        UpdateResult::UpToDate => "已是最新版本 v"@ + current + "。"@,
        UpdateResult::Updated { version, deferred } => if deferred {
            "✔ 新版本 v"@ + version@ + " 已就位:退出程序后自动完成替换,下次启动生效。"@
        } else {
            "✔ 已更新到 v"@ + version@ + ":下次启动生效(本次继续用旧版本)。"@
        },
        UpdateResult::CheckFailed(e) => "⚠ 检查更新失败: "@ + e@,
        UpdateResult::DownloadFailed(e) => "⚠ 更新失败: "@ + e@,
        UpdateResult::VerifyFailed(e) => "⚠ "@ + e@,
    }
}

/// Says what an update came to.
pub fn update_text(r: &UpdateResult, current: &str) -> (t: String)
    ensures
        t@ == update_note(*r, current@),
{
    match r {
        UpdateResult::UpToDate => text::cat3("已是最新版本 v", current, "。"),
        UpdateResult::Updated { version, deferred } => if *deferred {
            text::cat3(
                "✔ 新版本 v",
                version.as_str(),
                " 已就位:退出程序后自动完成替换,下次启动生效。",
            )
        } else {
            text::cat3(
                "✔ 已更新到 v",
                version.as_str(),
                ":下次启动生效(本次继续用旧版本)。",
            )
        },
        UpdateResult::CheckFailed(e) => text::cat2("⚠ 检查更新失败: ", e.as_str()),
        UpdateResult::DownloadFailed(e) => text::cat2("⚠ 更新失败: ", e.as_str()),
        UpdateResult::VerifyFailed(e) => text::cat2("⚠ ", e.as_str()),
    }
}

/// What is said of a version that is newer than the program.
pub fn newer_version_text(latest: &str, current: &str) -> (t: String)
    ensures
        t@ == "发现新版本 v"@ + latest@ + "(当前 v"@ + current@
            + ")。输入 /update 立即更新,或忽略继续使用。"@,
{
    text::cat5(
        "发现新版本 v",
        latest,
        "(当前 v",
        current,
        ")。输入 /update 立即更新,或忽略继续使用。",
    )
}

// ------------------------------------------------------------------------ laws

/// Nothing is cleared by a command alone: the user is asked first, and what is shown
/// stays.
pub proof fn law_clearing_is_confirmed(c: CommandView)
    ensures
        answer_of(c).act is ConfirmClear <==> c is Clear,
        c is Clear ==> answer_of(c).items.len() == 0,
{
}

/// A session that is loaded or deleted is one of those there are.
pub proof fn law_resumed_session_exists(
    del: bool,
    target: Option<Seq<char>>,
    paths: Seq<Seq<char>>,
)
    ensures
        match resume_answer(del, target, paths).act {
            ActView::Load(p) => !del && paths.contains(p),
            ActView::Delete(p) => del && paths.contains(p),
            _ => true,
        },
{
    if let Some(t) = target {
        lemma_first_with(paths, t, 0);
    }
}

proof fn lemma_first_with(paths: Seq<Seq<char>>, target: Seq<char>, i: int)
    ensures
        match first_with(paths, target, i) {
            Some(p) => paths.contains(p),
            None => true,
        },
    decreases paths.len() - i,
{
    if 0 <= i < paths.len() {
        if scan::occurs(file_name(paths[i]), target) {
            assert(paths.contains(paths[i]));
        } else {
            lemma_first_with(paths, target, i + 1);
        }
    }
}

/// A persona that is switched to is one of those there are, or none.
pub proof fn law_persona_exists(
    target: Option<Seq<char>>,
    avail: Seq<Seq<char>>,
    current: Seq<char>,
)
    ensures
        match persona_answer(target, avail, current).act {
            ActView::SetPersona(t) => t == NO_PERSONA@ || avail.contains(t),
            _ => true,
        },
{
}

} // verus!
