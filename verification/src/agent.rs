//! What the side that talks to the model says about what it was asked to do.
use crate::scan;
use crate::text;
use vstd::prelude::*;

verus! {

/// What is said of servers for tools: each that did not start, and those that did.
pub open spec fn server_notes(errors: Seq<(Seq<char>, Seq<char>)>, names: Seq<Seq<char>>) -> Seq<
    Seq<char>,
> {
    if names.len() == 0 {
        failed_servers(errors)
    } else {
        failed_servers(errors).push("🔌 MCP servers: "@ + scan::join_with(names, ", "@))
    }
}

/// What is said of servers that did not start.
pub open spec fn failed_servers(errors: Seq<(Seq<char>, Seq<char>)>) -> Seq<Seq<char>>
    decreases errors.len(),
{
    if errors.len() == 0 {
        Seq::empty()
    } else {
        failed_servers(errors.drop_last()).push(
            "⚠ MCP "@ + errors.last().0 + ": "@ + errors.last().1,
        )
    }
}

/// What pairs of texts hold.
pub open spec fn pair_views(v: Seq<(String, String)>) -> Seq<(Seq<char>, Seq<char>)> {
    v.map_values(|p: (String, String)| (p.0@, p.1@))
}

/// Says what became of the servers for tools.
pub fn server_notices(errors: &Vec<(String, String)>, names: &Vec<String>) -> (r: Vec<String>)
    ensures
        scan::texts(r@) == server_notes(pair_views(errors@), scan::texts(names@)),
{
    let ghost all = pair_views(errors@);
    let mut r: Vec<String> = Vec::new();
    let mut i: usize = 0;
    proof {
        assert(scan::texts(r@) =~= Seq::<Seq<char>>::empty());
        assert(all.take(0) =~= Seq::<(Seq<char>, Seq<char>)>::empty());
    }
    while i < errors.len()
        invariant
            all == pair_views(errors@),
            i <= errors@.len(),
            scan::texts(r@) == failed_servers(all.take(i as int)),
        decreases errors@.len() - i,
    {
        proof {
            assert(all.take(i + 1).drop_last() =~= all.take(i as int));
            assert(all.take(i + 1).last() == all[i as int]);
        }
        let (name, err) = &errors[i];
        scan::push_text(&mut r, text::cat4("⚠ MCP ", name.as_str(), ": ", err.as_str()));
        i += 1;
    }
    proof {
        assert(all.take(i as int) =~= all);
        assert(scan::texts(names@).len() == names@.len());
        assert(scan::texts(names@).skip(0) =~= scan::texts(names@));
    }
    if names.len() > 0 {
        let list = scan::join_from(names, 0, ", ");
        scan::push_text(&mut r, text::cat2("🔌 MCP servers: ", list.as_str()));
    }
    r
}

/// Says which persona the session begins with, where it has one.
pub fn persona_notice(persona: &str) -> (r: Option<String>)
    ensures
        match r {
            Some(t) => persona@.len() > 0 && t@ == "人格:"@ + persona@
                + "(全局生效,输入 /persona 可切换或关闭)"@,
            None => persona@.len() == 0,
        },
{
    if persona.is_empty() {
        return None;
    }
    Some(
        text::cat3("人格:", persona, "(全局生效,输入 /persona 可切换或关闭)"),
    )
}

/// Says that another model is talked to.
pub fn reconfigured_notice(provider: &str, model: &str) -> (r: String)
    ensures
        r@ == "✔ 配置已切换: "@ + provider@ + " / "@ + model@,
{
    text::cat4("✔ 配置已切换: ", provider, " / ", model)
}

/// What loading an earlier session came to.
pub open spec fn history_note(r: Result<usize, String>, path: Seq<char>) -> Seq<char> {
    match r {
        Ok(n) => "已恢复历史会话("@ + text::decimal(n as nat)
            + " 条消息),可继续对话。历史文件:"@ + path
            + "\n⚠ 恢复后最好核对一下上下文,模型未必理解此前的中间状态。"@,
        Err(e) => "恢复历史失败: "@ + e@,
    }
}

/// Says what loading an earlier session came to: how many messages it has, or why it
/// could not be loaded.
pub fn history_notice(r: &Result<usize, String>, path: &str) -> (t: String)
    ensures
        t@ == history_note(*r, path@),
{
    match r {
        Ok(n) => text::cat5(
            "已恢复历史会话(",
            text::dec(*n).as_str(),
            " 条消息),可继续对话。历史文件:",
            path,
            "\n⚠ 恢复后最好核对一下上下文,模型未必理解此前的中间状态。",
        ),
        Err(e) => text::cat2("恢复历史失败: ", e.as_str()),
    }
}

/// What is said of a context that was to be compacted; of one that was, nothing: that
/// is shown.
pub open spec fn compact_note(r: Result<usize, String>) -> Option<Seq<char>> {
    match r {
        Ok(n) => if n == 0 {
            Some("上下文还短,无需压缩。"@)
        } else {
            None
        },
        Err(e) => Some("⚠ 上下文压缩失败: "@ + e@),
    }
}

/// Says what compacting the context came to: how many messages went into the summary,
/// or why there is none.
pub fn compact_notice(r: &Result<usize, String>) -> (t: Option<String>)
    ensures
        match t {
            Some(s) => compact_note(*r) == Some(s@),
            None => compact_note(*r) is None,
        },
{
    match r {
        Ok(n) => if *n == 0 {
            Some(text::copy("上下文还短,无需压缩。"))
        } else {
            None
        },
        Err(e) => Some(text::cat2("⚠ 上下文压缩失败: ", e.as_str())),
    }
}

/// Says that something went wrong.
pub fn failure_notice(e: &str) -> (r: String)
    ensures
        r@ == "⚠ "@ + e@,
{
    text::cat2("⚠ ", e)
}

} // verus!
