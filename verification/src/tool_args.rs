//! What the card of a tool call shows of its arguments, which come as JSON.
use crate::scan;
use crate::text;
use vstd::prelude::*;

verus! {

/// What a JSON text is, as far as that decides what is shown.
#[derive(Clone, Copy, Debug, PartialEq, Eq, Structural)]
pub enum Shape {
    Null,
    /// An object with so many members.
    Object(usize),
    Other,
}

/// The text of a member of a JSON object, as `serde_json` reads it.
pub uninterp spec fn json_text(json: Seq<char>, key: Seq<char>) -> Option<Seq<char>>;

/// What a JSON text is, as `serde_json` reads it.
pub uninterp spec fn json_shape(json: Seq<char>) -> Option<Shape>;

/// What a text holds, where there is one.
pub open spec fn opt_view(o: Option<String>) -> Option<Seq<char>> {
    match o {
        Some(s) => Some(s@),
        None => None,
    }
}

/// Reads a JSON text with `serde_json::from_str` and hands out the text of one of its
/// members, as `Value::get` and `Value::as_str` give it: none where the text is no
/// JSON or no object, or has no such member, or where that is no text. What the text
/// is for given values is left unsaid; that it depends on nothing but the two
/// arguments is claimed.
#[verifier::external_body]
fn member(json: &str, key: &str) -> (r: Option<String>)
    ensures
        opt_view(r) == json_text(json@, key@),
{
    let v = serde_json::from_str::<serde_json::Value>(json).ok()?;
    let t = v.get(key)?.as_str()?;
    Some(t.to_owned())
}

/// Reads a JSON text with `serde_json::from_str` and tells what it is: none where it
/// is no JSON. What it is for given values is left unsaid; that it depends on nothing
/// but the argument is claimed.
#[verifier::external_body]
fn shape(json: &str) -> (r: Option<Shape>)
    ensures
        r == json_shape(json@),
{
    match serde_json::from_str::<serde_json::Value>(json).ok()? {
        serde_json::Value::Null => Some(Shape::Null),
        serde_json::Value::Object(o) => Some(Shape::Object(o.len())),
        serde_json::Value::Bool(_) => Some(Shape::Other),
        serde_json::Value::Number(_) => Some(Shape::Other),
        serde_json::Value::String(_) => Some(Shape::Other),
        serde_json::Value::Array(_) => Some(Shape::Other),
    }
}

/// Whether arguments are none: `null`, or an object without members.
pub open spec fn is_none(shape: Option<Shape>) -> bool {
    shape == Some(Shape::Null) || shape == Some(Shape::Object(0))
}

/// What is shown of a shell command: nothing where there are no arguments; else the
/// command itself and where it runs, or the arguments as they are where they hold no
/// command.
pub open spec fn command_text(
    args: Seq<char>,
    shape: Option<Shape>,
    command: Option<Seq<char>>,
    cwd: Option<Seq<char>>,
) -> Seq<char> {
    if is_none(shape) {
        Seq::empty()
    } else {
        match command {
            Some(c) => if c.len() > 0 {
                "$ "@ + c + (match cwd {
                    Some(d) => if d.len() > 0 {
                        "  (cwd: "@ + d + ")"@
                    } else {
                        Seq::empty()
                    },
                    None => Seq::empty(),
                })
            } else {
                args
            },
            None => args,
        }
    }
}

/// What is shown of other arguments: nothing where there are none.
pub open spec fn plain_text(args: Seq<char>, shape: Option<Shape>) -> Seq<char> {
    if is_none(shape) {
        Seq::empty()
    } else {
        args
    }
}

fn none_given(shape: Option<Shape>) -> (r: bool)
    ensures
        r == is_none(shape),
{
    match shape {
        Some(Shape::Null) => true,
        Some(Shape::Object(n)) => n == 0,
        _ => false,
    }
}

/// What is shown of the arguments of a tool call.
pub open spec fn summary_of(name: Seq<char>, args: Seq<char>) -> Seq<char> {
    let a = scan::trimmed(args);
    if a.len() == 0 {
        Seq::empty()
    } else if name == "run_shell_command"@ {
        command_text(a, json_shape(a), json_text(a, "command"@), json_text(a, "cwd"@))
    } else {
        plain_text(a, json_shape(a))
    }
}

/// What is shown of a shell command, once its arguments are read.
pub fn command_summary(
    args: &str,
    shape: Option<Shape>,
    command: Option<String>,
    cwd: Option<String>,
) -> (r: String)
    ensures
        r@ == command_text(args@, shape, opt_view(command), opt_view(cwd)),
{
    if none_given(shape) {
        return String::new();
    }
    if let Some(c) = command {
        if !c.as_str().is_empty() {
            let mut s = text::cat2("$ ", c.as_str());
            let place = match cwd {
                Some(d) => if d.as_str().is_empty() {
                    String::new()
                } else {
                    text::cat3("  (cwd: ", d.as_str(), ")")
                },
                None => String::new(),
            };
            s.append(place.as_str());
            return s;
        }
    }
    text::copy(args)
}

/// What is shown of other arguments, once it is known what they are.
pub fn plain_summary(args: &str, shape: Option<Shape>) -> (r: String)
    ensures
        r@ == plain_text(args@, shape),
{
    if none_given(shape) {
        return String::new();
    }
    text::copy(args)
}

/// What the card of a tool call shows of its arguments: of a shell command the
/// command, of another tool the arguments as they are, and nothing where there are
/// none.
pub fn tool_args_summary(name: &str, args: &str) -> (r: String)
    ensures
        r@ == summary_of(name@, args@),
{
    let a = scan::trim(args);
    if a.as_str().is_empty() {
        return String::new();
    }
    let s = shape(a.as_str());
    if text::same(name, "run_shell_command") {
        let command = member(a.as_str(), "command");
        let cwd = member(a.as_str(), "cwd");
        return command_summary(a.as_str(), s, command, cwd);
    }
    plain_summary(a.as_str(), s)
}

} // verus!
