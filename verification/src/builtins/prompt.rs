//! Prompt text the agent sends to its model: the per-turn system
//! prompt and the planner prompt.

use vstd::prelude::*;

verus! {

/// `items` joined with `sep` between consecutive items.
pub open spec fn joined(items: Seq<Seq<char>>, sep: Seq<char>) -> Seq<char>
    decreases items.len(),
{
    if items.len() == 0 {
        Seq::empty()
    } else if items.len() == 1 {
        items[0]
    } else {
        joined(items.drop_last(), sep) + sep + items.last()
    }
}

pub open spec fn string_views(items: Seq<String>) -> Seq<Seq<char>> {
    items.map_values(|s: String| s@)
}

/// `items` joined with `", "`.
fn join_comma(items: &[String]) -> (r: String)
    ensures
        r@ == joined(string_views(items@), ", "@),
{
    let mut out = String::new();
    let mut i: usize = 0;
    while i < items.len()
        invariant
            i <= items@.len(),
            out@ == joined(string_views(items@).take(i as int), ", "@),
        decreases items@.len() - i,
    {
        let ghost before = out@;
        if i > 0 {
            out.append(", ");
        }
        out.append(items[i].as_str());
        proof {
            let t = string_views(items@).take(i + 1);
            assert(t.drop_last() =~= string_views(items@).take(i as int));
            assert(t.last() == items@[i as int]@);
            if i == 0 {
                assert(before =~= Seq::<char>::empty());
                assert(out@ =~= t[0]);
            } else {
                assert(out@ =~= before + ", "@ + t.last());
            }
        }
        i = i + 1;
    }
    proof {
        assert(string_views(items@).take(items@.len() as int) =~= string_views(items@));
    }
    out
}

/// The tool list of a prompt: the names joined with `", "`, or
/// `empty` when there are none.
pub open spec fn tool_list(tools: Seq<String>, empty: Seq<char>) -> Seq<char> {
    if tools.len() == 0 {
        empty
    } else {
        joined(string_views(tools), ", "@)
    }
}

pub open spec fn system_prompt(first_action: bool, tools: Seq<String>) -> Seq<char> {
    "You are an agent inside the odyssey kernel. "@ + "Available tools: "@ + tool_list(
        tools,
        "(no tools available)"@,
    ) + ". "@ + (if first_action {
        "__AGENT_FIRST_ACTION__: this is the first turn; you should call a tool. "@
    } else {
        "__AGENT_FINAL_AFTER_TOOL__: the previous tool call returned; you should produce a final answer now. "@
    })
        + "Reply with JSON: {\"tool_call\":{\"tool\":\"<name>\",\"args\":<json>}} to call a tool, or {\"final\":<value>} to finish. Plain text is treated as a final answer."@
}

/// The system prompt of one agent turn: the tools the session may
/// call and whether this turn should call one or answer.
pub fn build_system_prompt(first_action: bool, allowed_tools: &[String]) -> (r: String)
    ensures
        r@ == system_prompt(first_action, allowed_tools@),
{
    let tools = if allowed_tools.len() == 0 {
        String::from_str("(no tools available)")
    } else {
        join_comma(allowed_tools)
    };
    let mut s = String::new();
    s.append("You are an agent inside the odyssey kernel. ");
    s.append("Available tools: ");
    s.append(tools.as_str());
    s.append(". ");
    if first_action {
        s.append("__AGENT_FIRST_ACTION__: this is the first turn; you should call a tool. ");
    } else {
        s.append(
            "__AGENT_FINAL_AFTER_TOOL__: the previous tool call returned; you should produce a final answer now. ",
        );
    }
    s.append(
        "Reply with JSON: {\"tool_call\":{\"tool\":\"<name>\",\"args\":<json>}} to call a tool, or {\"final\":<value>} to finish. Plain text is treated as a final answer.",
    );
    proof {
        assert(s@ =~= system_prompt(first_action, allowed_tools@));
    }
    s
}

pub open spec fn plan_prompt(tools: Seq<String>) -> Seq<char> {
    "You are a planner inside the odyssey kernel. Tools: "@ + tool_list(tools, "(no tools)"@)
        + ". Produce a numbered plan (1., 2., 3., ...). Plain text only; do not call any tools."@
}

/// The planner's system prompt over `tools`.
pub fn build_plan_prompt(tools: &[String]) -> (r: String)
    ensures
        r@ == plan_prompt(tools@),
{
    let list = if tools.len() == 0 {
        String::from_str("(no tools)")
    } else {
        join_comma(tools)
    };
    let mut s = String::from_str("You are a planner inside the odyssey kernel. Tools: ");
    s.append(list.as_str());
    s.append(". Produce a numbered plan (1., 2., 3., ...). Plain text only; do not call any tools.");
    s
}

} // verus!
