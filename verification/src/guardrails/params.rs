//! What guardrails are told of a call, read out of its parameters.

use crate::info::{MCPInfo, blank_info};
use crate::json::{
    self, Json, JsonMap, JsonView, MembersView, lemma_json_view, member, opt_members_view,
};
use crate::json_value::{self, parsed_json};
use crate::model::opt_str;
use crate::text;
use vstd::prelude::*;
use vstd::string::*;

verus! {

/// The string that an object has under `key`.
pub open spec fn string_member(params: JsonView, key: Seq<char>) -> Option<Seq<char>> {
    match params {
        JsonView::Object(members) => match member(members, key) {
            Some(JsonView::Str(s)) => Some(s),
            _ => None,
        },
        _ => None,
    }
}

/// The object that an object has under `key`.
pub open spec fn object_member(params: JsonView, key: Seq<char>) -> Option<MembersView> {
    match params {
        JsonView::Object(members) => match member(members, key) {
            Some(JsonView::Object(m)) => Some(m),
            _ => None,
        },
        _ => None,
    }
}

fn get_string(params: &Json, key: &str) -> (r: Option<String>)
    ensures
        opt_str(r) == string_member(params@, key@),
{
    broadcast use lemma_json_view;

    match params {
        Json::Object(members) => match json::get(members, key) {
            Some(Json::Str(s)) => Some(s.clone()),
            _ => None,
        },
        _ => None,
    }
}

fn get_object(params: &Json, key: &str) -> (r: Option<JsonMap>)
    ensures
        opt_members_view(r) == object_member(params@, key@),
{
    broadcast use lemma_json_view;

    match params {
        Json::Object(members) => match json::get(members, key) {
            Some(Json::Object(m)) => Some(json::copy_members(m)),
            _ => None,
        },
        _ => None,
    }
}

/// The info tells of a call with these parameters: the method, and the tool with its arguments,
/// the prompt or the resource that they name. There is no target in them.
pub open spec fn tells_params(info: MCPInfo, method: Seq<char>, params: Option<JsonView>) -> bool {
    &&& info.method_name matches Some(m) && m@ == method
    &&& info == (MCPInfo {
        method_name: info.method_name,
        tool: info.tool,
        prompt: info.prompt,
        resource: info.resource,
        ..blank_info()
    })
    &&& if method == "tools/call"@ && params is Some {
        info.tool matches Some(t) && t.target@ == Seq::<char>::empty() && t.name@ == (
        match string_member(params->0, "name"@) {
            Some(name) => name,
            None => Seq::empty(),
        }) && opt_members_view(t.arguments) == object_member(params->0, "arguments"@)
            && t.result is None && t.error is None
    } else {
        info.tool is None
    }
    &&& if method == "prompts/get"@ && params is Some && string_member(params->0, "name"@) is Some {
        info.prompt matches Some(p) && p.target@ == Seq::<char>::empty() && Some(p.name@)
            == string_member(params->0, "name"@)
    } else {
        info.prompt is None
    }
    &&& if method == "resources/read"@ && params is Some && string_member(
        params->0,
        "uri"@,
    ) is Some {
        info.resource matches Some(p) && p.target@ == Seq::<char>::empty() && Some(p.name@)
            == string_member(params->0, "uri"@)
    } else {
        info.resource is None
    }
}

proof fn lemma_methods_differ()
    ensures
        "tools/call"@ != "prompts/get"@,
        "tools/call"@ != "resources/read"@,
        "prompts/get"@ != "resources/read"@,
{
    reveal_strlit("tools/call");
    reveal_strlit("prompts/get");
    reveal_strlit("resources/read");
    assert("tools/call"@.len() == 10);
    assert("prompts/get"@.len() == 11);
    assert("resources/read"@.len() == 14);
}

/// What guardrails are told of a call with these parameters.
pub fn mcp_info_of_params(method: &str, params: Option<&Json>) -> (r: MCPInfo)
    ensures
        tells_params(
            r,
            method@,
            match params {
                Some(p) => Some(p@),
                None => None,
            },
        ),
{
    proof {
        lemma_methods_differ();
    }
    let mut info = MCPInfo::default();
    info.method_name = Some(method.to_owned());
    let params = match params {
        Some(p) => p,
        None => {
            return info;
        },
    };
    if text::same(method, "tools/call") {
        let name = match get_string(params, "name") {
            Some(name) => name,
            None => String::new(),
        };
        info.set_tool(String::new(), name);
        info.capture_call_arguments(get_object(params, "arguments"));
    } else if text::same(method, "prompts/get") {
        if let Some(name) = get_string(params, "name") {
            info.set_prompt(String::new(), name);
        }
    } else if text::same(method, "resources/read") {
        if let Some(uri) = get_string(params, "uri") {
            info.set_resource(String::new(), uri);
        }
    }
    info
}

/// What guardrails are told of a call whose parameters are this text. Text that is no JSON tells
/// only the method.
pub fn build_mcp_info(method: &str, body: Option<&[u8]>) -> (r: MCPInfo)
    ensures
        tells_params(
            r,
            method@,
            match body {
                Some(b) => parsed_json(b@),
                None => None,
            },
        ),
{
    match body {
        Some(b) => match json_value::parse(b) {
            Some(params) => mcp_info_of_params(method, Some(&params)),
            None => mcp_info_of_params(method, None),
        },
        None => mcp_info_of_params(method, None),
    }
}

} // verus!
