//! What the gateway answers to `initialize`.

use crate::json::{Json, JsonView};
use crate::mcp_apps::capabilities::{gateway_merged_capabilities, merged_capabilities};
use crate::model::{InitializeResult, InitializeResultView, pair, pairs};
use crate::rewrite::{
    CompiledServerRewrite, ServerRewriteView, UpstreamInstructionsMode, copy_opt_str, opt_server,
};
use vstd::prelude::*;
use vstd::string::*;

verus! {

/// What the gateway says of itself, where nothing else is configured.
pub open spec fn default_preamble() -> Seq<char> {
    "This server is a gateway to a set of mcp servers. It is responsible for routing requests to the correct server and aggregating the results."@
}

/// The gateway's words, followed by those of each upstream server under its name.
pub open spec fn merged_instructions(
    preamble: Seq<char>,
    upstream: Seq<(Seq<char>, Seq<char>)>,
) -> Seq<char>
    decreases upstream.len(),
{
    if upstream.len() == 0 {
        preamble
    } else {
        merged_instructions(preamble, upstream.drop_last()) + "\n\n["@ + upstream.last().0 + "]\n"@
            + upstream.last().1
    }
}

/// What is configured, or else the default.
pub open spec fn or_default(configured: Option<Seq<char>>, default_value: Seq<char>) -> Seq<char> {
    match configured {
        Some(s) => s,
        None => default_value,
    }
}

/// What the gateway answers to `initialize`.
pub open spec fn server_info(
    pv: Seq<char>,
    multiplexing: bool,
    resource_subscribe: bool,
    upstream: Seq<(Seq<char>, Seq<char>)>,
    server: Option<ServerRewriteView>,
    build_version: Seq<char>,
) -> InitializeResultView {
    let preamble = match server {
        Some(s) => or_default(s.instructions, default_preamble()),
        None => default_preamble(),
    };
    let replaces = match server {
        Some(s) => s.upstream_instructions == UpstreamInstructionsMode::Replace,
        None => false,
    };
    InitializeResultView {
        protocol_version: pv,
        capabilities: merged_capabilities(multiplexing, resource_subscribe),
        server_name: match server {
            Some(s) => or_default(s.name, "agentgateway"@),
            None => "agentgateway"@,
        },
        server_version: match server {
            Some(s) => or_default(s.version, build_version),
            None => build_version,
        },
        instructions: Some(
            if replaces {
                preamble
            } else {
                merged_instructions(preamble, upstream)
            },
        ),
        rest: JsonView::Null,
    }
}

/// What the gateway answers to `initialize`: its merged capabilities, and its own words, followed
/// by the instructions of the upstream servers unless its words are to replace them.
pub fn build_server_info(
    pv: String,
    multiplexing: bool,
    resource_subscribe: bool,
    upstream_instructions: Vec<(String, String)>,
    server: Option<CompiledServerRewrite>,
    build_version: &str,
) -> (r: InitializeResult)
    ensures
        r@ == server_info(
            pv@,
            multiplexing,
            resource_subscribe,
            pairs(upstream_instructions@),
            opt_server(server),
            build_version@,
        ),
{
    let capabilities = gateway_merged_capabilities(multiplexing, resource_subscribe);
    let (configured_preamble, configured_name, configured_version, replaces) = match &server {
        Some(s) => (
            copy_opt_str(&s.instructions),
            copy_opt_str(&s.name),
            copy_opt_str(&s.version),
            s.upstream_instructions == UpstreamInstructionsMode::Replace,
        ),
        None => (None, None, None, false),
    };
    let mut instructions = match configured_preamble {
        Some(s) => s,
        None =>
            "This server is a gateway to a set of mcp servers. It is responsible for routing requests to the correct server and aggregating the results.".to_owned(),
    };
    if !replaces {
        let ghost preamble = instructions@;
        let ghost all = pairs(upstream_instructions@);
        let mut i: usize = 0;
        assert(all.take(0) =~= Seq::<(Seq<char>, Seq<char>)>::empty());
        while i < upstream_instructions.len()
            invariant
                i <= upstream_instructions@.len(),
                all == pairs(upstream_instructions@),
                instructions@ == merged_instructions(preamble, all.take(i as int)),
            decreases upstream_instructions@.len() - i,
        {
            assert(all.take(i + 1).drop_last() =~= all.take(i as int));
            assert(all.take(i + 1).last() == pair(upstream_instructions@[i as int]));
            instructions.append("\n\n[");
            instructions.append(upstream_instructions[i].0.as_str());
            instructions.append("]\n");
            instructions.append(upstream_instructions[i].1.as_str());
            i += 1;
        }
        assert(all.take(i as int) =~= all);
    }
    let server_name = match configured_name {
        Some(s) => s,
        None => "agentgateway".to_owned(),
    };
    let server_version = match configured_version {
        Some(s) => s,
        None => build_version.to_owned(),
    };
    InitializeResult {
        protocol_version: pv,
        capabilities,
        server_name,
        server_version,
        instructions: Some(instructions),
        rest: Json::Null,
    }
}

} // verus!
