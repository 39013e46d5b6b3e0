//! What a request to the Gemini API holds, by what is asked for.
use crate::gemini::{
    generation_config_of, is_success, readable_tools, requests_sse, system_instruction_of,
    thinking_level_of,
};
use crate::gemini_models::{contents_said, generate_url, Candidate, Tool};
use crate::history_laws::is_plain_part;
use crate::json::JsonModel;
use crate::protocol::{ModelProviderInfo, ReasoningEffort};
use crate::text::{has_prefix, law_trimmed_empty, same_ignoring_ascii_case};
use crate::text_laws::{all_white, law_prefix, law_substring};
use vstd::prelude::*;

verus! {

/// A schema that is asked for is sent, whatever the effort: the settings hold it as it is, and
/// say that the answer is to be JSON.
pub proof fn law_schema_is_sent(effort: Option<ReasoningEffort>, schema: JsonModel)
    ensures
        generation_config_of(effort, Some(schema)) matches Some(config)
            && config.response_json_schema == Some(schema) && config.response_mime_type == Some(
            "application/json"@,
        ),
{
}

/// Where no schema is asked for, the answer is free.
pub proof fn law_no_schema_is_made_up(effort: Option<ReasoningEffort>)
    ensures
        generation_config_of(effort, None) matches Some(config)
            ==> config.response_json_schema is None && config.response_mime_type is None,
{
}

/// The effort asks for little thinking.
pub open spec fn thinks_little(effort: ReasoningEffort) -> bool {
    effort is Minimal || effort is Low
}

/// The effort asks for much thinking.
pub open spec fn thinks_much(effort: ReasoningEffort) -> bool {
    effort is Medium || effort is High || effort is XHigh
}

/// The effort that is asked for is sent, whatever the schema: as one of two levels, and not at
/// all where no thinking is asked for.
pub proof fn law_effort_is_sent(effort: ReasoningEffort, schema: Option<JsonModel>)
    ensures
        thinks_little(effort) ==> thinking_level_of(effort) == Some("LOW"@),
        thinks_much(effort) ==> thinking_level_of(effort) == Some("HIGH"@),
        effort is Off ==> thinking_level_of(effort) is None,
        effort !is Off ==> (generation_config_of(Some(effort), schema) matches Some(config)
            && config.thinking_config matches Some(thinking) && thinking.thinking_level == Some(
            if thinks_little(effort) {
                "LOW"@
            } else {
                "HIGH"@
            },
        ) && thinking.thinking_budget is None && thinking.include_thoughts is None),
        generation_config_of(Some(ReasoningEffort::Off), schema) == generation_config_of(
            None,
            schema,
        ),
        generation_config_of(None, schema) matches Some(config) ==> config.thinking_config is None,
{
}

/// Settings are sent only where something is asked for, and nothing is set that is not.
pub proof fn law_nothing_else_is_set(effort: Option<ReasoningEffort>, schema: Option<JsonModel>)
    ensures
        generation_config_of(effort, schema) is None == (schema is None && (effort is None
            || effort == Some(ReasoningEffort::Off))),
        generation_config_of(effort, schema) matches Some(config) ==> {
            &&& config.max_output_tokens is None
            &&& config.temperature is None
            &&& config.top_p is None
            &&& config.top_k is None
            &&& config.image_config is None
        },
{
}

/// The tools that could be read are sent, all of them and in their order.
pub proof fn law_tools_are_sent(tools: Seq<Option<Tool>>, more: Seq<Option<Tool>>, tool: Tool)
    ensures
        readable_tools(tools + more) == readable_tools(tools) + readable_tools(more),
        readable_tools(seq![Some(tool)]) == seq![tool],
        readable_tools(seq![None::<Tool>]).len() == 0,
    decreases more.len(),
{
    assert(seq![Some(tool)].drop_last() =~= Seq::empty());
    assert(readable_tools(seq![Some(tool)].drop_last()).len() == 0);
    assert(readable_tools(seq![Some(tool)]) =~= seq![tool]);
    assert(seq![None::<Tool>].drop_last() =~= Seq::empty());
    assert(readable_tools(seq![None::<Tool>].drop_last()).len() == 0);
    if more.len() == 0 {
        assert(tools + more =~= tools);
        assert(readable_tools(tools) + readable_tools(more) =~= readable_tools(tools));
    } else {
        law_tools_are_sent(tools, more.drop_last(), tool);
        assert((tools + more).drop_last() =~= tools + more.drop_last());
        assert(readable_tools(tools + more) =~= readable_tools(tools) + readable_tools(more));
    }
}

/// Instructions that say anything are sent as they are, by the user and in one part; white
/// space alone is not sent.
pub proof fn law_instructions_are_sent(instructions: Seq<char>)
    ensures
        all_white(instructions) == system_instruction_of(instructions) is None,
        system_instruction_of(instructions) matches Some(turn) ==> {
            &&& turn.role == "user"@
            &&& turn.parts.len() == 1
            &&& turn.parts[0].text == Some(instructions)
            &&& turn.parts[0].inline_data is None
            &&& turn.parts[0].thought_signature is None
            &&& is_plain_part(turn.parts[0])
        },
{
    law_trimmed_empty(instructions);
}

/// A stream of events is asked for by the address of a provider or by its parameter, and not
/// otherwise.
pub proof fn law_streams_are_asked_for(
    provider: ModelProviderInfo,
    front: Seq<char>,
    rest: Seq<char>,
)
    ensures
        provider.base_url matches Some(url) && url@ == front + "streamGenerateContent"@ + rest
            ==> requests_sse(provider),
        provider.param("alt"@) matches Some(value) && same_ignoring_ascii_case(value, "sse"@)
            ==> requests_sse(provider),
        requests_sse(provider) ==> {
            ||| provider.base_url matches Some(url) && exists|a: Seq<char>, b: Seq<char>| #[trigger]
                crate::text_laws::is_made_of(url@, a, "streamGenerateContent"@, b)
            ||| provider.param("alt"@) matches Some(value) && same_ignoring_ascii_case(
                value,
                "sse"@,
            )
        },
{
    if let Some(url) = provider.base_url {
        law_substring(url@, "streamGenerateContent"@, front, rest);
    }
}

/// An answer is a success where its status is in the two hundreds.
pub proof fn law_success(status: u16)
    ensures
        is_success(status) == (status / 100 == 2),
{
}

/// A model has one address, by its name with or without the word for models before it; what
/// is no such name has none.
pub proof fn law_address_of_a_model(rest: Seq<char>, other: Seq<char>)
    ensures
        generate_url("models/"@ + rest) == Some(
            "https://generativelanguage.googleapis.com/v1beta/"@ + ("models/"@ + rest)
                + ":generateContent"@,
        ),
        generate_url("gemini"@ + rest) == generate_url("models/"@ + ("gemini"@ + rest)),
        generate_url(other) is Some ==> {
            ||| other == "models/"@ + other.skip("models/"@.len() as int)
            ||| other == "gemini"@ + other.skip("gemini"@.len() as int)
        },
{
    law_prefix(other, "models/"@, rest);
    law_prefix(other, "gemini"@, rest);
    law_prefix(other, "models/"@, "gemini"@ + rest);
    reveal_strlit("models/");
    reveal_strlit("gemini");
    let named = "gemini"@ + rest;
    if has_prefix(named, "models/"@) {
        law_prefix(named, "models/"@, rest);
        assert(named[0] == 'g');
        assert(("models/"@ + named.skip("models/"@.len() as int))[0] == 'm');
    }
}

/// What each candidate says is heard, in the order of the candidates.
pub proof fn law_candidates_are_heard(candidates: Vec<Candidate>, i: int)
    requires
        0 <= i < candidates@.len(),
    ensures
        contents_said(Some(candidates)).len() == candidates@.len(),
        contents_said(Some(candidates))[i] is None == candidates@[i].content is None,
        candidates@[i].content matches Some(content) ==> contents_said(
            Some(candidates),
        )[i]->0.parts == content.parts.deep_view() && contents_said(Some(candidates))[i]->0.role
            == content.role@,
        contents_said(None).len() == 0,
{
    assert(contents_said(Some(candidates))[i] == candidates@[i].deep_view());
}

} // verus!
