//! The tool with which a model keeps a plan.
use vstd::prelude::*;
use vstd::string::*;
use crate::plan_tool::UpdatePlanArgs;
use crate::protocol::FunctionCallOutputContentItem;

verus! {

/// What a tool takes, in the words of JSON Schema. The properties of an object stand in the
/// order of their names.
#[derive(Debug, PartialEq)]
pub enum JsonSchema {
    String { description: Option<String> },
    Array { items: Box<JsonSchema>, description: Option<String> },
    Object {
        properties: Vec<(String, JsonSchema)>,
        required: Option<Vec<String>>,
        additional_properties: Option<bool>,
    },
}

/// A tool that a model may call.
#[derive(Debug, PartialEq)]
pub struct ResponsesApiTool {
    pub name: String,
    pub description: String,
    pub strict: bool,
    pub parameters: JsonSchema,
}

/// How a tool is called.
#[derive(Debug, Clone, Copy, PartialEq, Eq, Structural)]
pub enum ToolKind {
    Function,
    Mcp,
}

/// What a tool was called with.
#[derive(Debug, Clone, PartialEq, Eq)]
pub enum ToolPayload {
    Function { arguments: String },
    Custom { input: String },
    Other,
}

/// What a tool gave.
#[derive(Debug, Clone, PartialEq)]
pub struct ToolOutput {
    pub content: String,
    pub content_items: Option<Vec<FunctionCallOutputContentItem>>,
    pub success: Option<bool>,
}

/// Why a call failed, in words for the model.
#[derive(Debug, Clone, PartialEq, Eq)]
pub enum FunctionCallError {
    RespondToModel(String),
}

impl DeepView for FunctionCallError {
    type V = Seq<char>;

    open spec fn deep_view(&self) -> Seq<char> {
        match self {
            FunctionCallError::RespondToModel(message) => message@,
        }
    }
}

/// The arguments of a call of a function, or the words in which any other call is refused.
pub open spec fn arguments_in(payload: ToolPayload) -> Result<Seq<char>, Seq<char>> {
    match payload {
        ToolPayload::Function { arguments } => Ok(arguments@),
        _ => Err("update_plan handler received unsupported payload"@),
    }
}

/// The handler of the plan tool.
pub struct PlanHandler;

impl PlanHandler {
    /// The plan tool is called as a function.
    pub fn kind(&self) -> (kind: ToolKind)
        ensures
            kind is Function,
    {
        ToolKind::Function
    }

    /// The arguments of a call; one that is no call of a function is refused.
    pub fn arguments_of(&self, payload: ToolPayload) -> (arguments: Result<
        String,
        FunctionCallError,
    >)
        ensures
            (match (payload, arguments) {
                (ToolPayload::Function { arguments: given }, Ok(text)) => text == given,
                (ToolPayload::Function { .. }, Err(_)) => false,
                (_, Ok(_)) => false,
                (_, Err(err)) => err.deep_view()
                    == "update_plan handler received unsupported payload"@,
            }),
            arguments_in(payload) == (match arguments {
                Ok(text) => Ok(text@),
                Err(err) => Err(err.deep_view()),
            }),
    {
        match payload {
            ToolPayload::Function { arguments } => Ok(arguments),
            _ => Err(
                FunctionCallError::RespondToModel(
                    "update_plan handler received unsupported payload".to_owned(),
                ),
            ),
        }
    }

    /// Answer a call: the plan is handed out to be shown, as it was given. The plan comes as it
    /// was read, or with the reason why it could not be.
    pub fn handle(&self, parsed: Result<UpdatePlanArgs, String>) -> (handled: Result<
        (UpdatePlanArgs, ToolOutput),
        FunctionCallError,
    >)
        ensures
            (match (parsed, handled) {
                (Ok(plan), Ok((shown, output))) => {
                    &&& shown == plan
                    &&& output.content@ == "Plan updated"@
                    &&& output.content_items is None
                    &&& output.success == Some(true)
                },
                (Err(reason), Err(err)) => err.deep_view()
                    == "failed to parse function arguments: "@ + reason@,
                _ => false,
            }),
            plan_reply(parsed) == (match handled {
                Ok((shown, output)) => Ok(shown),
                Err(err) => Err(err.deep_view()),
            }),
    {
        match handle_update_plan(parsed) {
            Ok((plan, content)) => Ok(
                (plan, ToolOutput { content, content_items: None, success: Some(true) }),
            ),
            Err(err) => Err(err),
        }
    }
}

/// This function doesn't do anything useful. However, it gives the model a structured way to
/// record its plan that clients can read and render.
/// So it's the _inputs_ to this function that are useful to clients, not the outputs.
pub fn handle_update_plan(parsed: Result<UpdatePlanArgs, String>) -> (handled: Result<
    (UpdatePlanArgs, String),
    FunctionCallError,
>)
    ensures
        (match (parsed, handled) {
            (Ok(plan), Ok((shown, content))) => shown == plan && content@ == "Plan updated"@,
            (Err(reason), Err(err)) => err.deep_view() == "failed to parse function arguments: "@
                + reason@,
            _ => false,
        }),
        plan_reply(parsed) == (match handled {
            Ok((shown, content)) => Ok(shown),
            Err(err) => Err(err.deep_view()),
        }),
{
    let args: UpdatePlanArgs = match parse_update_plan_arguments(parsed) {
        Ok(args) => args,
        Err(err) => return Err(err),
    };
    Ok((args, "Plan updated".to_owned()))
}

/// The words in which the model is told why a plan could not be read.
pub open spec fn refusal_words(reason: Seq<char>) -> Seq<char> {
    "failed to parse function arguments: "@ + reason
}

/// What a call with this plan, or with the reason why there is none, is answered: the plan as
/// it is, or the words of the refusal.
pub open spec fn plan_reply(parsed: Result<UpdatePlanArgs, String>) -> Result<
    UpdatePlanArgs,
    Seq<char>,
> {
    match parsed {
        Ok(plan) => Ok(plan),
        Err(reason) => Err(refusal_words(reason@)),
    }
}

/// The plan that was read, or the words in which the model is told why it could not be.
pub fn parse_update_plan_arguments(parsed: Result<UpdatePlanArgs, String>) -> (plan: Result<
    UpdatePlanArgs,
    FunctionCallError,
>)
    ensures
        (match (parsed, plan) {
            (Ok(given), Ok(taken)) => taken == given,
            (Err(reason), Err(err)) => err.deep_view() == "failed to parse function arguments: "@
                + reason@,
            _ => false,
        }),
        plan_reply(parsed) == (match plan {
            Ok(taken) => Ok(taken),
            Err(err) => Err(err.deep_view()),
        }),
{
    match parsed {
        Ok(args) => Ok(args),
        Err(reason) => {
            let mut message: String = "failed to parse function arguments: ".to_owned();
            message.append(reason.as_str());
            Err(FunctionCallError::RespondToModel(message))
        },
    }
}

/// The schema of a string with a description.
pub open spec fn is_string_schema(schema: JsonSchema, description: Seq<char>) -> bool {
    schema matches JsonSchema::String { description: given } && given.deep_view() == Some(
        description,
    )
}

/// The schema of a list of steps: each with what to do and how far it has come, and the tool
/// for it where one is named.
pub open spec fn is_action_plan_schema(schema: JsonSchema) -> bool {
    &&& schema matches JsonSchema::Array { items, description }
    &&& description.deep_view() == Some("Action steps with their intended tool and status"@)
    &&& *items matches JsonSchema::Object { properties, required, additional_properties }
    &&& properties@.len() == 3
    &&& properties@[0].0@ == "status"@
    &&& is_string_schema(properties@[0].1, "One of: pending, in_progress, completed"@)
    &&& properties@[1].0@ == "step"@
    &&& is_string_schema(properties@[1].1, "The specific step to take."@)
    &&& properties@[2].0@ == "tool"@
    &&& is_string_schema(properties@[2].1, "Which tool to use for this step."@)
    &&& required.deep_view() == Some(seq!["step"@, "status"@])
    &&& additional_properties == Some(false)
}

/// The schema of a plan: the steps, under either of two names, and what there is to say.
pub open spec fn is_plan_schema(schema: JsonSchema) -> bool {
    &&& schema matches JsonSchema::Object { properties, required, additional_properties }
    &&& properties@.len() == 3
    &&& properties@[0].0@ == "action_plan"@
    &&& is_action_plan_schema(properties@[0].1)
    &&& properties@[1].0@ == "explanation"@
    &&& is_string_schema(properties@[1].1, "Optional context or notes."@)
    &&& properties@[2].0@ == "plan"@
    &&& is_action_plan_schema(properties@[2].1)
    &&& required.deep_view() == Some(seq!["action_plan"@])
    &&& additional_properties == Some(false)
}

fn string_schema(description: &str) -> (schema: JsonSchema)
    ensures
        is_string_schema(schema, description@),
{
    JsonSchema::String { description: Some(description.to_owned()) }
}

fn action_plan_schema() -> (schema: JsonSchema)
    ensures
        is_action_plan_schema(schema),
{
    let mut properties: Vec<(String, JsonSchema)> = Vec::new();
    properties.push(
        ("status".to_owned(), string_schema("One of: pending, in_progress, completed")),
    );
    properties.push(("step".to_owned(), string_schema("The specific step to take.")));
    properties.push(("tool".to_owned(), string_schema("Which tool to use for this step.")));
    let mut required: Vec<String> = Vec::new();
    required.push("step".to_owned());
    required.push("status".to_owned());
    proof {
        assert(required.deep_view() =~= seq!["step"@, "status"@]);
    }
    JsonSchema::Array {
        items: Box::new(
            JsonSchema::Object {
                properties,
                required: Some(required),
                additional_properties: Some(false),
            },
        ),
        description: Some("Action steps with their intended tool and status".to_owned()),
    }
}

/// The tool is the plan tool, as the model is told of it.
pub open spec fn is_plan_tool(tool: ResponsesApiTool) -> bool {
    &&& tool.name@ == "update_plan"@
    &&& tool.description@
        == "Updates the task plan with structured thinking.\nRequires an action plan of steps with their tools and status.\nAt most one step can be in_progress at a time."@
    &&& !tool.strict
    &&& is_plan_schema(tool.parameters)
}

/// The plan tool, as the model is told of it.
pub fn plan_tool() -> (tool: ResponsesApiTool)
    ensures
        tool.name@ == "update_plan"@,
        tool.description@
            == "Updates the task plan with structured thinking.\nRequires an action plan of steps with their tools and status.\nAt most one step can be in_progress at a time."@,
        !tool.strict,
        is_plan_schema(tool.parameters),
        is_plan_tool(tool),
{
    let mut properties: Vec<(String, JsonSchema)> = Vec::new();
    properties.push(("action_plan".to_owned(), action_plan_schema()));
    properties.push(("explanation".to_owned(), string_schema("Optional context or notes.")));
    properties.push(("plan".to_owned(), action_plan_schema()));
    let mut required: Vec<String> = Vec::new();
    required.push("action_plan".to_owned());
    proof {
        assert(required.deep_view() =~= seq!["action_plan"@]);
    }
    ResponsesApiTool {
        name: "update_plan".to_owned(),
        description:
            "Updates the task plan with structured thinking.\nRequires an action plan of steps with their tools and status.\nAt most one step can be in_progress at a time.".to_owned(),
        strict: false,
        parameters: JsonSchema::Object {
            properties,
            required: Some(required),
            additional_properties: Some(false),
        },
    }
}

} // verus!
