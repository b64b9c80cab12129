//! Tools that a model may call, and the registry that runs them.
use vstd::prelude::*;
use vstd::string::*;
use crate::json::{
    JsonValue, is_text, json_parse, json_string, keys_are, lemma_lookup_at, parse_json, spec_get, spec_get_str,
};

verus! {

/// One tool call requested by the model.
#[derive(Debug)]
pub struct ToolCall {
    pub id: String,
    pub name: String,
    pub arguments: String,
}

/// The output of one tool call.
#[derive(Debug)]
pub struct ToolResult {
    pub id: String,
    pub output: String,
}

/// A tool: a name, a JSON schema that describes its arguments to the model, and what it
/// answers to given arguments.
pub trait Tool {
    /// The tool's name.
    spec fn spec_name(&self) -> Seq<char>;

    /// The tool's answer to the given argument text.
    spec fn spec_output(&self, arguments: Seq<char>) -> Seq<char>;

    fn name(&self) -> (r: String)
        ensures
            r@ == self.spec_name(),
    ;

    /// The tool's schema, which offers it to the model as a function under its name.
    fn schema(&self) -> (r: JsonValue)
        ensures
            is_function_schema(r, self.spec_name()),
    ;

    fn execute(&self, arguments: &str) -> (r: String)
        ensures
            r@ == self.spec_output(arguments@),
    ;
}

/// Whether `v` offers a function named `name`: its `type` is `function` and its `function`
/// member has that `name`.
pub open spec fn is_function_schema(v: JsonValue, name: Seq<char>) -> bool {
    &&& spec_get_str(v, "type"@) == Some("function"@)
    &&& spec_get(v, "function"@) matches Some(f) && spec_get_str(f, "name"@) == Some(name)
}

/// Whether `v` is the echo tool's schema: a function named `echo` that echoes back the
/// provided text, whose parameters are an object with one required string member, `text`.
pub open spec fn is_echo_schema(v: JsonValue) -> bool {
    &&& v matches JsonValue::Object(es)
    &&& keys_are(es@, seq!["function"@, "type"@])
    &&& is_text(es@[1].1, "function"@)
    &&& es@[0].1 matches JsonValue::Object(fs)
    &&& keys_are(fs@, seq!["description"@, "name"@, "parameters"@])
    &&& is_text(fs@[0].1, "Echoes back the provided text"@)
    &&& is_text(fs@[1].1, "echo"@)
    &&& fs@[2].1 matches JsonValue::Object(ps)
    &&& keys_are(ps@, seq!["properties"@, "required"@, "type"@])
    &&& ps@[1].1 matches JsonValue::Array(req)
    &&& req@.len() == 1
    &&& is_text(req@[0], "text"@)
    &&& is_text(ps@[2].1, "object"@)
    &&& ps@[0].1 matches JsonValue::Object(props)
    &&& keys_are(props@, seq!["text"@])
    &&& props@[0].1 matches JsonValue::Object(t)
    &&& keys_are(t@, seq!["description"@, "type"@])
    &&& is_text(t@[0].1, "Text to echo"@)
    &&& is_text(t@[1].1, "string"@)
}

/// What the echo tool answers to its arguments once they are read as JSON (`None` when they
/// are not JSON): their `text` member, else an error text.
pub open spec fn echo_reply(arguments: Option<JsonValue>) -> Seq<char> {
    match arguments {
        None => "error: invalid arguments"@,
        Some(v) => match spec_get_str(v, "text"@) {
            Some(t) => t,
            None => "error: missing text field"@,
        },
    }
}

/// What the echo tool answers to its argument text.
pub open spec fn echo_output(arguments: Seq<char>) -> Seq<char> {
    echo_reply(
        match json_parse(arguments) {
            Ok(v) => Some(v),
            Err(_) => None,
        },
    )
}

/// Law: the echo tool answers with the text it is given, exactly: arguments that read as
/// JSON with a string member `text` get that string back, whatever it holds; other JSON gets
/// the missing-text error, and text that is not JSON the invalid-arguments error.
pub proof fn law_echo_gives_back_its_text(arguments: Seq<char>, v: JsonValue, t: Seq<char>)
    ensures
        spec_get_str(v, "text"@) == Some(t) ==> echo_reply(Some(v)) == t,
        spec_get_str(v, "text"@) is None ==> echo_reply(Some(v)) == "error: missing text field"@,
        echo_reply(None) == "error: invalid arguments"@,
        json_parse(arguments) == Ok::<JsonValue, Seq<char>>(v) && spec_get_str(v, "text"@) == Some(t)
            ==> echo_output(arguments) == t,
        json_parse(arguments) is Err ==> echo_output(arguments) == "error: invalid arguments"@,
{
}

/// The echo tool's answer to the outcome of reading its arguments as JSON.
pub fn echo_answer(parsed: Result<JsonValue, String>) -> (r: String)
    ensures
        r@ == echo_reply(
            match parsed {
                Ok(v) => Some(v),
                Err(_) => None,
            },
        ),
        parsed is Err ==> r@ == "error: invalid arguments"@,
        forall|t: Seq<char>|
            #[trigger] spec_get_str(parsed->Ok_0, "text"@) == Some(t) && parsed is Ok ==> r@ == t,
        parsed matches Ok(v) && spec_get_str(v, "text"@) is None ==> r@ == "error: missing text field"@,
{
    match parsed {
        Err(_) => String::from_str("error: invalid arguments"),
        Ok(v) => match v.get_str("text") {
            Some(t) => t,
            None => String::from_str("error: missing text field"),
        },
    }
}

/// The tool that answers with the text it is given.
#[derive(Debug)]
pub struct EchoTool;

impl Tool for EchoTool {
    open spec fn spec_name(&self) -> Seq<char> {
        "echo"@
    }

    open spec fn spec_output(&self, arguments: Seq<char>) -> Seq<char> {
        echo_output(arguments)
    }

    fn name(&self) -> (r: String) {
        String::from_str("echo")
    }

    fn schema(&self) -> (r: JsonValue)
        ensures
            is_echo_schema(r),
    {
        let mut text: Vec<(String, JsonValue)> = Vec::new();
        text.push((String::from_str("description"), json_string("Text to echo")));
        text.push((String::from_str("type"), json_string("string")));
        let mut properties: Vec<(String, JsonValue)> = Vec::new();
        properties.push((String::from_str("text"), JsonValue::Object(text)));
        let mut required: Vec<JsonValue> = Vec::new();
        required.push(json_string("text"));
        let mut parameters: Vec<(String, JsonValue)> = Vec::new();
        parameters.push((String::from_str("properties"), JsonValue::Object(properties)));
        parameters.push((String::from_str("required"), JsonValue::Array(required)));
        parameters.push((String::from_str("type"), json_string("object")));
        let mut function: Vec<(String, JsonValue)> = Vec::new();
        function.push(
            (String::from_str("description"), json_string("Echoes back the provided text")),
        );
        function.push((String::from_str("name"), json_string("echo")));
        function.push((String::from_str("parameters"), JsonValue::Object(parameters)));
        let ghost fs = function@;
        let mut schema: Vec<(String, JsonValue)> = Vec::new();
        schema.push((String::from_str("function"), JsonValue::Object(function)));
        schema.push((String::from_str("type"), json_string("function")));
        proof {
            reveal_strlit("description");
            assert("description"@.len() == 11);
            assert("description"@[0] == 'd');
            reveal_strlit("name");
            assert("name"@.len() == 4);
            assert("name"@[0] == 'n');
            reveal_strlit("function");
            assert("function"@.len() == 8);
            assert("function"@[0] == 'f');
            reveal_strlit("type");
            assert("type"@.len() == 4);
            assert("type"@[0] == 't');
            lemma_lookup_at(fs, "name"@, 1);
            lemma_lookup_at(schema@, "function"@, 0);
            lemma_lookup_at(schema@, "type"@, 1);
        }
        JsonValue::Object(schema)
    }

    fn execute(&self, arguments: &str) -> (r: String) {
        echo_answer(parse_json(arguments))
    }
}

/// The tools built into the service. A new tool implements [`Tool`], gets a variant here
/// whose methods call its own, and is registered in [`ToolRegistry::new`].
#[derive(Clone, Copy, PartialEq, Eq, Debug)]
pub enum BuiltinTool {
    Echo,
}

/// The name of a built-in tool.
pub open spec fn builtin_name(t: BuiltinTool) -> Seq<char> {
    match t {
        BuiltinTool::Echo => "echo"@,
    }
}

/// Whether `v` is the schema of the built-in tool `t`.
pub open spec fn is_builtin_schema(t: BuiltinTool, v: JsonValue) -> bool {
    match t {
        BuiltinTool::Echo => is_echo_schema(v),
    }
}

/// The answer of a built-in tool.
pub open spec fn builtin_output(t: BuiltinTool, arguments: Seq<char>) -> Seq<char> {
    match t {
        BuiltinTool::Echo => echo_output(arguments),
    }
}

impl BuiltinTool {
    fn name(&self) -> (r: String)
        ensures
            r@ == builtin_name(*self),
    {
        match self {
            BuiltinTool::Echo => EchoTool.name(),
        }
    }

    fn schema(&self) -> (r: JsonValue)
        ensures
            is_function_schema(r, builtin_name(*self)),
            is_builtin_schema(*self, r),
    {
        match self {
            BuiltinTool::Echo => EchoTool.schema(),
        }
    }

    fn execute(&self, arguments: &str) -> (r: String)
        ensures
            r@ == builtin_output(*self, arguments@),
    {
        match self {
            BuiltinTool::Echo => EchoTool.execute(arguments),
        }
    }
}

/// The position of the first tool named `name`.
pub open spec fn tool_position(tools: Seq<BuiltinTool>, name: Seq<char>) -> Option<int> {
    if exists|i: int| 0 <= i < tools.len() && builtin_name(tools[i]) == name {
        Some(
            choose|i: int|
                0 <= i < tools.len() && builtin_name(tools[i]) == name && forall|j: int|
                    0 <= j < i ==> builtin_name(#[trigger] tools[j]) != name,
        )
    } else {
        None
    }
}

/// What the registry `tools` answers to a call of `name` with `arguments`.
pub open spec fn registry_output(tools: Seq<BuiltinTool>, name: Seq<char>, arguments: Seq<char>) -> Seq<
    char,
> {
    match tool_position(tools, name) {
        Some(i) => builtin_output(tools[i], arguments),
        None => "error: unknown tool '"@ + name + "'"@,
    }
}

/// Law: the built-in registry answers a call of `echo` as the echo tool does, and a call of
/// any other name with an error text that names it.
pub proof fn law_default_registry_answers(name: Seq<char>, arguments: Seq<char>)
    ensures
        name == "echo"@ ==> registry_output(seq![BuiltinTool::Echo], name, arguments) == echo_output(
            arguments,
        ),
        name != "echo"@ ==> registry_output(seq![BuiltinTool::Echo], name, arguments) == "error: unknown tool '"@
            + name + "'"@,
{
    let tools = seq![BuiltinTool::Echo];
    if name == "echo"@ {
        assert(builtin_name(tools[0]) == name);
    }
}

/// Law: a registry answers a call with the first of its tools that bears the call's name,
/// and a call of a name that no tool bears with an error text that names it.
pub proof fn law_registry_answers_by_name(tools: Seq<BuiltinTool>, name: Seq<char>, arguments: Seq<char>, i: int)
    ensures
        (forall|j: int| 0 <= j < tools.len() ==> builtin_name(#[trigger] tools[j]) != name) ==> registry_output(
            tools,
            name,
            arguments,
        ) == "error: unknown tool '"@ + name + "'"@,
        (0 <= i < tools.len() && builtin_name(tools[i]) == name && forall|j: int|
            0 <= j < i ==> builtin_name(#[trigger] tools[j]) != name) ==> registry_output(tools, name, arguments)
            == builtin_output(tools[i], arguments),
        builtin_output(BuiltinTool::Echo, arguments) == echo_output(arguments),
{
    if 0 <= i < tools.len() && builtin_name(tools[i]) == name && forall|j: int|
        0 <= j < i ==> builtin_name(#[trigger] tools[j]) != name {
        let k = choose|k: int|
            0 <= k < tools.len() && builtin_name(tools[k]) == name && forall|j: int|
                0 <= j < k ==> builtin_name(#[trigger] tools[j]) != name;
        assert(k == i) by {
            if k < i {
                assert(builtin_name(tools[k]) != name);
            } else if k > i {
                assert(builtin_name(tools[i]) != name);
            }
        }
    }
}

/// The tools that the model may call, each under its name.
#[derive(Debug)]
pub struct ToolRegistry {
    tools: Vec<BuiltinTool>,
}

impl ToolRegistry {
    /// The registered tools, in registration order.
    pub closed spec fn tools(&self) -> Seq<BuiltinTool> {
        self.tools@
    }

    /// The registry of the built-in tools: the echo tool.
    pub fn new() -> (r: Self)
        ensures
            r.tools() == seq![BuiltinTool::Echo],
    {
        let mut tools: Vec<BuiltinTool> = Vec::new();
        tools.push(BuiltinTool::Echo);
        ToolRegistry { tools }
    }

    /// A registry of the same tools.
    pub fn duplicate(&self) -> (r: Self)
        ensures
            r.tools() == self.tools(),
    {
        let mut tools: Vec<BuiltinTool> = Vec::new();
        let mut i: usize = 0;
        while i < self.tools.len()
            invariant
                i <= self.tools@.len(),
                tools@ == self.tools@.subrange(0, i as int),
            decreases self.tools@.len() - i,
        {
            tools.push(self.tools[i]);
            i = i + 1;
        }
        proof {
            assert(self.tools@.subrange(0, self.tools@.len() as int) =~= self.tools@);
        }
        ToolRegistry { tools }
    }

    /// The schema of each tool, in registration order.
    pub fn get_schemas(&self) -> (r: Vec<JsonValue>)
        ensures
            r@.len() == self.tools().len(),
            forall|i: int| 0 <= i < r@.len() ==> is_function_schema(#[trigger] r@[i], builtin_name(self.tools()[i])),
            forall|i: int| 0 <= i < r@.len() ==> is_builtin_schema(self.tools()[i], #[trigger] r@[i]),
    {
        let mut r: Vec<JsonValue> = Vec::new();
        let mut i: usize = 0;
        while i < self.tools.len()
            invariant
                i <= self.tools@.len(),
                r@.len() == i,
                forall|k: int| 0 <= k < i ==> is_function_schema(#[trigger] r@[k], builtin_name(self.tools@[k])),
                forall|k: int| 0 <= k < i ==> is_builtin_schema(self.tools@[k], #[trigger] r@[k]),
            decreases self.tools@.len() - i,
        {
            r.push(self.tools[i].schema());
            i = i + 1;
        }
        r
    }

    /// Runs one call: the tool of that name answers; a call of an unknown tool is answered
    /// with an error text that names it.
    pub fn execute(&self, call: &ToolCall) -> (r: ToolResult)
        ensures
            r.id@ == call.id@,
            r.output@ == registry_output(self.tools(), call.name@, call.arguments@),
    {
        let mut i: usize = 0;
        while i < self.tools.len()
            invariant
                i <= self.tools@.len(),
                forall|j: int| 0 <= j < i ==> builtin_name(#[trigger] self.tools@[j]) != call.name@,
            decreases self.tools@.len() - i,
        {
            let t = self.tools[i];
            let n = t.name();
            if n == call.name {
                proof {
                    let k = choose|k: int|
                        0 <= k < self.tools@.len() && builtin_name(self.tools@[k]) == call.name@
                            && forall|j: int|
                            0 <= j < k ==> builtin_name(#[trigger] self.tools@[j]) != call.name@;
                    assert(k == i) by {
                        if k > i {
                            assert(builtin_name(self.tools@[i as int]) == call.name@);
                        }
                    }
                }
                let output = t.execute(call.arguments.as_str());
                return ToolResult { id: call.id.clone(), output };
            }
            i = i + 1;
        }
        let output = String::from_str("error: unknown tool '").concat(call.name.as_str()).concat("'");
        ToolResult { id: call.id.clone(), output }
    }
}

} // verus!
