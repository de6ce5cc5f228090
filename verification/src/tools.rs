//! The agent's tools: which tool a call names and with which arguments, and
//! how each tool's outcome is put into words for the model.
use vstd::prelude::*;
use crate::text;
use crate::text::{
    chars_of, concat2, extend_chars, push_str, signed_decimal_chars, string_of, trim_chars,
};
use crate::keys::same_chars;
use crate::encoding::lossy_text;

verus! {

/// An argument of a tool call, as far as the tools read it: a string, an
/// integer that fits in `i64`, or anything else.
#[derive(Clone, Debug)]
pub enum ArgValue {
    Text(String),
    Integer(i64),
    Other,
}

/// The arguments of a tool call: the members of the JSON object that the
/// model sent, in order (empty when it sent no object).
#[derive(Clone, Debug)]
pub struct ToolArgs {
    pub entries: Vec<(String, ArgValue)>,
}

/// What an argument says.
pub enum ArgView {
    Text(Seq<char>),
    Integer(i64),
    Other,
}

impl View for ArgValue {
    type V = ArgView;

    open spec fn view(&self) -> ArgView {
        match self {
            ArgValue::Text(s) => ArgView::Text(s@),
            ArgValue::Integer(n) => ArgView::Integer(*n),
            ArgValue::Other => ArgView::Other,
        }
    }
}

impl View for ToolArgs {
    type V = Seq<(Seq<char>, ArgView)>;

    open spec fn view(&self) -> Seq<(Seq<char>, ArgView)> {
        Seq::new(self.entries@.len(), |i: int| (self.entries@[i].0@, self.entries@[i].1@))
    }
}

/// The members of the JSON object written in `text`, as serde_json's map
/// holds them: a string value as its text, a number that is an integer
/// fitting in `i64` as that integer, any other value as `Other`; no members
/// when `text` is no JSON object.
pub uninterp spec fn json_object_args(text: Seq<char>) -> Seq<(Seq<char>, ArgView)>;

/// `serde_json::from_str` into a JSON value, read as the arguments of a tool
/// call. Claimed: the members are those of the object written in the text
/// (named, not described: what serde_json takes as JSON is left to it).
#[verifier::external_body]
pub(crate) fn parse_tool_args(arguments: &str) -> (a: ToolArgs)
    ensures
        a@ == json_object_args(arguments@),
{
    let value: serde_json::Value = serde_json::from_str(arguments).unwrap_or_default();
    let mut entries = Vec::new();
    if let serde_json::Value::Object(map) = value {
        for (k, v) in map {
            let arg = match v {
                serde_json::Value::String(s) => ArgValue::Text(s),
                other => match other.as_i64() {
                    Some(n) => ArgValue::Integer(n),
                    None => ArgValue::Other,
                },
            };
            entries.push((k, arg));
        }
    }
    ToolArgs { entries }
}

/// The value of the first member named `key`, if any.
pub open spec fn lookup(entries: Seq<(Seq<char>, ArgView)>, key: Seq<char>) -> Option<ArgView>
    decreases entries.len(),
{
    if entries.len() == 0 {
        None
    } else if entries[0].0 == key {
        Some(entries[0].1)
    } else {
        lookup(entries.drop_first(), key)
    }
}

/// A string argument; the empty string when it is missing or not a string.
pub open spec fn arg_text(args: Seq<(Seq<char>, ArgView)>, key: Seq<char>) -> Seq<char> {
    match lookup(args, key) {
        Some(ArgView::Text(s)) => s,
        _ => Seq::empty(),
    }
}

/// An integer argument cut to 32 bits; 0 when it is missing or no integer.
pub open spec fn arg_int(args: Seq<(Seq<char>, ArgView)>, key: Seq<char>) -> i32 {
    match lookup(args, key) {
        Some(ArgView::Integer(n)) => n as i32,
        _ => 0,
    }
}

/// The argument named `key`.
fn find_arg(args: &ToolArgs, key: &str) -> (r: Option<usize>)
    ensures
        match r {
            Some(i) => i < args.entries@.len() && lookup(args@, key@) == Some(
                args.entries@[i as int].1@,
            ),
            None => lookup(args@, key@) is None,
        },
{
    let k = chars_of(key);
    let mut i: usize = 0;
    assert(args@.skip(0) =~= args@);
    while i < args.entries.len()
        invariant
            0 <= i <= args.entries.len(),
            k@ == key@,
            lookup(args@, key@) == lookup(args@.skip(i as int), key@),
        decreases args.entries.len() - i,
    {
        let name = chars_of(args.entries[i].0.as_str());
        let ghost rest = args@.skip(i as int);
        assert(rest[0] == args@[i as int]);
        assert(rest.drop_first() =~= args@.skip(i + 1));
        if same_chars(&name, &k) {
            return Some(i);
        }
        i = i + 1;
    }
    None
}

/// `args[key].as_str().unwrap_or("")`.
pub fn text_arg(args: &ToolArgs, key: &str) -> (s: String)
    ensures
        s@ == arg_text(args@, key@),
{
    match find_arg(args, key) {
        Some(i) => match &args.entries[i].1 {
            ArgValue::Text(s) => s.clone(),
            _ => String::new(),
        },
        None => String::new(),
    }
}

/// `args[key].as_i64().unwrap_or(0) as i32`.
pub fn int_arg(args: &ToolArgs, key: &str) -> (n: i32)
    ensures
        n == arg_int(args@, key@),
{
    match find_arg(args, key) {
        Some(i) => match &args.entries[i].1 {
            ArgValue::Integer(n) => *n as i32,
            _ => 0,
        },
        None => 0,
    }
}

/// A tool call, routed to the tool it names with the arguments that tool
/// reads. `S` is `String` for calls and `Seq<char>` in specifications.
#[derive(Clone, Debug)]
pub enum ToolRequest<S> {
    RunPowershell { command: S },
    OpenApp { app: S, url: S },
    ListSkills,
    CreateSkill { name: S, description: S, parameters: S, powershell_code: S },
    UseSkill { name: S, params: S },
    WebSearch { query: S },
    WebFetch { url: S },
    MouseClick { x: i32, y: i32, button: S },
    MouseMove { x: i32, y: i32 },
    TypeText { text: S },
    KeyCombo { keys: S },
    TakeScreenshot,
    Think { thought: S },
    Unknown { name: S },
}

impl View for ToolRequest<String> {
    type V = ToolRequest<Seq<char>>;

    open spec fn view(&self) -> ToolRequest<Seq<char>> {
        match self {
            ToolRequest::RunPowershell { command } => ToolRequest::RunPowershell {
                command: command@,
            },
            ToolRequest::OpenApp { app, url } => ToolRequest::OpenApp { app: app@, url: url@ },
            ToolRequest::ListSkills => ToolRequest::ListSkills,
            ToolRequest::CreateSkill { name, description, parameters, powershell_code } =>
                ToolRequest::CreateSkill {
                name: name@,
                description: description@,
                parameters: parameters@,
                powershell_code: powershell_code@,
            },
            ToolRequest::UseSkill { name, params } => ToolRequest::UseSkill {
                name: name@,
                params: params@,
            },
            ToolRequest::WebSearch { query } => ToolRequest::WebSearch { query: query@ },
            ToolRequest::WebFetch { url } => ToolRequest::WebFetch { url: url@ },
            ToolRequest::MouseClick { x, y, button } => ToolRequest::MouseClick {
                x: *x,
                y: *y,
                button: button@,
            },
            ToolRequest::MouseMove { x, y } => ToolRequest::MouseMove { x: *x, y: *y },
            ToolRequest::TypeText { text } => ToolRequest::TypeText { text: text@ },
            ToolRequest::KeyCombo { keys } => ToolRequest::KeyCombo { keys: keys@ },
            ToolRequest::TakeScreenshot => ToolRequest::TakeScreenshot,
            ToolRequest::Think { thought } => ToolRequest::Think { thought: thought@ },
            ToolRequest::Unknown { name } => ToolRequest::Unknown { name: name@ },
        }
    }
}

/// The request for a call of the tool `name` with `args`.
pub open spec fn tool_request(name: Seq<char>, args: Seq<(Seq<char>, ArgView)>) -> ToolRequest<Seq<char>> {
    if name == "take_screenshot"@ {
        ToolRequest::TakeScreenshot
    } else if name == "think"@ {
        ToolRequest::Think { thought: arg_text(args, "thought"@) }
    } else if name == "run_powershell"@ {
        ToolRequest::RunPowershell { command: arg_text(args, "command"@) }
    } else if name == "open_app"@ {
        ToolRequest::OpenApp { app: arg_text(args, "app"@), url: arg_text(args, "url"@) }
    } else if name == "list_skills"@ {
        ToolRequest::ListSkills
    } else if name == "create_skill"@ {
        ToolRequest::CreateSkill {
            name: arg_text(args, "name"@),
            description: arg_text(args, "description"@),
            parameters: arg_text(args, "parameters"@),
            powershell_code: arg_text(args, "powershell_code"@),
        }
    } else if name == "use_skill"@ {
        ToolRequest::UseSkill { name: arg_text(args, "name"@), params: arg_text(args, "params"@) }
    } else if name == "web_search"@ {
        ToolRequest::WebSearch { query: arg_text(args, "query"@) }
    } else if name == "web_fetch"@ {
        ToolRequest::WebFetch { url: arg_text(args, "url"@) }
    } else if name == "mouse_click"@ {
        ToolRequest::MouseClick {
            x: arg_int(args, "x"@),
            y: arg_int(args, "y"@),
            button: arg_text(args, "button"@),
        }
    } else if name == "mouse_move"@ {
        ToolRequest::MouseMove { x: arg_int(args, "x"@), y: arg_int(args, "y"@) }
    } else if name == "type_text"@ {
        ToolRequest::TypeText { text: arg_text(args, "text"@) }
    } else if name == "key_combo"@ {
        ToolRequest::KeyCombo { keys: arg_text(args, "keys"@) }
    } else {
        ToolRequest::Unknown { name }
    }
}

/// Whether `name` is the literal `lit`.
fn is_named(name: &Vec<char>, lit: &str) -> (b: bool)
    ensures
        b == (name@ == lit@),
{
    let l = chars_of(lit);
    same_chars(name, &l)
}

/// Routes a tool call to the tool it names, reading the arguments that tool
/// takes: missing or non-string text arguments are empty, missing or
/// non-integer coordinates are 0.
pub fn route_tool(name: &str, args: &ToolArgs) -> (r: ToolRequest<String>)
    ensures
        r@ == tool_request(name@, args@),
{
    let n = chars_of(name);
    if is_named(&n, "take_screenshot") {
        ToolRequest::TakeScreenshot
    } else if is_named(&n, "think") {
        ToolRequest::Think { thought: text_arg(args, "thought") }
    } else if is_named(&n, "run_powershell") {
        ToolRequest::RunPowershell { command: text_arg(args, "command") }
    } else if is_named(&n, "open_app") {
        ToolRequest::OpenApp { app: text_arg(args, "app"), url: text_arg(args, "url") }
    } else if is_named(&n, "list_skills") {
        ToolRequest::ListSkills
    } else if is_named(&n, "create_skill") {
        ToolRequest::CreateSkill {
            name: text_arg(args, "name"),
            description: text_arg(args, "description"),
            parameters: text_arg(args, "parameters"),
            powershell_code: text_arg(args, "powershell_code"),
        }
    } else if is_named(&n, "use_skill") {
        ToolRequest::UseSkill { name: text_arg(args, "name"), params: text_arg(args, "params") }
    } else if is_named(&n, "web_search") {
        ToolRequest::WebSearch { query: text_arg(args, "query") }
    } else if is_named(&n, "web_fetch") {
        ToolRequest::WebFetch { url: text_arg(args, "url") }
    } else if is_named(&n, "mouse_click") {
        ToolRequest::MouseClick {
            x: int_arg(args, "x"),
            y: int_arg(args, "y"),
            button: text_arg(args, "button"),
        }
    } else if is_named(&n, "mouse_move") {
        ToolRequest::MouseMove { x: int_arg(args, "x"), y: int_arg(args, "y") }
    } else if is_named(&n, "type_text") {
        ToolRequest::TypeText { text: text_arg(args, "text") }
    } else if is_named(&n, "key_combo") {
        ToolRequest::KeyCombo { keys: text_arg(args, "keys") }
    } else {
        ToolRequest::Unknown { name: string_of(&n) }
    }
}

/// What a tool call hands back to the model: text, or the path of a fresh
/// screenshot that is shown to the model as an image.
#[derive(Clone, Debug)]
pub enum ToolResult {
    Text(String),
    Screenshot(String),
}

/// The text for the model when a tool ends with `Ok(text)` or `Err(error)`.
pub open spec fn outcome_text(r: Result<Seq<char>, Seq<char>>) -> Seq<char> {
    match r {
        Ok(t) => t,
        Err(e) => "Error: "@ + e,
    }
}

/// The view of a tool outcome.
pub open spec fn result_view(r: Result<String, String>) -> Result<Seq<char>, Seq<char>> {
    match r {
        Ok(t) => Ok(t@),
        Err(e) => Err(e@),
    }
}

/// The result of a text tool: its output, or `Error: ` and the error.
pub fn text_result(r: Result<String, String>) -> (t: ToolResult)
    ensures
        t matches ToolResult::Text(s) && s@ == outcome_text(result_view(r)),
{
    match r {
        Ok(s) => ToolResult::Text(s),
        Err(e) => ToolResult::Text(concat2("Error: ", e.as_str())),
    }
}

/// The result of the screenshot tool: the image path, or
/// `Screenshot failed: ` and the error.
pub fn screenshot_result(r: Result<String, String>) -> (t: ToolResult)
    ensures
        match r {
            Ok(p) => t matches ToolResult::Screenshot(q) && q@ == p@,
            Err(e) => t matches ToolResult::Text(s) && s@ == "Screenshot failed: "@ + e@,
        },
{
    match r {
        Ok(p) => ToolResult::Screenshot(p),
        Err(e) => ToolResult::Text(concat2("Screenshot failed: ", e.as_str())),
    }
}

/// The result of the `think` tool.
pub fn thought_result() -> (t: ToolResult)
    ensures
        t matches ToolResult::Text(s) && s@ == "Thought noted."@,
{
    ToolResult::Text(string_of(&chars_of("Thought noted.")))
}

/// The error for a call of a tool that does not exist.
pub fn unknown_tool_error(name: &str) -> (e: String)
    ensures
        e@ == "Unknown tool: "@ + name@,
{
    concat2("Unknown tool: ", name)
}

/// The report of a command that exited successfully, from its trimmed
/// output and error text.
pub open spec fn success_text(out: Seq<char>, err: Seq<char>) -> Seq<char> {
    let o = text::trim(out);
    let e = text::trim(err);
    if o.len() == 0 && e.len() == 0 {
        "Done (no output)."@
    } else if o.len() == 0 {
        "(stderr) "@ + e
    } else if e.len() == 0 {
        o
    } else {
        o + "\n(stderr) "@ + e
    }
}

/// The exit code as text; `-1` when the process has none.
pub open spec fn exit_code_text(code: Option<i32>) -> Seq<char> {
    text::signed_decimal(
        match code {
            Some(c) => c as int,
            None => -1,
        },
    )
}

/// The outcome of a PowerShell command: on failure the trimmed error text,
/// else the exit code with the trimmed output, else the exit code alone; on
/// success the report of [`success_text`].
pub open spec fn command_result(out: Seq<char>, err: Seq<char>, success: bool, code: Option<i32>) -> Result<
    Seq<char>,
    Seq<char>,
> {
    if !success {
        if text::trim(err).len() > 0 {
            Err(text::trim(err))
        } else if text::trim(out).len() > 0 {
            Err("Exit code "@ + exit_code_text(code) + ": "@ + text::trim(out))
        } else {
            Err("Command failed with exit code "@ + exit_code_text(code))
        }
    } else {
        Ok(success_text(out, err))
    }
}

/// The outcome of running a saved skill: on failure the trimmed error text,
/// or the trimmed output when there is no error text; on success the report
/// of [`success_text`].
pub open spec fn skill_run_result(out: Seq<char>, err: Seq<char>, success: bool) -> Result<
    Seq<char>,
    Seq<char>,
> {
    if !success {
        if text::trim(err).len() > 0 {
            Err(text::trim(err))
        } else {
            Err(text::trim(out))
        }
    } else {
        Ok(success_text(out, err))
    }
}

/// The report of a successful command.
pub fn success_report(out: &str, err: &str) -> (r: String)
    ensures
        r@ == success_text(out@, err@),
{
    let o = trim_chars(&chars_of(out));
    let e = trim_chars(&chars_of(err));
    if o.len() == 0 && e.len() == 0 {
        string_of(&chars_of("Done (no output)."))
    } else if o.len() == 0 {
        let mut v = chars_of("(stderr) ");
        extend_chars(&mut v, &e);
        string_of(&v)
    } else if e.len() == 0 {
        string_of(&o)
    } else {
        let mut v = o;
        push_str(&mut v, "\n(stderr) ");
        extend_chars(&mut v, &e);
        string_of(&v)
    }
}

fn exit_code_chars(code: Option<i32>) -> (v: Vec<char>)
    ensures
        v@ == exit_code_text(code),
{
    let c: i64 = match code {
        Some(c) => c as i64,
        None => -1,
    };
    signed_decimal_chars(c)
}

/// The outcome of a PowerShell command from its decoded output, error text,
/// success flag and exit code.
pub fn command_outcome(out: &str, err: &str, success: bool, code: Option<i32>) -> (r: Result<
    String,
    String,
>)
    ensures
        result_view(r) == command_result(out@, err@, success, code),
{
    if !success {
        let e = trim_chars(&chars_of(err));
        let o = trim_chars(&chars_of(out));
        if e.len() > 0 {
            Err(string_of(&e))
        } else if o.len() > 0 {
            let mut v = chars_of("Exit code ");
            let c = exit_code_chars(code);
            extend_chars(&mut v, &c);
            push_str(&mut v, ": ");
            extend_chars(&mut v, &o);
            Err(string_of(&v))
        } else {
            let mut v = chars_of("Command failed with exit code ");
            let c = exit_code_chars(code);
            extend_chars(&mut v, &c);
            Err(string_of(&v))
        }
    } else {
        Ok(success_report(out, err))
    }
}

/// The outcome of a PowerShell command from the raw bytes it wrote, decoded
/// as lossy UTF-8.
pub fn powershell_outcome(stdout: &[u8], stderr: &[u8], success: bool, code: Option<i32>) -> (r:
    Result<String, String>)
    ensures
        result_view(r) == command_result(
            crate::encoding::utf8_lossy(stdout@),
            crate::encoding::utf8_lossy(stderr@),
            success,
            code,
        ),
{
    let out = lossy_text(stdout);
    let err = lossy_text(stderr);
    command_outcome(out.as_str(), err.as_str(), success, code)
}

/// The outcome of running a saved skill from its decoded output and error
/// text.
pub fn skill_outcome(out: &str, err: &str, success: bool) -> (r: Result<String, String>)
    ensures
        result_view(r) == skill_run_result(out@, err@, success),
{
    if !success {
        let e = trim_chars(&chars_of(err));
        if e.len() > 0 {
            Err(string_of(&e))
        } else {
            Err(string_of(&trim_chars(&chars_of(out))))
        }
    } else {
        Ok(success_report(out, err))
    }
}

/// The outcome of running a saved skill from the raw bytes it wrote.
pub fn skill_process_outcome(stdout: &[u8], stderr: &[u8], success: bool) -> (r: Result<
    String,
    String,
>)
    ensures
        result_view(r) == skill_run_result(
            crate::encoding::utf8_lossy(stdout@),
            crate::encoding::utf8_lossy(stderr@),
            success,
        ),
{
    let out = lossy_text(stdout);
    let err = lossy_text(stderr);
    skill_outcome(out.as_str(), err.as_str(), success)
}

/// How an application launch is shown: the application, then the URL if any.
pub open spec fn app_label(app: Seq<char>, url: Seq<char>) -> Seq<char> {
    if url.len() == 0 {
        app
    } else {
        app + " "@ + url
    }
}

/// The outcome of a launch: the trimmed error text when the launcher failed
/// and wrote one, otherwise `Opened: ` and the label.
pub open spec fn launch_result(label: Seq<char>, success: bool, err: Seq<char>) -> Result<
    Seq<char>,
    Seq<char>,
> {
    if !success && text::trim(err).len() > 0 {
        Err(text::trim(err))
    } else {
        Ok("Opened: "@ + label)
    }
}

/// The label of an `open_app` call.
pub fn open_app_label(app: &str, url: &str) -> (l: String)
    ensures
        l@ == app_label(app@, url@),
{
    if url.is_empty() {
        string_of(&chars_of(app))
    } else {
        crate::text::concat3(app, " ", url)
    }
}

/// The outcome of an `open_app` launch from the launcher's exit status and
/// the bytes it wrote to its error stream.
pub fn open_app_outcome(label: &str, success: bool, stderr: &[u8]) -> (r: Result<String, String>)
    ensures
        result_view(r) == launch_result(label@, success, crate::encoding::utf8_lossy(stderr@)),
{
    let err = lossy_text(stderr);
    let e = trim_chars(&chars_of(err.as_str()));
    if !success && e.len() > 0 {
        Err(string_of(&e))
    } else {
        Ok(concat2("Opened: ", label))
    }
}

/// Law: an argument is the value of the first member with its name: when
/// member `i` is the first named `key`, the lookup gives its value, and when
/// no member has that name it gives nothing.
pub proof fn lemma_lookup_first(entries: Seq<(Seq<char>, ArgView)>, key: Seq<char>, i: int)
    requires
        0 <= i < entries.len(),
        entries[i].0 == key,
        forall|j: int| 0 <= j < i ==> entries[j].0 != key,
    ensures
        lookup(entries, key) == Some(entries[i].1),
    decreases i,
{
    if i > 0 {
        assert(entries[0].0 != key);
        let rest = entries.drop_first();
        assert forall|j: int| 0 <= j < i - 1 implies rest[j].0 != key by {
            assert(rest[j] == entries[j + 1]);
        }
        lemma_lookup_first(rest, key, i - 1);
    }
}

/// Law: a name that no member has gives no argument.
pub proof fn lemma_lookup_absent(entries: Seq<(Seq<char>, ArgView)>, key: Seq<char>)
    requires
        forall|j: int| 0 <= j < entries.len() ==> entries[j].0 != key,
    ensures
        lookup(entries, key) is None,
    decreases entries.len(),
{
    if entries.len() > 0 {
        assert(entries[0].0 != key);
        let rest = entries.drop_first();
        assert forall|j: int| 0 <= j < rest.len() implies rest[j].0 != key by {
            assert(rest[j] == entries[j + 1]);
        }
        lemma_lookup_absent(rest, key);
    }
}

/// Law: how a tool reads its arguments. The first member named `key` gives
/// its text when it is a string and the empty text otherwise, and its
/// integer cut to 32 bits when it is an integer and 0 otherwise; a missing
/// member gives the empty text and 0.
pub proof fn lemma_argument_values(entries: Seq<(Seq<char>, ArgView)>, key: Seq<char>)
    ensures
        forall|i: int|
            0 <= i < entries.len() && #[trigger] entries[i].0 == key && (forall|j: int|
                0 <= j < i ==> entries[j].0 != key) ==> {
                &&& arg_text(entries, key) == match entries[i].1 {
                    ArgView::Text(t) => t,
                    _ => Seq::<char>::empty(),
                }
                &&& arg_int(entries, key) == match entries[i].1 {
                    ArgView::Integer(n) => n as i32,
                    _ => 0i32,
                }
            },
        (forall|j: int| 0 <= j < entries.len() ==> entries[j].0 != key) ==> arg_text(entries, key)
            == Seq::<char>::empty() && arg_int(entries, key) == 0,
{
    assert forall|i: int|
        0 <= i < entries.len() && #[trigger] entries[i].0 == key && (forall|j: int|
            0 <= j < i ==> entries[j].0 != key) implies lookup(entries, key) == Some(
        entries[i].1,
    ) by {
        lemma_lookup_first(entries, key, i);
    }
    if forall|j: int| 0 <= j < entries.len() ==> entries[j].0 != key {
        lemma_lookup_absent(entries, key);
    }
}

/// Whether `name` names one of the agent's tools.
pub open spec fn is_tool_name(name: Seq<char>) -> bool {
    ||| name == "take_screenshot"@
    ||| name == "think"@
    ||| name == "run_powershell"@
    ||| name == "open_app"@
    ||| name == "list_skills"@
    ||| name == "create_skill"@
    ||| name == "use_skill"@
    ||| name == "web_search"@
    ||| name == "web_fetch"@
    ||| name == "mouse_click"@
    ||| name == "mouse_move"@
    ||| name == "type_text"@
    ||| name == "key_combo"@
}

/// Law: the tool table for the tools that act on the system, the skills and
/// the web: each name routes to its own tool with the arguments that tool
/// reads, under their own names.
pub proof fn lemma_tool_table_system(name: Seq<char>, args: Seq<(Seq<char>, ArgView)>)
    ensures
        name == "run_powershell"@ ==> (tool_request(name, args) == (ToolRequest::RunPowershell {
            command: arg_text(args, "command"@),
        })),
        name == "open_app"@ ==> (tool_request(name, args) == (ToolRequest::OpenApp {
            app: arg_text(args, "app"@),
            url: arg_text(args, "url"@),
        })),
        name == "list_skills"@ ==> (tool_request(name, args) is ListSkills),
        name == "create_skill"@ ==> (tool_request(name, args) == (ToolRequest::CreateSkill {
            name: arg_text(args, "name"@),
            description: arg_text(args, "description"@),
            parameters: arg_text(args, "parameters"@),
            powershell_code: arg_text(args, "powershell_code"@),
        })),
        name == "use_skill"@ ==> (tool_request(name, args) == (ToolRequest::UseSkill {
            name: arg_text(args, "name"@),
            params: arg_text(args, "params"@),
        })),
        name == "web_search"@ ==> (tool_request(name, args) == (ToolRequest::WebSearch {
            query: arg_text(args, "query"@),
        })),
        name == "web_fetch"@ ==> (tool_request(name, args) == (ToolRequest::WebFetch {
            url: arg_text(args, "url"@),
        })),
{
    reveal_strlit("take_screenshot");
    assert("take_screenshot"@ =~= seq!['t', 'a', 'k', 'e', '_', 's', 'c', 'r', 'e', 'e', 'n', 's', 'h', 'o', 't']);
    reveal_strlit("think");
    assert("think"@ =~= seq!['t', 'h', 'i', 'n', 'k']);
    reveal_strlit("run_powershell");
    assert("run_powershell"@ =~= seq!['r', 'u', 'n', '_', 'p', 'o', 'w', 'e', 'r', 's', 'h', 'e', 'l', 'l']);
    reveal_strlit("open_app");
    assert("open_app"@ =~= seq!['o', 'p', 'e', 'n', '_', 'a', 'p', 'p']);
    reveal_strlit("list_skills");
    assert("list_skills"@ =~= seq!['l', 'i', 's', 't', '_', 's', 'k', 'i', 'l', 'l', 's']);
    reveal_strlit("create_skill");
    assert("create_skill"@ =~= seq!['c', 'r', 'e', 'a', 't', 'e', '_', 's', 'k', 'i', 'l', 'l']);
    reveal_strlit("use_skill");
    assert("use_skill"@ =~= seq!['u', 's', 'e', '_', 's', 'k', 'i', 'l', 'l']);
    reveal_strlit("web_search");
    assert("web_search"@ =~= seq!['w', 'e', 'b', '_', 's', 'e', 'a', 'r', 'c', 'h']);
    reveal_strlit("web_fetch");
    assert("web_fetch"@ =~= seq!['w', 'e', 'b', '_', 'f', 'e', 't', 'c', 'h']);
    reveal_strlit("mouse_click");
    assert("mouse_click"@ =~= seq!['m', 'o', 'u', 's', 'e', '_', 'c', 'l', 'i', 'c', 'k']);
    reveal_strlit("mouse_move");
    assert("mouse_move"@ =~= seq!['m', 'o', 'u', 's', 'e', '_', 'm', 'o', 'v', 'e']);
    reveal_strlit("type_text");
    assert("type_text"@ =~= seq!['t', 'y', 'p', 'e', '_', 't', 'e', 'x', 't']);
    reveal_strlit("key_combo");
    assert("key_combo"@ =~= seq!['k', 'e', 'y', '_', 'c', 'o', 'm', 'b', 'o']);
}

/// Law: the tool table for the tools that work the screen, the mouse and
/// the keyboard: each name routes to its own tool, the click and the move at
/// the integer arguments `x` and `y`, in that order.
pub proof fn lemma_tool_table_gui(name: Seq<char>, args: Seq<(Seq<char>, ArgView)>)
    ensures
        name == "take_screenshot"@ ==> (tool_request(name, args) is TakeScreenshot),
        name == "mouse_click"@ ==> (tool_request(name, args) == (ToolRequest::MouseClick {
            x: arg_int(args, "x"@),
            y: arg_int(args, "y"@),
            button: arg_text(args, "button"@),
        })),
        name == "mouse_move"@ ==> (tool_request(name, args) matches ToolRequest::MouseMove { x, y }
            && x == arg_int(args, "x"@) && y == arg_int(args, "y"@)),
        name == "type_text"@ ==> (tool_request(name, args) == (ToolRequest::TypeText {
            text: arg_text(args, "text"@),
        })),
        name == "key_combo"@ ==> (tool_request(name, args) == (ToolRequest::KeyCombo {
            keys: arg_text(args, "keys"@),
        })),
{
    reveal_strlit("take_screenshot");
    assert("take_screenshot"@ =~= seq!['t', 'a', 'k', 'e', '_', 's', 'c', 'r', 'e', 'e', 'n', 's', 'h', 'o', 't']);
    reveal_strlit("think");
    assert("think"@ =~= seq!['t', 'h', 'i', 'n', 'k']);
    reveal_strlit("run_powershell");
    assert("run_powershell"@ =~= seq!['r', 'u', 'n', '_', 'p', 'o', 'w', 'e', 'r', 's', 'h', 'e', 'l', 'l']);
    reveal_strlit("open_app");
    assert("open_app"@ =~= seq!['o', 'p', 'e', 'n', '_', 'a', 'p', 'p']);
    reveal_strlit("list_skills");
    assert("list_skills"@ =~= seq!['l', 'i', 's', 't', '_', 's', 'k', 'i', 'l', 'l', 's']);
    reveal_strlit("create_skill");
    assert("create_skill"@ =~= seq!['c', 'r', 'e', 'a', 't', 'e', '_', 's', 'k', 'i', 'l', 'l']);
    reveal_strlit("use_skill");
    assert("use_skill"@ =~= seq!['u', 's', 'e', '_', 's', 'k', 'i', 'l', 'l']);
    reveal_strlit("web_search");
    assert("web_search"@ =~= seq!['w', 'e', 'b', '_', 's', 'e', 'a', 'r', 'c', 'h']);
    reveal_strlit("web_fetch");
    assert("web_fetch"@ =~= seq!['w', 'e', 'b', '_', 'f', 'e', 't', 'c', 'h']);
    reveal_strlit("mouse_click");
    assert("mouse_click"@ =~= seq!['m', 'o', 'u', 's', 'e', '_', 'c', 'l', 'i', 'c', 'k']);
    reveal_strlit("mouse_move");
    assert("mouse_move"@ =~= seq!['m', 'o', 'u', 's', 'e', '_', 'm', 'o', 'v', 'e']);
    reveal_strlit("type_text");
    assert("type_text"@ =~= seq!['t', 'y', 'p', 'e', '_', 't', 'e', 'x', 't']);
    reveal_strlit("key_combo");
    assert("key_combo"@ =~= seq!['k', 'e', 'y', '_', 'c', 'o', 'm', 'b', 'o']);
}

/// Law: `think` records the thought it is given, and a name that is no
/// tool's name is an unknown tool carrying that name.
pub proof fn lemma_tool_table_other(name: Seq<char>, args: Seq<(Seq<char>, ArgView)>)
    ensures
        name == "think"@ ==> (tool_request(name, args) == (ToolRequest::Think {
            thought: arg_text(args, "thought"@),
        })),
        !is_tool_name(name) ==> (tool_request(name, args) == (ToolRequest::Unknown { name })),
{
    reveal_strlit("take_screenshot");
    assert("take_screenshot"@ =~= seq!['t', 'a', 'k', 'e', '_', 's', 'c', 'r', 'e', 'e', 'n', 's', 'h', 'o', 't']);
    reveal_strlit("think");
    assert("think"@ =~= seq!['t', 'h', 'i', 'n', 'k']);
    reveal_strlit("run_powershell");
    assert("run_powershell"@ =~= seq!['r', 'u', 'n', '_', 'p', 'o', 'w', 'e', 'r', 's', 'h', 'e', 'l', 'l']);
    reveal_strlit("open_app");
    assert("open_app"@ =~= seq!['o', 'p', 'e', 'n', '_', 'a', 'p', 'p']);
    reveal_strlit("list_skills");
    assert("list_skills"@ =~= seq!['l', 'i', 's', 't', '_', 's', 'k', 'i', 'l', 'l', 's']);
    reveal_strlit("create_skill");
    assert("create_skill"@ =~= seq!['c', 'r', 'e', 'a', 't', 'e', '_', 's', 'k', 'i', 'l', 'l']);
    reveal_strlit("use_skill");
    assert("use_skill"@ =~= seq!['u', 's', 'e', '_', 's', 'k', 'i', 'l', 'l']);
    reveal_strlit("web_search");
    assert("web_search"@ =~= seq!['w', 'e', 'b', '_', 's', 'e', 'a', 'r', 'c', 'h']);
    reveal_strlit("web_fetch");
    assert("web_fetch"@ =~= seq!['w', 'e', 'b', '_', 'f', 'e', 't', 'c', 'h']);
    reveal_strlit("mouse_click");
    assert("mouse_click"@ =~= seq!['m', 'o', 'u', 's', 'e', '_', 'c', 'l', 'i', 'c', 'k']);
    reveal_strlit("mouse_move");
    assert("mouse_move"@ =~= seq!['m', 'o', 'u', 's', 'e', '_', 'm', 'o', 'v', 'e']);
    reveal_strlit("type_text");
    assert("type_text"@ =~= seq!['t', 'y', 'p', 'e', '_', 't', 'e', 'x', 't']);
    reveal_strlit("key_combo");
    assert("key_combo"@ =~= seq!['k', 'e', 'y', '_', 'c', 'o', 'm', 'b', 'o']);
}

} // verus!
