//! The agent's conversation and its turns: the messages exchanged with the
//! model, the images the model has already seen left out of what is sent
//! back, and the decision taken on each reply until the task is done or the
//! turns run out.
use vstd::prelude::*;
use crate::text::{chars_of, string_of};
use crate::tools::{ToolRequest, ToolResult, parse_tool_args, route_tool};
use crate::encoding::png_data_url_of;

verus! {

/// A part of a user message.
#[derive(Debug)]
pub enum ContentPart {
    /// An image given by URL, with the detail level asked for.
    Image { url: String, detail: Option<String> },
    /// Text.
    Text(String),
}

/// The content of a user message: plain text or a list of parts.
#[derive(Debug)]
pub enum Content {
    Text(String),
    Parts(Vec<ContentPart>),
}

/// A message of the conversation with the model.
#[derive(Debug)]
pub enum ChatMessage {
    /// The instructions that open each request.
    System(String),
    /// What the user (or the assistant on the user's behalf) shows the model.
    User(Content),
    /// A reply of the model, kept as the JSON text it came in, so that it is
    /// sent back exactly as received.
    Assistant(String),
    /// The result of one tool call.
    Tool { call_id: String, content: String },
}

/// What a content part says.
pub enum PartView {
    Image { url: Seq<char>, detail: Option<Seq<char>> },
    Text(Seq<char>),
}

/// What a message content says.
pub enum ContentView {
    Text(Seq<char>),
    Parts(Seq<PartView>),
}

/// What a message says.
pub enum MessageView {
    System(Seq<char>),
    User(ContentView),
    Assistant(Seq<char>),
    Tool { call_id: Seq<char>, content: Seq<char> },
}

impl View for ContentPart {
    type V = PartView;

    open spec fn view(&self) -> PartView {
        match self {
            ContentPart::Image { url, detail } => PartView::Image {
                url: url@,
                detail: match detail {
                    Some(d) => Some(d@),
                    None => None,
                },
            },
            ContentPart::Text(t) => PartView::Text(t@),
        }
    }
}

/// The views of content parts.
pub open spec fn part_views(v: Seq<ContentPart>) -> Seq<PartView> {
    Seq::new(v.len(), |i: int| v[i]@)
}

impl View for Content {
    type V = ContentView;

    open spec fn view(&self) -> ContentView {
        match self {
            Content::Text(t) => ContentView::Text(t@),
            Content::Parts(p) => ContentView::Parts(part_views(p@)),
        }
    }
}

impl View for ChatMessage {
    type V = MessageView;

    open spec fn view(&self) -> MessageView {
        match self {
            ChatMessage::System(s) => MessageView::System(s@),
            ChatMessage::User(c) => MessageView::User(c@),
            ChatMessage::Assistant(j) => MessageView::Assistant(j@),
            ChatMessage::Tool { call_id, content } => MessageView::Tool {
                call_id: call_id@,
                content: content@,
            },
        }
    }
}

/// The views of messages.
pub open spec fn message_views(v: Seq<ChatMessage>) -> Seq<MessageView> {
    Seq::new(v.len(), |i: int| v[i]@)
}

fn copy_string(s: &String) -> (r: String)
    ensures
        r@ == s@,
{
    s.clone()
}

fn copy_part(p: &ContentPart) -> (r: ContentPart)
    ensures
        r@ == p@,
{
    match p {
        ContentPart::Image { url, detail } => ContentPart::Image {
            url: copy_string(url),
            detail: match detail {
                Some(d) => Some(copy_string(d)),
                None => None,
            },
        },
        ContentPart::Text(t) => ContentPart::Text(copy_string(t)),
    }
}

/// Whether a part is an image.
pub open spec fn is_image(p: PartView) -> bool {
    p is Image
}

/// The parts of a list that are no images, in order.
pub open spec fn non_images(parts: Seq<PartView>) -> Seq<PartView>
    decreases parts.len(),
{
    if parts.len() == 0 {
        Seq::empty()
    } else if is_image(parts.last()) {
        non_images(parts.drop_last())
    } else {
        non_images(parts.drop_last()).push(parts.last())
    }
}

/// A content without its images: a list of parts keeps its other parts, and
/// becomes the text `[screenshot]` when nothing else is left.
pub open spec fn strip_content(c: ContentView) -> ContentView {
    match c {
        ContentView::Parts(p) => {
            let kept = non_images(p);
            if kept.len() == 0 {
                ContentView::Text("[screenshot]"@)
            } else {
                ContentView::Parts(kept)
            }
        },
        other => other,
    }
}

/// A message as it is sent back to the model: images are left out of user
/// messages; other messages are sent as they are.
pub open spec fn strip_message(m: MessageView) -> MessageView {
    match m {
        MessageView::User(c) => MessageView::User(strip_content(c)),
        other => other,
    }
}

fn strip_parts(parts: &Vec<ContentPart>) -> (c: Content)
    ensures
        c@ == strip_content(ContentView::Parts(part_views(parts@))),
{
    let mut kept: Vec<ContentPart> = Vec::new();
    let mut i: usize = 0;
    while i < parts.len()
        invariant
            0 <= i <= parts.len(),
            part_views(kept@) == non_images(part_views(parts@).take(i as int)),
        decreases parts.len() - i,
    {
        let ghost pv = part_views(parts@);
        assert(pv.take(i + 1).drop_last() =~= pv.take(i as int));
        assert(pv.take(i + 1).last() == parts@[i as int]@);
        match &parts[i] {
            ContentPart::Image { .. } => {},
            ContentPart::Text(t) => {
                let ghost before = kept@;
                let p = ContentPart::Text(copy_string(t));
                kept.push(p);
                assert(part_views(kept@) =~= part_views(before).push(p@));
            },
        }
        i = i + 1;
    }
    assert(part_views(parts@).take(parts.len() as int) =~= part_views(parts@));
    if kept.len() == 0 {
        Content::Text(string_of(&chars_of("[screenshot]")))
    } else {
        Content::Parts(kept)
    }
}

/// A copy of a message with its images left out.
pub fn strip_images_from(m: &ChatMessage) -> (r: ChatMessage)
    ensures
        r@ == strip_message(m@),
{
    match m {
        ChatMessage::System(s) => ChatMessage::System(copy_string(s)),
        ChatMessage::User(Content::Text(t)) => ChatMessage::User(Content::Text(copy_string(t))),
        ChatMessage::User(Content::Parts(p)) => ChatMessage::User(strip_parts(p)),
        ChatMessage::Assistant(j) => ChatMessage::Assistant(copy_string(j)),
        ChatMessage::Tool { call_id, content } => ChatMessage::Tool {
            call_id: copy_string(call_id),
            content: copy_string(content),
        },
    }
}

/// Where the newest part of a conversation starts: just after the last reply
/// of the model (at 0 when the model has not replied yet). What follows it,
/// the user's message or the results and screenshots of the model's last tool
/// calls, is what the model has not seen yet.
pub open spec fn newest_start(h: Seq<MessageView>) -> int
    decreases h.len(),
{
    if h.len() == 0 {
        0
    } else if h.last() is Assistant {
        h.len() as int
    } else {
        newest_start(h.drop_last())
    }
}

/// The messages with the images of those before position `keep_from` left
/// out; the others are as they are.
pub open spec fn strip_before(h: Seq<MessageView>, keep_from: int) -> Seq<MessageView> {
    Seq::new(h.len(), |i: int| if i < keep_from { strip_message(h[i]) } else { h[i] })
}

/// The conversation as it is sent to the model: the newest messages, which
/// hold the screenshot the model is to look at now, keep their images; the
/// images of older messages, which the model has already seen, are left out
/// to keep the request small.
pub open spec fn request_history(h: Seq<MessageView>) -> Seq<MessageView> {
    strip_before(h, newest_start(h))
}

/// The messages with the images of those before position `keep_from` left
/// out; the others are copied as they are.
pub fn strip_images(messages: &Vec<ChatMessage>, keep_from: usize) -> (r: Vec<ChatMessage>)
    ensures
        message_views(r@) == strip_before(message_views(messages@), keep_from as int),
{
    let ghost target = strip_before(message_views(messages@), keep_from as int);
    let mut out: Vec<ChatMessage> = Vec::new();
    let mut i: usize = 0;
    while i < messages.len()
        invariant
            0 <= i <= messages.len(),
            target == strip_before(message_views(messages@), keep_from as int),
            message_views(out@) == target.take(i as int),
        decreases messages.len() - i,
    {
        let m = if i < keep_from {
            strip_images_from(&messages[i])
        } else {
            copy_message(&messages[i])
        };
        let ghost before = out@;
        let ghost mv = m@;
        out.push(m);
        assert(message_views(out@) =~= message_views(before).push(mv));
        i = i + 1;
        assert(message_views(out@) =~= target.take(i as int));
    }
    assert(target.take(messages.len() as int) =~= target);
    out
}

fn is_reply(m: &ChatMessage) -> (b: bool)
    ensures
        b == (m@ is Assistant),
{
    match m {
        ChatMessage::Assistant(_) => true,
        _ => false,
    }
}

/// Where the newest part of the conversation starts: just after the last
/// reply of the model.
pub fn newest_start_of(messages: &Vec<ChatMessage>) -> (k: usize)
    ensures
        k as int == newest_start(message_views(messages@)),
{
    let ghost h = message_views(messages@);
    let mut k: usize = messages.len();
    assert(h.take(k as int) =~= h);
    while k > 0 && !is_reply(&messages[k - 1])
        invariant
            k <= messages.len(),
            h == message_views(messages@),
            newest_start(h) == newest_start(h.take(k as int)),
        decreases k,
    {
        assert(h.take(k as int).drop_last() =~= h.take(k - 1));
        k = k - 1;
    }
    k
}

/// The instructions that open every request to the model.
pub const SYSTEM_PROMPT: &'static str = "\
You are GlideWin, a voice-controlled AI assistant on the user's Windows PC.\n\
For GUI tasks, take a screenshot after each step to confirm the result before continuing. \
Only call think if something unexpected happens and you need to recover.\n\
APPS: Always prefer the installed desktop app over a website (e.g. open Spotify, not spotify.com). \
Use open_app to launch apps; only fall back to a URL if no app is installed.\n\
SYSTEM: Use run_powershell for system operations, file tasks, and scripting.\n\
WEB: Use web_search first — snippets are usually enough. Only use web_fetch when you need the full page content.\n\
SKILLS: Check list_skills before starting a task — a skill may already exist. \
Save a new skill with create_skill whenever you solve something likely to be repeated.\n\
GUI: Focus the target window or field before typing. After every click or keystroke, take a screenshot to confirm the result.\n\
Complete tasks fully from start to finish. Do not narrate your steps, announce what you are about to do, or give the user instructions — just act. \
Speak only once at the very end to confirm the task is done. Never delete files or make destructive changes without explicit confirmation.\n\
EXAMPLE — User says \"Play Back in Black on Spotify\":\n\
1. open_app: open Spotify.\n\
2. take_screenshot: see the loaded app.\n\
3. mouse_click: click the search bar.\n\
4. type_text: type the song name.\n\
5. take_screenshot: see the search results.\n\
6. mouse_click: click play on the correct result.\n\
7. take_screenshot: confirm the song is playing.\n\
8. Report done.";

/// A tool call asked for by the model: its id, the tool's name and the JSON
/// text of the arguments it sent (each missing when the model sent no
/// string).
#[derive(Debug)]
pub struct ToolCallRequest {
    pub id: Option<String>,
    pub name: Option<String>,
    pub arguments: Option<String>,
}

/// What the agent reads of a reply of the model: why it stopped, its text,
/// and the tool calls it asks for (empty when it sent no list).
#[derive(Debug)]
pub struct AssistantReply {
    pub finish_reason: Option<String>,
    pub content: Option<String>,
    pub tool_calls: Vec<ToolCallRequest>,
}

/// A tool call to run: the id its result answers, and the routed request.
#[derive(Debug)]
pub struct PlannedCall {
    pub call_id: String,
    pub request: ToolRequest<String>,
}

/// What to do after a reply of the model.
#[derive(Debug)]
pub enum ReplyAction {
    /// The task is done; this is the answer.
    Finish(String),
    /// Run these tool calls, in order, then ask the model again.
    RunTools(Vec<PlannedCall>),
    /// Ask the model again.
    Continue,
}

/// What a reply action says.
pub enum ActionView {
    Finish(Seq<char>),
    RunTools(Seq<(Seq<char>, ToolRequest<Seq<char>>)>),
    Continue,
}

impl View for ReplyAction {
    type V = ActionView;

    open spec fn view(&self) -> ActionView {
        match self {
            ReplyAction::Finish(s) => ActionView::Finish(s@),
            ReplyAction::RunTools(calls) => ActionView::RunTools(planned_views(calls@)),
            ReplyAction::Continue => ActionView::Continue,
        }
    }
}

/// What planned calls say.
pub open spec fn planned_views(v: Seq<PlannedCall>) -> Seq<(Seq<char>, ToolRequest<Seq<char>>)> {
    Seq::new(v.len(), |i: int| (v[i].call_id@, v[i].request@))
}

/// The text of an optional string, or nothing.
pub open spec fn text_or_empty(o: Option<String>) -> Seq<char> {
    match o {
        Some(s) => s@,
        None => Seq::empty(),
    }
}

/// The JSON text of a call's arguments: an empty object when the model sent
/// none.
pub open spec fn arguments_text(o: Option<String>) -> Seq<char> {
    match o {
        Some(s) => s@,
        None => "{}"@,
    }
}

/// The tool calls of a reply, routed to their tools with the arguments read
/// from their JSON text.
pub open spec fn planned_calls(calls: Seq<ToolCallRequest>) -> Seq<(Seq<char>, ToolRequest<Seq<char>>)> {
    Seq::new(
        calls.len(),
        |i: int|
            (
                text_or_empty(calls[i].id),
                crate::tools::tool_request(
                    text_or_empty(calls[i].name),
                    crate::tools::json_object_args(arguments_text(calls[i].arguments)),
                ),
            ),
    )
}

/// The decision on a reply: a reply that stopped (`stop`, `end_turn`, or no
/// reason given) finishes with its text; one that stopped for tool calls
/// runs them; any other goes on to the next turn.
pub open spec fn reply_action(reply: AssistantReply) -> ActionView {
    let reason = match reply.finish_reason {
        Some(r) => r@,
        None => "stop"@,
    };
    if reason == "stop"@ || reason == "end_turn"@ {
        ActionView::Finish(text_or_empty(reply.content))
    } else if reason == "tool_calls"@ {
        ActionView::RunTools(planned_calls(reply.tool_calls@))
    } else {
        ActionView::Continue
    }
}

/// The message that hands a tool's result back to the model.
pub open spec fn tool_message(call_id: Seq<char>, result: ToolResult) -> MessageView {
    MessageView::Tool {
        call_id,
        content: match result {
            ToolResult::Text(t) => t@,
            ToolResult::Screenshot(_) => "Screenshot captured."@,
        },
    }
}

/// The message that shows a fresh screenshot to the model, or says why it
/// could not be read.
pub open spec fn screenshot_message(read: Result<Seq<u8>, Seq<char>>) -> MessageView {
    match read {
        Ok(bytes) => MessageView::User(
            ContentView::Parts(
                seq![
                    PartView::Image {
                        url: crate::encoding::png_data_url(bytes),
                        detail: Some("low"@),
                    },
                    PartView::Text("Current screen state. Continue based on what you see."@),
                ],
            ),
        ),
        Err(e) => MessageView::User(ContentView::Text("Screenshot read error: "@ + e)),
    }
}

/// The message the user sends: the text, after the screenshot when there is one.
pub open spec fn user_message(text: Seq<char>, screenshot: Option<Seq<u8>>) -> MessageView {
    match screenshot {
        Some(bytes) => MessageView::User(
            ContentView::Parts(
                seq![
                    PartView::Image {
                        url: crate::encoding::png_data_url(bytes),
                        detail: Some("low"@),
                    },
                    PartView::Text(text),
                ],
            ),
        ),
        None => MessageView::User(ContentView::Text(text)),
    }
}

fn image_and_text(bytes: &[u8], text: String) -> (m: ChatMessage)
    requires
        bytes@.len() <= isize::MAX,
    ensures
        m@ == MessageView::User(
            ContentView::Parts(
                seq![
                    PartView::Image {
                        url: crate::encoding::png_data_url(bytes@),
                        detail: Some("low"@),
                    },
                    PartView::Text(text@),
                ],
            ),
        ),
{
    let url = png_data_url_of(bytes);
    let img = ContentPart::Image { url, detail: Some(string_of(&chars_of("low"))) };
    let txt = ContentPart::Text(text);
    let ghost iv = img@;
    let ghost tv = txt@;
    let mut parts: Vec<ContentPart> = Vec::new();
    parts.push(img);
    parts.push(txt);
    assert(part_views(parts@) =~= seq![iv, tv]);
    ChatMessage::User(Content::Parts(parts))
}

/// The user's message to the agent, with the screenshot's bytes when one
/// was taken.
pub fn new_user_message(text: String, screenshot: Option<Vec<u8>>) -> (m: ChatMessage)
    requires
        screenshot matches Some(b) ==> b@.len() <= isize::MAX,
    ensures
        m@ == user_message(
            text@,
            match screenshot {
                Some(b) => Some(b@),
                None => None,
            },
        ),
{
    match screenshot {
        Some(bytes) => image_and_text(&bytes, text),
        None => ChatMessage::User(Content::Text(text)),
    }
}

/// The error when the model has used up its turns.
pub fn out_of_turns_error() -> (e: String)
    ensures
        e@ == "Max turns reached"@,
{
    string_of(&chars_of("Max turns reached"))
}

/// One run of the agent on a conversation.
pub struct AgentRun {
    history: Vec<ChatMessage>,
    turns_used: u32,
    max_turns: u32,
    screenshots: Vec<String>,
}

impl AgentRun {
    /// The conversation so far.
    pub closed spec fn history(&self) -> Seq<MessageView> {
        message_views(self.history@)
    }

    /// How many times the model was asked.
    pub closed spec fn turns_used(&self) -> nat {
        self.turns_used as nat
    }

    /// How many times the model may be asked.
    pub closed spec fn max_turns(&self) -> nat {
        self.max_turns as nat
    }

    /// The screenshots taken by tools in this turn, to be shown to the model.
    pub closed spec fn screenshots(&self) -> Seq<Seq<char>> {
        self.screenshots@.map_values(|s: String| s@)
    }

    /// The model is never asked more often than it may be.
    #[verifier::type_invariant]
    spec fn within_budget(&self) -> bool {
        self.turns_used <= self.max_turns
    }

    /// A run on a conversation that may ask the model `max_turns` times.
    pub fn new(history: Vec<ChatMessage>, max_turns: u32) -> (r: Self)
        ensures
            r.history() == message_views(history@),
            r.turns_used() == 0,
            r.max_turns() == max_turns,
            r.screenshots() == Seq::<Seq<char>>::empty(),
    {
        let r = AgentRun { history, turns_used: 0, max_turns, screenshots: Vec::new() };
        assert(r.screenshots@.map_values(|s: String| s@) =~= Seq::<Seq<char>>::empty());
        r
    }

    /// Adds a message at the end of the conversation.
    fn append_message(&mut self, m: ChatMessage)
        ensures
            final(self).history() == old(self).history().push(m@),
            final(self).turns_used() == old(self).turns_used(),
            final(self).max_turns() == old(self).max_turns(),
            final(self).screenshots() == old(self).screenshots(),
    {
        proof {
            use_type_invariant(&*self);
        }
        let ghost mv = m@;
        let mut h: Vec<ChatMessage> = Vec::new();
        std::mem::swap(&mut h, &mut self.history);
        let ghost before = h@;
        h.push(m);
        assert(message_views(h@) =~= message_views(before).push(mv));
        self.history = h;
    }

    /// Adds a screenshot to show to the model.
    fn append_screenshot(&mut self, p: String)
        ensures
            final(self).screenshots() == old(self).screenshots().push(p@),
            final(self).history() == old(self).history(),
            final(self).turns_used() == old(self).turns_used(),
            final(self).max_turns() == old(self).max_turns(),
    {
        proof {
            use_type_invariant(&*self);
        }
        let ghost pv = p@;
        let mut v: Vec<String> = Vec::new();
        std::mem::swap(&mut v, &mut self.screenshots);
        let ghost before = v@;
        v.push(p);
        assert(v@.map_values(|s: String| s@) =~= before.map_values(|s: String| s@).push(pv));
        self.screenshots = v;
    }

    /// Starts a turn: the messages to send to the model (the instructions,
    /// then the conversation, whose newest messages keep their images), or
    /// `None` when the turns are used up.
    pub fn start_turn(&mut self) -> (req: Option<Vec<ChatMessage>>)
        ensures
            final(self).turns_used() <= final(self).max_turns(),
            final(self).history() == old(self).history(),
            final(self).max_turns() == old(self).max_turns(),
            final(self).screenshots() == old(self).screenshots(),
            old(self).turns_used() < old(self).max_turns() ==> {
                &&& final(self).turns_used() == old(self).turns_used() + 1
                &&& req matches Some(msgs) && message_views(msgs@) == seq![
                    MessageView::System(SYSTEM_PROMPT@),
                ] + request_history(old(self).history())
            },
            old(self).turns_used() >= old(self).max_turns() ==> {
                &&& final(self).turns_used() == old(self).turns_used()
                &&& req is None
            },
    {
        proof {
            use_type_invariant(&*self);
        }
        if self.turns_used >= self.max_turns {
            return None;
        }
        self.turns_used = self.turns_used + 1;
        let keep_from = newest_start_of(&self.history);
        let stripped = strip_images(&self.history, keep_from);
        let mut msgs: Vec<ChatMessage> = Vec::new();
        let sys = ChatMessage::System(string_of(&chars_of(SYSTEM_PROMPT)));
        let ghost sv = sys@;
        msgs.push(sys);
        let mut rest = stripped;
        let ghost rest0 = rest@;
        proof {
            assert(message_views(msgs@) =~= seq![sv]);
        }
        // Move the stripped messages after the instructions, in order.
        let mut tail: Vec<ChatMessage> = Vec::new();
        while rest.len() > 0
            invariant
                message_views(tail@) + message_views(rest@) == message_views(rest0),
            decreases rest.len(),
        {
            let ghost before_rest = rest@;
            let ghost before_tail = tail@;
            let m = rest.remove(0);
            let ghost mv = m@;
            tail.push(m);
            assert(message_views(tail@) =~= message_views(before_tail).push(mv));
            assert(message_views(before_rest) =~= seq![mv] + message_views(rest@));
            assert(message_views(tail@) + message_views(rest@) =~= message_views(before_tail)
                + message_views(before_rest));
        }
        assert(message_views(tail@) =~= message_views(rest0));
        msgs.append(&mut tail);
        assert(message_views(msgs@) =~= seq![sv] + message_views(rest0));
        Some(msgs)
    }

    /// Takes in a reply of the model, given as its JSON text and as what the
    /// agent reads of it, adds it to the conversation and decides what to do.
    pub fn on_reply(&mut self, raw: String, reply: &AssistantReply) -> (a: ReplyAction)
        ensures
            final(self).turns_used() <= final(self).max_turns(),
            final(self).history() == old(self).history().push(MessageView::Assistant(raw@)),
            final(self).turns_used() == old(self).turns_used(),
            final(self).max_turns() == old(self).max_turns(),
            final(self).screenshots() == old(self).screenshots(),
            a@ == reply_action(*reply),
    {
        proof {
            use_type_invariant(&*self);
        }
        let msg = ChatMessage::Assistant(raw);
        self.append_message(msg);
        decide_reply(reply)
    }

    /// Records the result of one tool call: the tool message, and the image
    /// to show afterwards if the tool took a screenshot.
    pub fn record_tool_result(&mut self, call_id: String, result: ToolResult)
        ensures
            final(self).turns_used() <= final(self).max_turns(),
            final(self).history() == old(self).history().push(tool_message(call_id@, result)),
            final(self).turns_used() == old(self).turns_used(),
            final(self).max_turns() == old(self).max_turns(),
            final(self).screenshots() == match result {
                ToolResult::Screenshot(p) => old(self).screenshots().push(p@),
                ToolResult::Text(_) => old(self).screenshots(),
            },
    {
        proof {
            use_type_invariant(&*self);
        }
        let ghost tm = tool_message(call_id@, result);
        let content = match result {
            ToolResult::Text(t) => t,
            ToolResult::Screenshot(p) => {
                self.append_screenshot(p);
                string_of(&chars_of("Screenshot captured."))
            },
        };
        let msg = ChatMessage::Tool { call_id, content };
        assert(msg@ == tm);
        self.append_message(msg);
    }

    /// The screenshots taken in this turn, in order; none are left.
    pub fn take_screenshots(&mut self) -> (v: Vec<String>)
        ensures
            final(self).turns_used() <= final(self).max_turns(),
            v@.map_values(|s: String| s@) == old(self).screenshots(),
            final(self).screenshots() == Seq::<Seq<char>>::empty(),
            final(self).history() == old(self).history(),
            final(self).turns_used() == old(self).turns_used(),
            final(self).max_turns() == old(self).max_turns(),
    {
        proof {
            use_type_invariant(&*self);
        }
        let mut v: Vec<String> = Vec::new();
        std::mem::swap(&mut v, &mut self.screenshots);
        assert(self.screenshots@.map_values(|s: String| s@) =~= Seq::<Seq<char>>::empty());
        v
    }

    /// Shows a screenshot to the model: its bytes, or why they could not be
    /// read.
    pub fn record_screenshot(&mut self, read: Result<Vec<u8>, String>)
        requires
            read matches Ok(b) ==> b@.len() <= isize::MAX,
        ensures
            final(self).turns_used() <= final(self).max_turns(),
            final(self).history() == old(self).history().push(
                screenshot_message(
                    match read {
                        Ok(b) => Ok(b@),
                        Err(e) => Err(e@),
                    },
                ),
            ),
            final(self).turns_used() == old(self).turns_used(),
            final(self).max_turns() == old(self).max_turns(),
            final(self).screenshots() == old(self).screenshots(),
    {
        proof {
            use_type_invariant(&*self);
        }
        let ghost before = self.history@;
        let msg = match read {
            Ok(bytes) => image_and_text(
                &bytes,
                string_of(&chars_of("Current screen state. Continue based on what you see.")),
            ),
            Err(e) => ChatMessage::User(
                Content::Text(crate::text::concat2("Screenshot read error: ", e.as_str())),
            ),
        };
        self.append_message(msg);
    }

    /// The conversation at the end of the run.
    pub fn into_history(self) -> (h: Vec<ChatMessage>)
        ensures
            message_views(h@) == self.history(),
    {
        self.history
    }
}

/// The decision on a reply.
pub fn decide_reply(reply: &AssistantReply) -> (a: ReplyAction)
    ensures
        a@ == reply_action(*reply),
{
    let reason = match &reply.finish_reason {
        Some(r) => chars_of(r.as_str()),
        None => chars_of("stop"),
    };
    if crate::keys::same_chars(&reason, &chars_of("stop")) || crate::keys::same_chars(
        &reason,
        &chars_of("end_turn"),
    ) {
        let text = match &reply.content {
            Some(c) => c.clone(),
            None => String::new(),
        };
        ReplyAction::Finish(text)
    } else if crate::keys::same_chars(&reason, &chars_of("tool_calls")) {
        let ghost target = planned_calls(reply.tool_calls@);
        let mut calls: Vec<PlannedCall> = Vec::new();
        let mut i: usize = 0;
        while i < reply.tool_calls.len()
            invariant
                0 <= i <= reply.tool_calls.len(),
                target == planned_calls(reply.tool_calls@),
                planned_views(calls@) == target.take(i as int),
            decreases reply.tool_calls.len() - i,
        {
            let call = &reply.tool_calls[i];
            let id = match &call.id {
                Some(s) => s.clone(),
                None => String::new(),
            };
            let name = match &call.name {
                Some(s) => s.clone(),
                None => String::new(),
            };
            let args = match &call.arguments {
                Some(a) => parse_tool_args(a.as_str()),
                None => parse_tool_args("{}"),
            };
            let request = route_tool(name.as_str(), &args);
            let ghost before = calls@;
            let p = PlannedCall { call_id: id, request };
            let ghost pv = (p.call_id@, p.request@);
            calls.push(p);
            assert(pv == target[i as int]);
            assert(planned_views(calls@) =~= planned_views(before).push(pv));
            assert(planned_views(calls@) =~= target.take(i + 1));
            i = i + 1;
        }
        assert(target.take(reply.tool_calls.len() as int) =~= target);
        ReplyAction::RunTools(calls)
    } else {
        ReplyAction::Continue
    }
}

/// Law: a reply that stopped, with `stop`, with `end_turn` or with no reason
/// given, finishes the run with the reply's text, or with no text when it
/// has none.
pub proof fn lemma_stopped_reply_finishes(reply: AssistantReply)
    requires
        reply.finish_reason is None || (reply.finish_reason matches Some(r) && (r@ == "stop"@
            || r@ == "end_turn"@)),
    ensures
        reply.content matches Some(c) ==> (reply_action(reply) == ActionView::Finish(c@)),
        reply.content is None ==> (reply_action(reply) == ActionView::Finish(Seq::empty())),
{
}

/// Law: a reply that stopped for `tool_calls` runs its calls, one planned
/// call for each, in order: the call's id (empty when missing) with the tool
/// that its name routes to, on the arguments read from its JSON text.
pub proof fn lemma_tool_call_reply_runs_calls(reply: AssistantReply)
    requires
        reply.finish_reason matches Some(r) && r@ == "tool_calls"@,
    ensures
        reply_action(reply) matches ActionView::RunTools(p) && p.len() == reply.tool_calls@.len()
            && forall|i: int|
            0 <= i < p.len() ==> p[i].1 == crate::tools::tool_request(
                text_or_empty(#[trigger] reply.tool_calls@[i].name),
                crate::tools::json_object_args(arguments_text(reply.tool_calls@[i].arguments)),
            ) && (reply.tool_calls@[i].id matches Some(d) ==> p[i].0 == d@) && (
            reply.tool_calls@[i].id is None ==> p[i].0 == Seq::<char>::empty()),
{
    reveal_strlit("stop");
    reveal_strlit("end_turn");
    reveal_strlit("tool_calls");
    assert("tool_calls"@ != "stop"@) by {
        assert("tool_calls"@[0] != "stop"@[0]);
    }
    assert("tool_calls"@ != "end_turn"@) by {
        assert("tool_calls"@[0] != "end_turn"@[0]);
    }
}

/// Law: a reply that stopped for any other reason asks the model again.
pub proof fn lemma_other_reply_continues(reply: AssistantReply)
    requires
        reply.finish_reason matches Some(r) && r@ != "stop"@ && r@ != "end_turn"@ && r@
            != "tool_calls"@,
    ensures
        reply_action(reply) is Continue,
{
}

/// Law: what stands in for a part the model left out of a tool call: an
/// empty text for a missing id or name, and an empty JSON object for missing
/// arguments.
pub proof fn lemma_missing_call_parts(o: Option<String>)
    ensures
        o is None ==> text_or_empty(o) == Seq::<char>::empty() && arguments_text(o) == "{}"@,
        o matches Some(s) ==> text_or_empty(o) == s@ && arguments_text(o) == s@,
{
}

/// Law: a message with its images left out holds no image.
pub proof fn lemma_stripped_has_no_images(m: MessageView)
    ensures
        strip_message(m) matches MessageView::User(ContentView::Parts(p)) ==> forall|i: int|
            0 <= i < p.len() ==> !is_image(#[trigger] p[i]),
{
    if let MessageView::User(ContentView::Parts(p)) = m {
        lemma_non_images(p);
    }
}

proof fn lemma_non_images(p: Seq<PartView>)
    ensures
        forall|i: int| 0 <= i < non_images(p).len() ==> !is_image(#[trigger] non_images(p)[i]),
        non_images(non_images(p)) == non_images(p),
    decreases p.len(),
{
    if p.len() > 0 {
        lemma_non_images(p.drop_last());
        let q = non_images(p.drop_last());
        if !is_image(p.last()) {
            assert(q.push(p.last()).drop_last() =~= q);
        }
    }
}

/// Law: leaving the images out of a list of parts keeps exactly its other
/// parts, in their order.
pub proof fn lemma_non_images_keeps_the_rest(parts: Seq<PartView>)
    ensures
        non_images(parts) == parts.filter(|p: PartView| !is_image(p)),
    decreases parts.len(),
{
    let f = |p: PartView| !is_image(p);
    reveal(Seq::filter);
    if parts.len() > 0 {
        lemma_non_images_keeps_the_rest(parts.drop_last());
        assert(parts.filter(f) == {
            let sub = parts.drop_last().filter(f);
            if f(parts.last()) {
                sub.push(parts.last())
            } else {
                sub
            }
        });
    } else {
        assert(parts.filter(f) == parts);
        assert(parts =~= Seq::<PartView>::empty());
    }
}

/// Law: leaving the images out twice is leaving them out once.
pub proof fn lemma_strip_idempotent(m: MessageView)
    ensures
        strip_message(strip_message(m)) == strip_message(m),
{
    if let MessageView::User(ContentView::Parts(p)) = m {
        lemma_non_images(p);
    }
}

proof fn lemma_newest_start_bounds(h: Seq<MessageView>)
    ensures
        0 <= newest_start(h) <= h.len(),
        h.len() > 0 && !(h.last() is Assistant) ==> newest_start(h) < h.len(),
        forall|i: int| newest_start(h) <= i < h.len() ==> !(#[trigger] h[i] is Assistant),
    decreases h.len(),
{
    if h.len() > 0 && !(h.last() is Assistant) {
        let t = h.drop_last();
        lemma_newest_start_bounds(t);
        assert forall|i: int| newest_start(h) <= i < h.len() implies !(#[trigger] h[i] is Assistant) by {
            if i < h.len() - 1 {
                assert(h[i] == t[i]);
            }
        }
    }
}

/// Law: the request holds the whole conversation, in order; each message
/// since the model's last reply is sent as it is, images included, so the
/// screenshot the user or a tool just took reaches the model; each older
/// message is sent with its images left out. In particular the newest
/// message is always sent as it is.
pub proof fn lemma_request_keeps_newest(h: Seq<MessageView>)
    ensures
        request_history(h).len() == h.len(),
        forall|i: int|
            0 <= i < h.len() && i >= newest_start(h) ==> #[trigger] request_history(h)[i] == h[i],
        forall|i: int|
            0 <= i < h.len() && i < newest_start(h) ==> #[trigger] request_history(h)[i]
                == strip_message(h[i]),
        forall|i: int|
            newest_start(h) <= i < h.len() ==> !(#[trigger] h[i] is Assistant),
        h.len() > 0 ==> request_history(h).last() == h.last(),
{
    lemma_newest_start_bounds(h);
}

fn copy_message(m: &ChatMessage) -> (r: ChatMessage)
    ensures
        r@ == m@,
{
    match m {
        ChatMessage::System(s) => ChatMessage::System(copy_string(s)),
        ChatMessage::User(Content::Text(t)) => ChatMessage::User(Content::Text(copy_string(t))),
        ChatMessage::User(Content::Parts(p)) => {
            let mut q: Vec<ContentPart> = Vec::new();
            let mut i: usize = 0;
            while i < p.len()
                invariant
                    0 <= i <= p.len(),
                    part_views(q@) == part_views(p@).take(i as int),
                decreases p.len() - i,
            {
                let c = copy_part(&p[i]);
                let ghost before = q@;
                let ghost cv = c@;
                q.push(c);
                assert(part_views(q@) =~= part_views(before).push(cv));
                i = i + 1;
                assert(part_views(q@) =~= part_views(p@).take(i as int));
            }
            assert(part_views(p@).take(p.len() as int) =~= part_views(p@));
            ChatMessage::User(Content::Parts(q))
        },
        ChatMessage::Assistant(j) => ChatMessage::Assistant(copy_string(j)),
        ChatMessage::Tool { call_id, content } => ChatMessage::Tool {
            call_id: copy_string(call_id),
            content: copy_string(content),
        },
    }
}

/// The conversation the agent carries from one request of the user to the
/// next.
pub struct Conversation {
    messages: Vec<ChatMessage>,
}

impl Conversation {
    /// The messages so far.
    pub closed spec fn messages(&self) -> Seq<MessageView> {
        message_views(self.messages@)
    }

    /// A conversation with no messages.
    pub fn new() -> (c: Self)
        ensures
            c.messages() == Seq::<MessageView>::empty(),
    {
        let c = Conversation { messages: Vec::new() };
        assert(c.messages() =~= Seq::<MessageView>::empty());
        c
    }

    /// A run of the agent on the conversation followed by the user's new
    /// message; the conversation itself is left as it is until the run is
    /// committed.
    pub fn begin_run(&self, user: ChatMessage, max_turns: u32) -> (r: AgentRun)
        ensures
            r.history() == self.messages().push(user@),
            r.turns_used() == 0,
            r.max_turns() == max_turns,
            r.screenshots() == Seq::<Seq<char>>::empty(),
    {
        let mut h: Vec<ChatMessage> = Vec::new();
        let mut i: usize = 0;
        while i < self.messages.len()
            invariant
                0 <= i <= self.messages.len(),
                message_views(h@) == message_views(self.messages@).take(i as int),
            decreases self.messages.len() - i,
        {
            let c = copy_message(&self.messages[i]);
            let ghost before = h@;
            let ghost cv = c@;
            h.push(c);
            assert(message_views(h@) =~= message_views(before).push(cv));
            i = i + 1;
            assert(message_views(h@) =~= message_views(self.messages@).take(i as int));
        }
        assert(message_views(self.messages@).take(self.messages.len() as int) =~= message_views(
            self.messages@,
        ));
        let ghost before = h@;
        let ghost uv = user@;
        h.push(user);
        assert(message_views(h@) =~= message_views(before).push(uv));
        AgentRun::new(h, max_turns)
    }

    /// Keeps the conversation of a run that finished.
    pub fn commit(&mut self, run: AgentRun)
        ensures
            final(self).messages() == run.history(),
    {
        self.messages = run.into_history();
    }

    /// Forgets the conversation.
    pub fn clear(&mut self)
        ensures
            final(self).messages() == Seq::<MessageView>::empty(),
    {
        self.messages = Vec::new();
        assert(message_views(self.messages@) =~= Seq::<MessageView>::empty());
    }
}

} // verus!
