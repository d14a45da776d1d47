//! A room page: the shared code text with its highlighted rendering, the last run
//! result, and what the page sends to the room and to the server.
use crate::highlighting::{
    bundled_syntax_found, bundled_theme_found, highlight, highlighted_html, load_syntaxes,
    load_themes, syntax_for_extension, theme_named, NamedSyntax, NamedTheme,
};
use crate::json::{
    json_member_string, json_string, json_string_value, member_string, member_view,
    object_with_string_member, reserialized_json, string_value,
};
use crate::message::{Msg, MsgView};
use crate::relay::relayed_frame;
use crate::protocol::{
    code_message, code_message_spec, code_request_body, code_request_body_spec,
    execution_response_message, execution_response_message_spec, start_running_message,
    start_running_message_spec,
};
use crate::response::{empty_res, Res, ResView, SpecificResponse, SpecificResponseView};
use crate::text::{
    chars_of, count_lines, line_count, newline_count, replace_str, replace_str_spec,
    skip_at_most, string_from_chars, take_at_most,
};
use vstd::prelude::*;
use vstd::string::*;

verus! {

/// Renders code as highlighted HTML.
pub struct Highlighter {
    syntaxes: syntect::parsing::SyntaxSet,
    syntax: NamedSyntax,
    theme: NamedTheme,
}

impl Highlighter {
    /// The file extension that chose the syntax.
    pub closed spec fn extension(&self) -> Seq<char> {
        self.syntax.extension()
    }

    /// The name of the theme.
    pub closed spec fn theme_name(&self) -> Seq<char> {
        self.theme.name()
    }

    /// A highlighter with syntect's bundled definitions, for the syntax of the files
    /// with `extension` and the theme called `theme_name`; `None` where either is not
    /// among the bundled ones.
    pub fn new(extension: &str, theme_name: &str) -> (r: Option<Highlighter>)
        ensures
            r is Some <==> bundled_theme_found(theme_name@) && bundled_syntax_found(extension@),
            r matches Some(h) ==> h.extension() == extension@ && h.theme_name() == theme_name@,
    {
        let syntaxes = load_syntaxes();
        let themes = load_themes();
        let theme = match theme_named(&themes, theme_name) {
            Some(t) => t,
            None => return None,
        };
        let syntax = match syntax_for_extension(&syntaxes, extension) {
            Some(s) => s,
            None => return None,
        };
        Some(Highlighter { syntaxes, syntax, theme })
    }

    /// The editor's highlighter: Rust, with the `base16-ocean.dark` theme.
    pub fn rust() -> (r: Option<Highlighter>)
        ensures
            r is Some <==> bundled_theme_found("base16-ocean.dark"@) && bundled_syntax_found(
                "rs"@,
            ),
            r matches Some(h) ==> h.extension() == "rs"@ && h.theme_name()
                == "base16-ocean.dark"@,
    {
        Highlighter::new("rs", "base16-ocean.dark")
    }

    /// The HTML of `code`.
    fn render(&self, code: &str) -> (r: Result<String, syntect::Error>)
        ensures
            r is Ok <==> highlighted_html(code@, self.extension(), self.theme_name()) is Some,
            r matches Ok(t) ==> {
                &&& highlighted_html(code@, self.extension(), self.theme_name()) == Some(t@)
                &&& t@.len() > 0
                &&& t@.last() == '\n'
                &&& exists|i: int| 0 <= i < t@.len() - 1 && t@[i] == '\n'
            },
    {
        highlight(code, &self.syntaxes, &self.syntax, &self.theme)
    }
}

/// A line feed at index `i` makes at least one.
proof fn lemma_newline_at(s: Seq<char>, i: int)
    requires
        0 <= i < s.len(),
        s[i] == '\n',
    ensures
        newline_count(s) >= 1,
    decreases s.len(),
{
    if i < s.len() - 1 {
        lemma_newline_at(s.drop_last(), i);
    }
}

/// HTML that has a line feed before its final one has at least two lines.
proof fn lemma_two_lines(s: Seq<char>)
    requires
        s.len() > 0,
        s.last() == '\n',
        exists|i: int| 0 <= i < s.len() - 1 && s[i] == '\n',
    ensures
        line_count(s) >= 2,
{
    let i = choose|i: int| 0 <= i < s.len() - 1 && s[i] == '\n';
    lemma_newline_at(s.drop_last(), i);
}

/// The page's properties: the id of its room.
pub struct Props {
    pub id: String,
}

/// What the page does besides redrawing: send a text frame to the room; handle a
/// further message; post code to the runner, whose reply comes back as
/// `PageEvent::RunReply`; open the room socket at `url`, whose frames and changes of
/// state come back as `PageEvent::Frame` and `PageEvent::SocketStatus`; or request the
/// room's stored code, whose reply comes back as `PageEvent::CodeFetched`. Each event
/// becomes a message through `event_message`.
pub enum Effect {
    SendToRoom(String),
    Dispatch(Msg),
    PostCode { url: String, body: String },
    ConnectRoom { url: String },
    FetchCode { url: String },
}

pub enum EffectView {
    SendToRoom(Seq<char>),
    Dispatch(MsgView),
    PostCode { url: Seq<char>, body: Seq<char> },
    ConnectRoom { url: Seq<char> },
    FetchCode { url: Seq<char> },
}

impl View for Effect {
    type V = EffectView;

    open spec fn view(&self) -> EffectView {
        match self {
            Effect::SendToRoom(t) => EffectView::SendToRoom(t@),
            Effect::Dispatch(m) => EffectView::Dispatch(m@),
            Effect::PostCode { url, body } => EffectView::PostCode { url: url@, body: body@ },
            Effect::ConnectRoom { url } => EffectView::ConnectRoom { url: url@ },
            Effect::FetchCode { url } => EffectView::FetchCode { url: url@ },
        }
    }
}

/// The outcome of a message: whether to redraw, and the effects in order.
pub struct Step {
    pub rerender: bool,
    pub effects: Vec<Effect>,
}

pub open spec fn effects_view(effects: Seq<Effect>) -> Seq<EffectView> {
    effects.map_values(|e: Effect| e@)
}

/// The highlighter failed on the code.
pub enum RoomError {
    HighlightFailed,
}

/// The page's state: the code text, its rendering, the run result shown and the
/// cursor position.
pub struct Room {
    code: String,
    html: String,
    code_response: Res,
    cursor: u32,
}

pub struct RoomView {
    pub code: Seq<char>,
    pub html: Seq<char>,
    pub response: ResView,
    pub cursor: u32,
}

impl View for Room {
    type V = RoomView;

    closed spec fn view(&self) -> RoomView {
        RoomView {
            code: self.code@,
            html: self.html@,
            response: self.code_response@,
            cursor: self.cursor,
        }
    }
}

/// The result shown while a run is under way.
pub open spec fn running_placeholder() -> ResView {
    ResView {
        errors: SpecificResponseView { compile: ""@, run: ""@ },
        outputs: SpecificResponseView { compile: ""@, run: "Compiling/Running..."@ },
    }
}

/// The address of the runner for the room `id`.
pub open spec fn code_post_url_spec(origin: Seq<char>, id: Seq<char>) -> Seq<char> {
    origin + "/mysite/api/code/"@ + id
}

/// The address that serves the code stored for the room `id`.
pub open spec fn code_fetch_url_spec(origin: Seq<char>, id: Seq<char>) -> Seq<char> {
    origin + "/mysite/api/room/"@ + id + "/code"@
}

/// The room socket's address: the page's origin with `http` made `ws` (so `https`
/// becomes `wss`), then `/ws/room`.
pub open spec fn ws_room_url_spec(origin: Seq<char>) -> Seq<char> {
    replace_str_spec(origin, "http"@, "ws"@) + "/ws/room"@
}

/// Whether handling the message sends a frame to the room.
pub open spec fn sends_to_room(m: MsgView) -> bool {
    match m {
        MsgView::InputChange(..) | MsgView::SendCode | MsgView::SetResponse(..)
        | MsgView::SendMyId => true,
        _ => false,
    }
}

/// The message a frame from the room becomes, where the page can read it: the frame
/// is a JSON string literal holding a JSON message; a "code" member that is a string
/// becomes new code text; otherwise a "start_running" member becomes nothing and an
/// "execution_response" member becomes that run result (`response`, the member read
/// as a run result where it has that shape); any other message becomes nothing.
/// `None` where the page cannot read the frame.
pub open spec fn incoming_frame_spec(frame: Seq<char>, response: Option<ResView>) -> Option<
    MsgView,
> {
    match json_string_value(frame) {
        None => None,
        Some(inner) => match json_member_string(inner, "code"@) {
            None => None,
            Some(Some(Some(c))) => Some(MsgView::SetContent(c)),
            Some(Some(None)) => None,
            Some(None) => if json_member_string(inner, "start_running"@) matches Some(Some(_)) {
                Some(MsgView::Empty)
            } else if json_member_string(inner, "execution_response"@) matches Some(Some(_)) {
                match response {
                    Some(r) => Some(MsgView::SetResponseNoWs(r)),
                    None => None,
                }
            } else {
                Some(MsgView::Empty)
            },
        },
    }
}

/// A frame is read without changing what it carries: where it becomes a run result to
/// show, that is the given result itself, all four streams as they are; where it
/// becomes new code text, that is the string in the "code" member of the message the
/// frame holds.
pub proof fn lemma_frames_keep_their_payload(frame: Seq<char>, response: Option<ResView>)
    ensures
        incoming_frame_spec(frame, response) matches Some(MsgView::SetResponseNoWs(r)) ==> response
            == Some(r),
        incoming_frame_spec(frame, response) matches Some(MsgView::SetContent(c)) ==> (
        json_string_value(frame) matches Some(inner) && json_member_string(inner, "code"@) == Some(
            Some(Some(c)),
        )),
{
}

pub open spec fn res_opt_view(o: Option<Res>) -> Option<ResView> {
    match o {
        Some(r) => Some(r@),
        None => None,
    }
}

pub open spec fn msg_opt_view(o: Option<Msg>) -> Option<MsgView> {
    match o {
        Some(m) => Some(m@),
        None => None,
    }
}

/// The message a frame from the room becomes; `response` is the frame's
/// "execution_response" member read as a run result, where it has that shape. A frame
/// that the relay made of another member's edit `c` becomes `SetContent(c)`.
pub fn incoming_frame(frame: &str, response: Option<Res>) -> (r: Option<Msg>)
    ensures
        msg_opt_view(r) == incoming_frame_spec(frame@, res_opt_view(response)),
        forall|c: Seq<char>|
            #![trigger code_message_spec(c)]
            reserialized_json(code_message_spec(c)) is Some && frame@ == relayed_frame(
                code_message_spec(c),
            ) ==> msg_opt_view(r) == Some(MsgView::SetContent(c)),
{
    let inner = match string_value(frame) {
        Some(t) => t,
        None => return None,
    };
    let code = member_string(inner.as_str(), "code");
    proof {
        assert forall|c: Seq<char>|
            #![trigger code_message_spec(c)]
            reserialized_json(code_message_spec(c)) is Some && frame@ == relayed_frame(
                code_message_spec(c),
            ) implies member_view(code) == Some(Some(Some(c))) by {
            let t = reserialized_json(code_message_spec(c))->0;
            assert(json_string(t) == frame@);
            assert(reserialized_json(object_with_string_member("code"@, c)) == Some(inner@));
        }
    }
    match code {
        None => return None,
        Some(Some(Some(c))) => return Some(Msg::SetContent(c)),
        Some(Some(None)) => return None,
        Some(None) => {},
    }
    match member_string(inner.as_str(), "start_running") {
        Some(Some(_)) => return Some(Msg::Empty),
        _ => {},
    }
    match member_string(inner.as_str(), "execution_response") {
        Some(Some(_)) => match response {
            Some(res) => Some(Msg::SetResponseNoWs(res)),
            None => None,
        },
        _ => Some(Msg::Empty),
    }
}

/// The message a change of the socket's state becomes: once it is open, the page
/// introduces itself to the room.
pub fn socket_status_message(opened: bool) -> (r: Msg)
    ensures
        r@ == if opened {
            MsgView::SendMyId
        } else {
            MsgView::Empty
        },
{
    if opened {
        Msg::SendMyId
    } else {
        Msg::Empty
    }
}

/// What the page hears from outside: a frame from the room socket, with its
/// "execution_response" member read as a run result where it has that shape; a
/// change of the socket's state; the reply to the request for the stored code; the
/// reply to a run request, read as a run result.
pub enum PageEvent {
    Frame { text: String, response: Option<Res> },
    SocketStatus { opened: bool },
    CodeFetched(String),
    RunReply(Res),
}

/// The message an event becomes; `None` where the page cannot read a frame.
pub open spec fn event_message_spec(ev: PageEvent) -> Option<MsgView> {
    match ev {
        PageEvent::Frame { text, response } => incoming_frame_spec(text@, res_opt_view(response)),
        PageEvent::SocketStatus { opened } => Some(
            if opened {
                MsgView::SendMyId
            } else {
                MsgView::Empty
            },
        ),
        PageEvent::CodeFetched(code) => Some(MsgView::SetContent(code@)),
        PageEvent::RunReply(res) => Some(MsgView::SetResponse(res@)),
    }
}

/// An event's payload reaches the page unchanged: a run's reply becomes the result to
/// share with all four streams as they are, the fetched code becomes the code text as
/// it is, and a result shown from a frame is the one the frame carried.
pub proof fn lemma_events_keep_their_payload(ev: PageEvent)
    ensures
        ev matches PageEvent::RunReply(res) ==> event_message_spec(ev) matches Some(
            MsgView::SetResponse(r),
        ) && r.errors.compile == res.errors.compile@ && r.errors.run == res.errors.run@
            && r.outputs.compile == res.outputs.compile@ && r.outputs.run == res.outputs.run@,
        ev matches PageEvent::CodeFetched(code) ==> event_message_spec(ev) == Some(
            MsgView::SetContent(code@),
        ),
        event_message_spec(ev) matches Some(MsgView::SetResponse(_)) ==> ev is RunReply,
        event_message_spec(ev) matches Some(MsgView::SetResponseNoWs(r)) ==> ev matches PageEvent::Frame {
            response: Some(x),
            ..
        } && x@ == r,
{
    if let PageEvent::Frame { text, response } = ev {
        lemma_frames_keep_their_payload(text@, res_opt_view(response));
    }
}

/// The message an event becomes: room frames are read as `incoming_frame` says, the
/// open socket introduces the page to the room, the stored code becomes the page's
/// code text and a run's reply becomes the run result to share. A frame that the
/// relay made of another member's edit `c` becomes `SetContent(c)`.
pub fn event_message(ev: PageEvent) -> (r: Option<Msg>)
    ensures
        msg_opt_view(r) == event_message_spec(ev),
        forall|c: Seq<char>|
            #![trigger code_message_spec(c)]
            ev matches PageEvent::Frame { text, .. } && reserialized_json(code_message_spec(c))
                is Some && text@ == relayed_frame(code_message_spec(c)) ==> msg_opt_view(r)
                == Some(MsgView::SetContent(c)),
{
    match ev {
        PageEvent::Frame { text, response } => incoming_frame(text.as_str(), response),
        PageEvent::SocketStatus { opened } => Some(socket_status_message(opened)),
        PageEvent::CodeFetched(code) => Some(Msg::SetContent(code)),
        PageEvent::RunReply(res) => Some(Msg::SetResponse(res)),
    }
}

pub fn code_post_url(origin: &str, id: &str) -> (r: String)
    ensures
        r@ == code_post_url_spec(origin@, id@),
{
    let mut r = origin.to_owned();
    r.append("/mysite/api/code/");
    r.append(id);
    r
}

pub fn code_fetch_url(origin: &str, id: &str) -> (r: String)
    ensures
        r@ == code_fetch_url_spec(origin@, id@),
{
    let mut r = origin.to_owned();
    r.append("/mysite/api/room/");
    r.append(id);
    r.append("/code");
    r
}

pub fn ws_room_url(origin: &str) -> (r: String)
    ensures
        r@ == ws_room_url_spec(origin@),
{
    proof {
        reveal_strlit("http");
    }
    let mut r = replace_str(origin, "http", "ws");
    r.append("/ws/room");
    r
}

/// The key code of the tab key.
pub const TAB_KEYCODE: u32 = 9;

/// The spaces a tab inserts.
pub const SPACES_IN_TAB: u32 = 4;

/// The editor text after a tab key press, and the selection to set.
pub struct TabEdit {
    pub text: String,
    pub selection_start: u32,
    pub selection_end: u32,
}

/// The text a tab makes of `text` with the selection from `start` to `end`: the
/// selection is replaced by four spaces.
pub open spec fn tab_text(text: Seq<char>, start: u32, end: u32) -> Seq<char> {
    take_at_most(text, start as int) + "    "@ + skip_at_most(text, end as int)
}

/// With no selection, a tab puts four spaces at the caret and leaves the text before
/// and after it as it was.
pub proof fn lemma_tab_inserts_at_caret(text: Seq<char>, pos: u32)
    requires
        pos <= text.len(),
    ensures
        tab_text(text, pos, pos).len() == text.len() + 4,
        tab_text(text, pos, pos).take(pos as int) == text.take(pos as int),
        tab_text(text, pos, pos).subrange(pos as int, pos + 4) == "    "@,
        tab_text(text, pos, pos).skip(pos + 4) == text.skip(pos as int),
{
    reveal_strlit("    ");
    let t = tab_text(text, pos, pos);
    let pre = take_at_most(text, pos as int);
    let post = skip_at_most(text, pos as int);
    assert(pre =~= text.take(pos as int));
    assert(post =~= text.skip(pos as int));
    assert(t.take(pos as int) =~= text.take(pos as int));
    assert(t.subrange(pos as int, pos + 4) =~= "    "@);
    assert(t.skip(pos + 4) =~= text.skip(pos as int));
}

/// A key press in the editor: the tab key inserts four spaces in place of the
/// selection and moves the selection past them; other keys change nothing.
pub fn on_keydown(key_code: u32, text: &str, start: u32, end: u32) -> (r: Option<TabEdit>)
    requires
        key_code == TAB_KEYCODE ==> start <= u32::MAX - SPACES_IN_TAB && end <= u32::MAX
            - SPACES_IN_TAB,
    ensures
        key_code != TAB_KEYCODE ==> r is None,
        key_code == TAB_KEYCODE ==> (r matches Some(e) && e.text@ == tab_text(text@, start, end)
            && e.selection_start == start + SPACES_IN_TAB && e.selection_end == end
            + SPACES_IN_TAB),
{
    if key_code != TAB_KEYCODE {
        return None;
    }
    let cs = chars_of(text);
    let n = cs.len();
    let a: usize = if (start as usize) < n {
        start as usize
    } else {
        n
    };
    let b: usize = if (end as usize) < n {
        end as usize
    } else {
        n
    };
    let mut t = string_from_chars(&cs, 0, a);
    t.append("    ");
    let rest = string_from_chars(&cs, b, n);
    t.append(rest.as_str());
    proof {
        assert(cs@.subrange(0, a as int) == take_at_most(text@, start as int));
        assert(cs@.subrange(b as int, n as int) =~= skip_at_most(text@, end as int));
    }
    Some(
        TabEdit {
            text: t,
            selection_start: start + SPACES_IN_TAB,
            selection_end: end + SPACES_IN_TAB,
        },
    )
}

/// The line numbers shown beside the editor for a rendering: one per line of the
/// rendering, less the opening and closing lines of the `<pre>` block.
pub fn line_numbers(html: &str) -> (r: Vec<usize>)
    requires
        line_count(html@) >= 2,
    ensures
        r@.len() == line_count(html@) - 2,
        forall|i: int| 0 <= i < r@.len() ==> r@[i] == i + 1,
{
    let rows = count_lines(html) - 2;
    let mut arr: Vec<usize> = Vec::new();
    let mut i: usize = 0;
    while i < rows
        invariant
            i <= rows,
            arr@.len() == i,
            forall|k: int| 0 <= k < i ==> arr@[k] == k + 1,
        decreases rows - i,
    {
        arr.push(i + 1);
        i = i + 1;
    }
    arr
}

impl Room {
    #[verifier::type_invariant]
    spec fn inv(self) -> bool {
        line_count(self.html@) >= 2
    }

    /// A fresh page for the room `props.id` at the page origin `origin`: a code text of
    /// one line feed, rendered, with an empty result. The page then opens the room
    /// socket (the origin with `http` made `ws`, then `/ws/room`) and requests the code
    /// stored for the room.
    pub fn create(h: &Highlighter, props: &Props, origin: &str) -> (r: Result<
        (Room, Vec<Effect>),
        RoomError,
    >)
        ensures
            r is Ok <==> highlighted_html("\n"@, h.extension(), h.theme_name()) is Some,
            r matches Ok((room, effects)) ==> {
                &&& room@.code == "\n"@
                &&& Some(room@.html) == highlighted_html("\n"@, h.extension(), h.theme_name())
                &&& room@.response == empty_res()
                &&& room@.cursor == 0
                &&& effects_view(effects@) == seq![
                    EffectView::ConnectRoom { url: ws_room_url_spec(origin@) },
                    EffectView::FetchCode { url: code_fetch_url_spec(origin@, props.id@) },
                ]
            },
    {
        let mut effects: Vec<Effect> = Vec::new();
        effects.push(Effect::ConnectRoom { url: ws_room_url(origin) });
        let code = String::from_str("\n");
        let html = match h.render(code.as_str()) {
            Ok(t) => t,
            Err(_) => return Err(RoomError::HighlightFailed),
        };
        proof {
            lemma_two_lines(html@);
        }
        effects.push(Effect::FetchCode { url: code_fetch_url(origin, props.id.as_str()) });
        proof {
            assert(effects_view(effects@) =~= seq![effects@[0]@, effects@[1]@]);
        }
        let code_response = Res::empty();
        Ok((Room { code, html, code_response, cursor: 0 }, effects))
    }

    /// Reacts to `msg`. `origin` is the page's origin, `props` names the room and `h`
    /// renders code.
    pub fn update(&mut self, msg: Msg, props: &Props, origin: &str, h: &Highlighter) -> (r: Result<
        Step,
        RoomError,
    >)
        ensures
            r matches Ok(step) ==> (exists|i: int|
                0 <= i < step.effects@.len() && step.effects@[i] is SendToRoom) == sends_to_room(
                msg@,
            ),
            match msg@ {
                MsgView::InputChange(content, cursor) => r matches Ok(step) && final(self)@
                    == RoomView { cursor, ..old(self)@ } && !step.rerender && effects_view(
                    step.effects@,
                ) == seq![
                    EffectView::SendToRoom(code_message_spec(content)),
                    EffectView::Dispatch(MsgView::SetContent(content)),
                ],
                MsgView::SetContent(content) => match highlighted_html(
                    content + "\n"@,
                    h.extension(),
                    h.theme_name(),
                ) {
                    Some(html) => r matches Ok(step) && final(self)@ == RoomView {
                        code: content,
                        html,
                        ..old(self)@
                    } && step.rerender && step.effects@.len() == 0,
                    None => r matches Err(RoomError::HighlightFailed) && final(self)@ == old(
                        self,
                    )@,
                },
                MsgView::SendCode => r matches Ok(step) && final(self)@ == old(self)@
                    && step.rerender && effects_view(step.effects@) == seq![
                    EffectView::SendToRoom(start_running_message_spec()),
                    EffectView::Dispatch(MsgView::SetResponse(running_placeholder())),
                    EffectView::PostCode {
                        url: code_post_url_spec(origin@, props.id@),
                        body: code_request_body_spec(old(self)@.code),
                    },
                ],
                MsgView::SetResponse(res) => r matches Ok(step) && final(self)@ == RoomView {
                    response: res,
                    ..old(self)@
                } && step.rerender && effects_view(step.effects@) == seq![
                    EffectView::SendToRoom(execution_response_message_spec(res)),
                ],
                MsgView::SetResponseNoWs(res) => r matches Ok(step) && final(self)@ == RoomView {
                    response: res,
                    ..old(self)@
                } && step.rerender && step.effects@.len() == 0,
                MsgView::Empty => r matches Ok(step) && final(self)@ == old(self)@
                    && !step.rerender && step.effects@.len() == 0,
                MsgView::SendMyId => r matches Ok(step) && final(self)@ == old(self)@
                    && !step.rerender && effects_view(step.effects@) == seq![
                    EffectView::SendToRoom(props.id@),
                ],
            },
    {
        proof {
            use_type_invariant(&*self);
        }
        match msg {
            Msg::InputChange(content, cursor) => {
                let frame = code_message(content.as_str());
                let mut effects: Vec<Effect> = Vec::new();
                effects.push(Effect::SendToRoom(frame));
                effects.push(Effect::Dispatch(Msg::SetContent(content)));
                self.cursor = cursor;
                proof {
                    assert(effects@[0] is SendToRoom);
                    assert(effects_view(effects@) =~= seq![
                        effects@[0]@,
                        effects@[1]@,
                    ]);
                }
                Ok(Step { rerender: false, effects })
            },
            Msg::Empty => Ok(Step { rerender: false, effects: Vec::new() }),
            Msg::SetContent(content) => {
                let mut with_endline = content.clone();
                with_endline.append("\n");
                let html = match h.render(with_endline.as_str()) {
                    Ok(t) => t,
                    Err(_) => return Err(RoomError::HighlightFailed),
                };
                proof {
                    lemma_two_lines(html@);
                }
                self.code = content;
                self.html = html;
                Ok(Step { rerender: true, effects: Vec::new() })
            },
            Msg::SendCode => {
                let mut effects: Vec<Effect> = Vec::new();
                effects.push(Effect::SendToRoom(start_running_message()));
                let placeholder = Res {
                    errors: SpecificResponse { compile: String::from_str(""), run: String::from_str("") },
                    outputs: SpecificResponse {
                        compile: String::from_str(""),
                        run: String::from_str("Compiling/Running..."),
                    },
                };
                effects.push(Effect::Dispatch(Msg::SetResponse(placeholder)));
                let url = code_post_url(origin, props.id.as_str());
                let body = code_request_body(self.code.as_str());
                effects.push(Effect::PostCode { url, body });
                proof {
                    assert(effects@[0] is SendToRoom);
                    assert(effects_view(effects@) =~= seq![
                        effects@[0]@,
                        effects@[1]@,
                        effects@[2]@,
                    ]);
                }
                Ok(Step { rerender: true, effects })
            },
            Msg::SetResponse(res) => {
                let frame = execution_response_message(&res);
                let mut effects: Vec<Effect> = Vec::new();
                effects.push(Effect::SendToRoom(frame));
                self.code_response = res;
                proof {
                    assert(effects@[0] is SendToRoom);
                    assert(effects_view(effects@) =~= seq![effects@[0]@]);
                }
                Ok(Step { rerender: true, effects })
            },
            Msg::SetResponseNoWs(res) => {
                self.code_response = res;
                Ok(Step { rerender: true, effects: Vec::new() })
            },
            Msg::SendMyId => {
                let mut effects: Vec<Effect> = Vec::new();
                effects.push(Effect::SendToRoom(props.id.clone()));
                proof {
                    assert(effects@[0] is SendToRoom);
                    assert(effects_view(effects@) =~= seq![effects@[0]@]);
                }
                Ok(Step { rerender: false, effects })
            },
        }
    }

    /// The line numbers shown beside the editor.
    pub fn line_numbers(&self) -> (r: Vec<usize>)
        ensures
            line_count(self@.html) >= 2,
            r@.len() == line_count(self@.html) - 2,
            forall|i: int| 0 <= i < r@.len() ==> r@[i] == i + 1,
    {
        proof {
            use_type_invariant(self);
        }
        line_numbers(self.html.as_str())
    }

    pub fn code(&self) -> (r: &String)
        ensures
            r@ == self@.code,
    {
        &self.code
    }

    pub fn html(&self) -> (r: &String)
        ensures
            r@ == self@.html,
    {
        &self.html
    }

    pub fn response(&self) -> (r: &Res)
        ensures
            r@ == self@.response,
    {
        &self.code_response
    }

    pub fn cursor(&self) -> (r: u32)
        ensures
            r == self@.cursor,
    {
        self.cursor
    }
}

/// A frame the page receives from the room never makes the page send one back, so
/// members do not echo each other's edits and results.
pub proof fn lemma_room_frames_not_echoed(frame: Seq<char>, response: Option<ResView>)
    ensures
        incoming_frame_spec(frame, response) matches Some(m) ==> !sends_to_room(m),
{
}

} // verus!
