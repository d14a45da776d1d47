//! What a room page reacts to.
use crate::response::{Res, ResView};
use vstd::prelude::*;

verus! {

/// A room page's messages: an edit with the cursor after it, a new code text, a run
/// request, a run result to share or one received from the room, nothing, and the
/// request to introduce the page to the room.
pub enum Msg {
    InputChange(String, u32),
    SetContent(String),
    SendCode,
    SetResponse(Res),
    SetResponseNoWs(Res),
    Empty,
    SendMyId,
}

pub enum MsgView {
    InputChange(Seq<char>, u32),
    SetContent(Seq<char>),
    SendCode,
    SetResponse(ResView),
    SetResponseNoWs(ResView),
    Empty,
    SendMyId,
}

impl View for Msg {
    type V = MsgView;

    open spec fn view(&self) -> MsgView {
        match self {
            Msg::InputChange(t, c) => MsgView::InputChange(t@, *c),
            Msg::SetContent(t) => MsgView::SetContent(t@),
            Msg::SendCode => MsgView::SendCode,
            Msg::SetResponse(r) => MsgView::SetResponse(r@),
            Msg::SetResponseNoWs(r) => MsgView::SetResponseNoWs(r@),
            Msg::Empty => MsgView::Empty,
            Msg::SendMyId => MsgView::SendMyId,
        }
    }
}

} // verus!
