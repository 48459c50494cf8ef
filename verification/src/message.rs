//! What the setup process tells the user.

use vstd::prelude::*;

verus! {

/// A message for the user while the setup runs.
#[derive(Debug)]
pub enum SetupMessage {
    Progress(String),
    Error(String),
}

/// The contents of a `SetupMessage`.
pub enum MessageView {
    Progress(Seq<char>),
    Error(Seq<char>),
}

impl View for SetupMessage {
    type V = MessageView;

    open spec fn view(&self) -> MessageView {
        match self {
            SetupMessage::Progress(text) => MessageView::Progress(text@),
            SetupMessage::Error(text) => MessageView::Error(text@),
        }
    }
}

/// What becomes of the setup when an operation fails.
#[derive(Debug)]
pub enum OnError {
    /// The setup goes on.
    Ignore,
    /// The stage stops with this message.
    Abort(String),
}

/// The contents of an `OnError`.
pub enum OnErrorView {
    Ignore,
    Abort(Seq<char>),
}

impl View for OnError {
    type V = OnErrorView;

    open spec fn view(&self) -> OnErrorView {
        match self {
            OnError::Ignore => OnErrorView::Ignore,
            OnError::Abort(text) => OnErrorView::Abort(text@),
        }
    }
}

/// A message on its way to the user, and what to do when nobody receives it any more.
#[derive(Debug)]
pub struct Notice {
    pub message: SetupMessage,
    pub on_lost: OnError,
}

/// The contents of a `Notice`.
pub struct NoticeView {
    pub message: MessageView,
    pub on_lost: OnErrorView,
}

impl View for Notice {
    type V = NoticeView;

    open spec fn view(&self) -> NoticeView {
        NoticeView { message: self.message@, on_lost: self.on_lost@ }
    }
}

/// A progress message that may get lost.
pub open spec fn progress(text: Seq<char>) -> NoticeView {
    NoticeView { message: MessageView::Progress(text), on_lost: OnErrorView::Ignore }
}

/// A progress message that has to arrive.
pub open spec fn progress_or(text: Seq<char>, failure: Seq<char>) -> NoticeView {
    NoticeView { message: MessageView::Progress(text), on_lost: OnErrorView::Abort(failure) }
}

/// An error message, which may get lost.
pub open spec fn error(text: Seq<char>) -> NoticeView {
    NoticeView { message: MessageView::Error(text), on_lost: OnErrorView::Ignore }
}

/// Reports an error to the user. That nobody receives it is no reason to stop.
pub fn emit_setup_error(message: String) -> (r: Notice)
    ensures
        r@ == error(message@),
{
    Notice { message: SetupMessage::Error(message), on_lost: OnError::Ignore }
}

/// Reports progress to the user. That nobody receives it is no reason to stop.
pub fn emit_progress(message: String) -> (r: Notice)
    ensures
        r@ == progress(message@),
{
    Notice { message: SetupMessage::Progress(message), on_lost: OnError::Ignore }
}

/// Reports progress to the user. The stage stops with `failure` when nobody receives it.
pub fn emit_progress_or(message: String, failure: &str) -> (r: Notice)
    ensures
        r@ == progress_or(message@, failure@),
{
    Notice {
        message: SetupMessage::Progress(message),
        on_lost: OnError::Abort(failure.to_owned()),
    }
}

} // verus!
