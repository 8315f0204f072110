use vstd::prelude::*;

verus! {

/// The window-title module's state: the title it shows, if any.
pub struct Title {
    pub value: Option<String>,
}

impl View for Title {
    type V = Option<Seq<char>>;

    open spec fn view(&self) -> Option<Seq<char>> {
        match self.value {
            Some(s) => Some(s@),
            None => None,
        }
    }
}

/// The messages the window-title module consumes.
#[derive(Debug, Clone)]
pub enum Message {
    TitleChanged(Option<String>),
}

/// The title a message carries.
pub open spec fn message_view(m: Message) -> Option<Seq<char>> {
    match m {
        Message::TitleChanged(Some(s)) => Some(s@),
        Message::TitleChanged(None) => None,
    }
}

/// How a message moves the shown title: it becomes whatever the message
/// carries.
pub open spec fn title_apply(s: Option<Seq<char>>, carried: Option<Seq<char>>) -> Option<
    Seq<char>,
> {
    carried
}

impl Title {
    /// A fresh module, showing nothing until the first event arrives.
    pub fn new() -> (r: Self)
        ensures
            r@ is None,
    {
        Title { value: None }
    }

    /// Take a message: the shown title becomes what it carries.
    pub fn update(&mut self, message: Message)
        ensures
            final(self)@ == title_apply(old(self)@, message_view(message)),
    {
        match message {
            Message::TitleChanged(value) => {
                self.value = value;
            },
        }
    }

    /// The shown title, when there is one: a pure projection.
    pub fn view_value(&self) -> (r: Option<String>)
        ensures
            r is Some <==> self@ is Some,
            r matches Some(s) ==> self@ == Some(s@),
    {
        match &self.value {
            Some(s) => Some(s.clone()),
            None => None,
        }
    }
}

/// One event of the window manager's push interface: the active window
/// changed (to a window with the given title, or to none), or the active
/// window closed.
pub enum WindowEvent {
    ActiveChanged(Option<String>),
    Closed,
}

/// The title an event leaves active: what a change announces; nothing
/// after a close.
pub open spec fn event_title(e: WindowEvent) -> Option<Seq<char>> {
    match e {
        WindowEvent::ActiveChanged(Some(s)) => Some(s@),
        WindowEvent::ActiveChanged(None) => None,
        WindowEvent::Closed => None,
    }
}

/// Translate one window-manager event into the module's message.
pub fn bridge_event(e: WindowEvent) -> (m: Message)
    ensures
        message_view(m) == event_title(e),
{
    match e {
        WindowEvent::ActiveChanged(t) => Message::TitleChanged(t),
        WindowEvent::Closed => Message::TitleChanged(None),
    }
}

/// An active-window change followed by a close bridges to exactly two
/// messages, in that order: one carrying the announced title, one
/// carrying none. Dispatching them in arrival order first shows that
/// title and then clears it.
pub proof fn lemma_bridge_sequence(s0: Option<Seq<char>>, e1: WindowEvent, e2: WindowEvent)
    requires
        e1 is ActiveChanged,
        e2 is Closed,
    ensures
        title_apply(s0, event_title(e1)) == event_title(e1),
        title_apply(title_apply(s0, event_title(e1)), event_title(e2)) == None::<Seq<char>>,
{
}

} // verus!
