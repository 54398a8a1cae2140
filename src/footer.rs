//! The dashboard's footer: key hints for the focused element and the
//! session text that fits beside them.
use vstd::prelude::*;
use vstd::string::*;
use crate::cli::SessionInfo;
use crate::interactive::ElementInFocus;
use crate::text::{push_str, string_from_chars};

verus! {

/// The program's name and version, as the footer shows it.
pub const VERSION_TEXT: &'static str = " zenohui 0.1.0 ";

/// What the footer needs to know of the dashboard besides its focus.
pub struct FooterState {
    /// Some node of the tree is opened.
    pub any_opened: bool,
    /// A node is selected.
    pub has_selection: bool,
    pub can_payload: bool,
    pub can_history: bool,
}

/// The key hints, each a key and what it does.
pub open spec fn hints(focus: ElementInFocus, s: FooterState) -> Seq<(Seq<char>, Seq<char>)> {
    match focus {
        ElementInFocus::TopicOverview => seq![("q"@, "Quit"@), ("/"@, "Search"@), ("o"@, "Open all"@)]
            + (if s.any_opened { seq![("O"@, "Close all"@)] } else { Seq::empty() })
            + (if s.has_selection { seq![("Del"@, "Delete keys"@)] } else { Seq::empty() })
            + (if s.can_payload {
                seq![("Tab"@, "Switch to Payload"@)]
            } else if s.can_history {
                seq![("Tab"@, "Switch to History"@)]
            } else {
                Seq::empty()
            }),
        ElementInFocus::TopicSearch => seq![
            ("↑"@, "Before"@),
            ("↓"@, "Next"@),
            ("Enter"@, "Open All"@),
            ("Esc"@, "Clear"@),
        ],
        ElementInFocus::Payload => seq![
            ("q"@, "Quit"@),
            if s.can_history {
                ("Tab"@, "Switch to History"@)
            } else {
                ("Tab"@, "Switch to Topics"@)
            },
        ],
        ElementInFocus::HistoryTable => seq![("q"@, "Quit"@), ("Tab"@, "Switch to Topics"@)],
        ElementInFocus::CleanPopup(_) => seq![("Enter"@, "Delete key tree"@), ("Any"@, "Abort"@)],
    }
}

pub open spec fn hints_view(v: Seq<(&'static str, &'static str)>) -> Seq<(Seq<char>, Seq<char>)> {
    v.map_values(|h: (&'static str, &'static str)| (h.0@, h.1@))
}

fn push_hint(v: &mut Vec<(&'static str, &'static str)>, key: &'static str, text: &'static str)
    ensures
        hints_view(final(v)@) == hints_view(old(v)@).push((key@, text@)),
{
    v.push((key, text));
    assert(hints_view(v@) =~= hints_view(old(v)@).push((key@, text@)));
}

/// The footer's texts for one session.
pub struct Footer {
    session: String,
    full_info: String,
}

impl Footer {
    pub closed spec fn session_text(&self) -> Seq<char> {
        self.session@
    }

    pub closed spec fn full_text(&self) -> Seq<char> {
        self.full_info@
    }

    pub fn new(session_info: &SessionInfo) -> (r: Footer)
        ensures
            r.session_text() == seq![' '] + session_info.description@ + seq![' '],
            r.full_text() == VERSION_TEXT@ + seq!['@', ' '] + session_info.description@ + seq![' '],
    {
        proof {
            reveal_strlit(" ");
            reveal_strlit("@ ");
        }
        let mut s: Vec<char> = Vec::new();
        push_str(&mut s, " ");
        push_str(&mut s, session_info.description.as_str());
        push_str(&mut s, " ");
        let mut f: Vec<char> = Vec::new();
        push_str(&mut f, VERSION_TEXT);
        push_str(&mut f, "@ ");
        push_str(&mut f, session_info.description.as_str());
        push_str(&mut f, " ");
        let r = Footer { session: string_from_chars(&s), full_info: string_from_chars(&f) };
        assert(r.session_text() =~= seq![' '] + session_info.description@ + seq![' ']);
        assert(r.full_text() =~= VERSION_TEXT@ + seq!['@', ' '] + session_info.description@ + seq![' ']);
        r
    }

    /// The key hints for the focused element.
    pub fn hints(focus: &ElementInFocus, state: &FooterState) -> (r: Vec<(&'static str, &'static str)>)
        ensures
            hints_view(r@) == hints(*focus, *state),
    {
        let mut v: Vec<(&'static str, &'static str)> = Vec::new();
        match focus {
            ElementInFocus::TopicOverview => {
                push_hint(&mut v, "q", "Quit");
                push_hint(&mut v, "/", "Search");
                push_hint(&mut v, "o", "Open all");
                let ghost a = hints_view(v@);
                if state.any_opened {
                    push_hint(&mut v, "O", "Close all");
                }
                let ghost b = hints_view(v@);
                if state.has_selection {
                    push_hint(&mut v, "Del", "Delete keys");
                }
                let ghost c = hints_view(v@);
                if state.can_payload {
                    push_hint(&mut v, "Tab", "Switch to Payload");
                } else if state.can_history {
                    push_hint(&mut v, "Tab", "Switch to History");
                }
                assert(hints_view(v@) =~= hints(*focus, *state));
            },
            ElementInFocus::TopicSearch => {
                push_hint(&mut v, "↑", "Before");
                push_hint(&mut v, "↓", "Next");
                push_hint(&mut v, "Enter", "Open All");
                push_hint(&mut v, "Esc", "Clear");
                assert(hints_view(v@) =~= hints(*focus, *state));
            },
            ElementInFocus::Payload => {
                push_hint(&mut v, "q", "Quit");
                if state.can_history {
                    push_hint(&mut v, "Tab", "Switch to History");
                } else {
                    push_hint(&mut v, "Tab", "Switch to Topics");
                }
                assert(hints_view(v@) =~= hints(*focus, *state));
            },
            ElementInFocus::HistoryTable => {
                push_hint(&mut v, "q", "Quit");
                push_hint(&mut v, "Tab", "Switch to Topics");
                assert(hints_view(v@) =~= hints(*focus, *state));
            },
            ElementInFocus::CleanPopup(_) => {
                push_hint(&mut v, "Enter", "Delete key tree");
                push_hint(&mut v, "Any", "Abort");
                assert(hints_view(v@) =~= hints(*focus, *state));
            },
        }
        v
    }

    /// The longest of the session texts that fits in `remaining` columns
    /// with one to spare, or nothing. Lengths count characters, one terminal
    /// column each, so a non-ASCII description is not over-counted.
    pub fn info_text(&self, remaining: usize) -> (r: Option<String>)
        ensures
            remaining > self.full_text().len() ==> (r matches Some(t) && t@ == self.full_text()),
            remaining <= self.full_text().len() && remaining > self.session_text().len() ==> (
            r matches Some(t) && t@ == self.session_text()),
            remaining <= self.full_text().len() && remaining <= self.session_text().len() && remaining
                > VERSION_TEXT@.len() ==> (r matches Some(t) && t@ == VERSION_TEXT@),
            remaining <= self.full_text().len() && remaining <= self.session_text().len() && remaining
                <= VERSION_TEXT@.len() ==> r is None,
    {
        if remaining > self.full_info.as_str().unicode_len() {
            Some(self.full_info.clone())
        } else if remaining > self.session.as_str().unicode_len() {
            Some(self.session.clone())
        } else if remaining > VERSION_TEXT.unicode_len() {
            Some(VERSION_TEXT.to_owned())
        } else {
            None
        }
    }
}

} // verus!
