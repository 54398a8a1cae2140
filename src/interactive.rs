//! The dashboard's interaction state machine and the requests that a
//! deletion sends.
use vstd::prelude::*;
use vstd::string::*;
use crate::history::ZenohHistory;

verus! {

/// Which part of the dashboard has the focus.
pub enum ElementInFocus {
    TopicOverview,
    TopicSearch,
    Payload,
    HistoryTable,
    /// Asking to confirm the deletion of everything below a path.
    CleanPopup(String),
}

/// A user input, as the dashboard interprets it.
#[derive(Clone, Copy, Debug, PartialEq, Eq, Structural)]
pub enum Input {
    StartSearch,
    EditQuery,
    FinishSearch,
    CancelSearch,
    Toggle,
    OpenAll,
    CloseAll,
    Switch,
    RequestDelete,
    Confirm,
    Quit,
    Other,
}

/// What the dashboard does besides changing focus.
pub enum Effect {
    Nothing,
    Quit,
    /// Filter the tree by the edited query.
    Refilter,
    /// Keep the search filter and open every node.
    CommitSearch,
    /// Drop the search filter.
    ClearSearch,
    ToggleSelected,
    ExpandAll,
    CollapseAll,
    /// Delete every topic at or below the path.
    CleanBelow(String),
}

/// What the current selection offers.
pub struct Selection {
    /// The full path of the selected node.
    pub path: Option<String>,
    /// The selected topic has a payload to show.
    pub can_payload: bool,
    /// The selected topic has a history to show.
    pub can_history: bool,
}

/// The focus and effect after `input`.
pub fn transition(focus: ElementInFocus, input: Input, selection: &Selection) -> (r: (
    ElementInFocus,
    Effect,
))
    ensures
        input == Input::Quit ==> r.0 == focus && r.1 == Effect::Quit,
        input != Input::Quit ==> match focus {
            ElementInFocus::CleanPopup(p) => r.0 == ElementInFocus::TopicOverview && if input
                == Input::Confirm {
                r.1 == Effect::CleanBelow(p)
            } else {
                r.1 == Effect::Nothing
            },
            ElementInFocus::TopicSearch => match input {
                Input::EditQuery => r.0 == ElementInFocus::TopicSearch && r.1 == Effect::Refilter,
                Input::FinishSearch => r.0 == ElementInFocus::TopicOverview && r.1
                    == Effect::CommitSearch,
                Input::CancelSearch => r.0 == ElementInFocus::TopicOverview && r.1
                    == Effect::ClearSearch,
                _ => r.0 == ElementInFocus::TopicSearch && r.1 == Effect::Nothing,
            },
            ElementInFocus::TopicOverview => match input {
                Input::StartSearch => r.0 == ElementInFocus::TopicSearch && r.1 == Effect::Nothing,
                Input::Toggle => r.0 == ElementInFocus::TopicOverview && if selection.path is Some {
                    r.1 == Effect::ToggleSelected
                } else {
                    r.1 == Effect::Nothing
                },
                Input::OpenAll => r.0 == ElementInFocus::TopicOverview && r.1 == Effect::ExpandAll,
                Input::CloseAll => r.0 == ElementInFocus::TopicOverview && r.1
                    == Effect::CollapseAll,
                Input::RequestDelete => r.1 == Effect::Nothing && match selection.path {
                    Some(p) => r.0 matches ElementInFocus::CleanPopup(q) && q@ == p@,
                    None => r.0 == ElementInFocus::TopicOverview,
                },
                Input::Switch => r.1 == Effect::Nothing && if selection.can_payload {
                    r.0 == ElementInFocus::Payload
                } else if selection.can_history {
                    r.0 == ElementInFocus::HistoryTable
                } else {
                    r.0 == ElementInFocus::TopicOverview
                },
                _ => r.0 == ElementInFocus::TopicOverview && r.1 == Effect::Nothing,
            },
            ElementInFocus::Payload => r.1 == Effect::Nothing && if input == Input::Switch {
                if selection.can_history {
                    r.0 == ElementInFocus::HistoryTable
                } else {
                    r.0 == ElementInFocus::TopicOverview
                }
            } else {
                r.0 == ElementInFocus::Payload
            },
            ElementInFocus::HistoryTable => r.1 == Effect::Nothing && if input == Input::Switch {
                r.0 == ElementInFocus::TopicOverview
            } else {
                r.0 == ElementInFocus::HistoryTable
            },
        },
{
    if input == Input::Quit {
        return (focus, Effect::Quit);
    }
    match focus {
        ElementInFocus::CleanPopup(p) => {
            if input == Input::Confirm {
                (ElementInFocus::TopicOverview, Effect::CleanBelow(p))
            } else {
                (ElementInFocus::TopicOverview, Effect::Nothing)
            }
        },
        ElementInFocus::TopicSearch => match input {
            Input::EditQuery => (ElementInFocus::TopicSearch, Effect::Refilter),
            Input::FinishSearch => (ElementInFocus::TopicOverview, Effect::CommitSearch),
            Input::CancelSearch => (ElementInFocus::TopicOverview, Effect::ClearSearch),
            _ => (ElementInFocus::TopicSearch, Effect::Nothing),
        },
        ElementInFocus::TopicOverview => match input {
            Input::StartSearch => (ElementInFocus::TopicSearch, Effect::Nothing),
            Input::Toggle => {
                if selection.path.is_some() {
                    (ElementInFocus::TopicOverview, Effect::ToggleSelected)
                } else {
                    (ElementInFocus::TopicOverview, Effect::Nothing)
                }
            },
            Input::OpenAll => (ElementInFocus::TopicOverview, Effect::ExpandAll),
            Input::CloseAll => (ElementInFocus::TopicOverview, Effect::CollapseAll),
            Input::RequestDelete => match &selection.path {
                Some(p) => (ElementInFocus::CleanPopup(p.clone()), Effect::Nothing),
                None => (ElementInFocus::TopicOverview, Effect::Nothing),
            },
            Input::Switch => {
                if selection.can_payload {
                    (ElementInFocus::Payload, Effect::Nothing)
                } else if selection.can_history {
                    (ElementInFocus::HistoryTable, Effect::Nothing)
                } else {
                    (ElementInFocus::TopicOverview, Effect::Nothing)
                }
            },
            _ => (ElementInFocus::TopicOverview, Effect::Nothing),
        },
        ElementInFocus::Payload => {
            if input == Input::Switch {
                if selection.can_history {
                    (ElementInFocus::HistoryTable, Effect::Nothing)
                } else {
                    (ElementInFocus::TopicOverview, Effect::Nothing)
                }
            } else {
                (ElementInFocus::Payload, Effect::Nothing)
            }
        },
        ElementInFocus::HistoryTable => {
            if input == Input::Switch {
                (ElementInFocus::TopicOverview, Effect::Nothing)
            } else {
                (ElementInFocus::HistoryTable, Effect::Nothing)
            }
        },
    }
}

/// One request to the network made while deleting a topic.
pub enum CleanRequest {
    /// Write an empty payload to the topic.
    PutEmpty(String),
    /// Delete the topic.
    Delete(String),
}

/// The requests that delete each of `topics`: an empty write, then a delete, per topic.
pub fn clean_requests(topics: &Vec<String>) -> (r: Vec<CleanRequest>)
    ensures
        r@.len() == 2 * topics@.len(),
        forall|i: int|
            0 <= i < topics@.len() ==> (#[trigger] r@[2 * i] matches CleanRequest::PutEmpty(t)
                && t@ == topics@[i]@) && (r@[2 * i + 1] matches CleanRequest::Delete(t) && t@
                == topics@[i]@),
{
    let mut r: Vec<CleanRequest> = Vec::new();
    let mut i: usize = 0;
    while i < topics.len()
        invariant
            i <= topics@.len(),
            r@.len() == 2 * i,
            forall|j: int|
                0 <= j < i ==> (#[trigger] r@[2 * j] matches CleanRequest::PutEmpty(t) && t@
                    == topics@[j]@) && (r@[2 * j + 1] matches CleanRequest::Delete(t) && t@
                    == topics@[j]@),
        decreases topics@.len() - i,
    {
        r.push(CleanRequest::PutEmpty(topics[i].clone()));
        r.push(CleanRequest::Delete(topics[i].clone()));
        i = i + 1;
        assert forall|j: int| 0 <= j < i implies (#[trigger] r@[2 * j] matches CleanRequest::PutEmpty(t) && t@
            == topics@[j]@) && (r@[2 * j + 1] matches CleanRequest::Delete(t) && t@ == topics@[j]@) by {
            assert(2 * j + 1 < 2 * i);
        }
    }
    r
}

/// The requests that delete, on the network, every cached topic at or below `keyexpr`.
pub fn clean_below(history: &ZenohHistory, keyexpr: &str) -> (r: Vec<CleanRequest>)
    requires
        history.wf(),
    ensures
        r@.len() == 2 * history.topics_below(keyexpr@).len(),
        forall|i: int|
            0 <= i < history.topics_below(keyexpr@).len() ==> (#[trigger] r@[2 * i] matches CleanRequest::PutEmpty(t)
                && t@ == history.topics_below(keyexpr@)[i]) && (r@[2 * i + 1] matches CleanRequest::Delete(t)
                && t@ == history.topics_below(keyexpr@)[i]),
{
    let topics = history.get_topics_below(keyexpr);
    assert(topics@.len() == history.topics_below(keyexpr@).len());
    assert(forall|i: int| 0 <= i < topics@.len() ==> topics@[i]@ == #[trigger] history.topics_below(keyexpr@)[i]);
    clean_requests(&topics)
}

pub open spec fn has_wildcard(keyexpr: Seq<char>) -> bool {
    keyexpr.contains('*')
}

/// The requests of a one-shot clean: a key expression with a wildcard is
/// deleted as a whole, a plain key gets an empty write and then a delete.
pub fn clean_plan(keyexpr: &str) -> (r: Vec<CleanRequest>)
    ensures
        has_wildcard(keyexpr@) ==> r@.len() == 1 && (r@[0] matches CleanRequest::Delete(t) && t@
            == keyexpr@),
        !has_wildcard(keyexpr@) ==> r@.len() == 2 && (r@[0] matches CleanRequest::PutEmpty(t) && t@
            == keyexpr@) && (r@[1] matches CleanRequest::Delete(t) && t@ == keyexpr@),
{
    let n = keyexpr.unicode_len();
    let mut wild = false;
    let mut i: usize = 0;
    while i < n
        invariant
            n == keyexpr@.len(),
            i <= n,
            wild == exists|j: int| 0 <= j < i && keyexpr@[j] == '*',
        decreases n - i,
    {
        if keyexpr.get_char(i) == '*' {
            wild = true;
        }
        i = i + 1;
    }
    assert(wild == has_wildcard(keyexpr@)) by {
        if wild {
            let j = choose|j: int| 0 <= j < n && keyexpr@[j] == '*';
            assert(keyexpr@[j] == '*');
        }
    }
    let mut r: Vec<CleanRequest> = Vec::new();
    if !wild {
        r.push(CleanRequest::PutEmpty(keyexpr.to_owned()));
    }
    r.push(CleanRequest::Delete(keyexpr.to_owned()));
    r
}

} // verus!
