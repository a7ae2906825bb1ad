//! The select-then-act dialogue as a state machine. The caller shows what
//! each effect asks for, performs the effects that touch the outside world,
//! and hands back what the user answered as the next event.

use vstd::prelude::*;

use crate::address::{opt_view, parsed_url, serialization_of};
use crate::bookmark::{Bookmark, BookmarkView};
use crate::matcher::Ratio;
use crate::tag::{tags_in, Tag};
use crate::text::{joined, trim_spec};

verus! {

/// What can be done with a selected bookmark.
#[derive(Debug, PartialEq, Eq, Structural, Clone, Copy)]
pub enum Action {
    Open,
    EditTitle,
    EditTags,
    EditUrl,
    Delete,
    Exit,
}

/// The action at a position of the action menu.
pub open spec fn action_spec(i: usize) -> Option<Action> {
    if i == 0 {
        Some(Action::Open)
    } else if i == 1 {
        Some(Action::EditTitle)
    } else if i == 2 {
        Some(Action::EditTags)
    } else if i == 3 {
        Some(Action::EditUrl)
    } else if i == 4 {
        Some(Action::Delete)
    } else if i == 5 {
        Some(Action::Exit)
    } else {
        None
    }
}

/// The action at position `i` of the menu `action_labels` lists.
pub fn action_at(i: usize) -> (r: Option<Action>)
    ensures
        r == action_spec(i),
{
    if i == 0 {
        Some(Action::Open)
    } else if i == 1 {
        Some(Action::EditTitle)
    } else if i == 2 {
        Some(Action::EditTags)
    } else if i == 3 {
        Some(Action::EditUrl)
    } else if i == 4 {
        Some(Action::Delete)
    } else if i == 5 {
        Some(Action::Exit)
    } else {
        None
    }
}

/// The labels of the action menu, in menu order.
pub fn action_labels() -> (r: Vec<&'static str>)
    ensures
        r@.len() == 6,
        r@[0]@ == "open"@,
        r@[1]@ == "edit title"@,
        r@[2]@ == "edit tags"@,
        r@[3]@ == "edit URL"@,
        r@[4]@ == "delete"@,
        r@[5]@ == "exit"@,
{
    vec!["open", "edit title", "edit tags", "edit URL", "delete", "exit"]
}

/// Where the dialogue stands.
#[derive(Debug)]
pub enum Stage {
    /// The ranked candidates are shown; none is selected yet.
    Ranking(Vec<Bookmark>),
    /// A bookmark is selected; the action menu is shown.
    Selected(Bookmark),
    /// Editing the title of a bookmark that has none: its page title is
    /// being fetched.
    FetchingTitle(Bookmark),
    /// Waiting for the new title.
    EditingTitle(Bookmark),
    /// Waiting for the new tags.
    EditingTags(Bookmark),
    /// Waiting for the new URL.
    EditingUrl(Bookmark),
    /// Finished; the last effect, if any, applies the action.
    Applied,
    /// Finished without touching the store.
    Cancelled,
}

/// What the user answered, or what the outside world returned.
#[derive(Debug)]
pub enum Event {
    /// A candidate position, or none when the user cancelled.
    Picked(Option<usize>),
    /// An action-menu position, or none when the user cancelled.
    ActionPicked(Option<usize>),
    /// The fetched page title, if one was found.
    TitleFetched(Option<String>),
    /// The title typed, or none when the user cancelled.
    TitleEntered(Option<String>),
    /// The tag list typed, or none when the user cancelled.
    TagsEntered(Option<String>),
    /// The URL typed, or none when the user cancelled.
    UrlEntered(Option<String>),
}

/// What the caller must do next.
#[derive(Debug)]
pub enum Effect {
    Nothing,
    /// Report that no bookmark matched.
    NoMatches,
    /// Show the candidates of the `Ranking` stage and ask for one.
    ShowCandidates,
    /// Show the action menu and ask for an action.
    ShowActions,
    /// Open the URL in the browser.
    Open(String),
    /// Fetch the title of the page at the URL.
    FetchTitle(String),
    /// Ask for a title, prefilled with the text given.
    AskTitle(Option<String>),
    /// Ask for tags, prefilled with the text given.
    AskTags(String),
    /// Ask for a URL, prefilled with the text given.
    AskUrl(String),
    /// Save the bookmark, merging with the stored record when the flag is
    /// set.
    Save(Bookmark, bool),
    /// Save the first bookmark (merging), then delete the second's record.
    Replace(Bookmark, Bookmark),
    /// Delete the bookmark's record and report its URL.
    Delete(Bookmark),
}

/// The dialogue's first stage: the first `limit` ranked bookmarks as
/// candidates; when there are none, it ends at once.
pub fn start(ranked: &Vec<(Ratio, Bookmark)>, limit: usize) -> (r: (Stage, Effect))
    ensures
        ({
            let n = if limit < ranked@.len() {
                limit as int
            } else {
                ranked@.len() as int
            };
            if n == 0 {
                r.0 is Cancelled && r.1 is NoMatches
            } else {
                &&& r.1 is ShowCandidates
                &&& r.0 matches Stage::Ranking(c) && c@.len() == n && forall|i: int|
                    0 <= i < n ==> (#[trigger] c@[i])@ == ranked@[i].1@
            }
        }),
{
    let n = if limit < ranked.len() {
        limit
    } else {
        ranked.len()
    };
    if n == 0 {
        return (Stage::Cancelled, Effect::NoMatches);
    }
    let mut c: Vec<Bookmark> = Vec::new();
    let mut i: usize = 0;
    while i < n
        invariant
            i <= n <= ranked@.len(),
            c@.len() == i,
            forall|j: int| 0 <= j < i ==> (#[trigger] c@[j])@ == ranked@[j].1@,
        decreases n - i,
    {
        c.push(ranked[i].1.clone());
        i += 1;
    }
    (Stage::Ranking(c), Effect::ShowCandidates)
}

/// What the dialogue does with a selected bookmark for the action picked.
pub open spec fn act_spec(b: Bookmark, a: Option<Action>, r: (Stage, Effect)) -> bool {
    match a {
        Some(Action::Open) => {
            &&& r.0 is Applied
            &&& (r.1 matches Effect::Open(u) && u@ == b@.url)
        },
        Some(Action::EditTitle) => match b@.title {
            Some(t) => {
                &&& (r.0 matches Stage::EditingTitle(c) && c@ == b@)
                &&& (r.1 matches Effect::AskTitle(Some(d)) && d@ == t)
            },
            None => {
                &&& (r.0 matches Stage::FetchingTitle(c) && c@ == b@)
                &&& (r.1 matches Effect::FetchTitle(u) && u@ == b@.url)
            },
        },
        Some(Action::EditTags) => {
            &&& (r.0 matches Stage::EditingTags(c) && c@ == b@)
            &&& (r.1 matches Effect::AskTags(d) && d@ == joined(b.tag_order(), " "@))
        },
        Some(Action::EditUrl) => {
            &&& (r.0 matches Stage::EditingUrl(c) && c@ == b@)
            &&& (r.1 matches Effect::AskUrl(d) && d@ == b@.url)
        },
        Some(Action::Delete) => {
            &&& r.0 is Applied
            &&& (r.1 matches Effect::Delete(c) && c@ == b@)
        },
        _ => r.0 is Cancelled && r.1 is Nothing,
    }
}

/// What the dialogue does with the URL typed while editing `b`'s URL: asks
/// again when it is not an absolute URL; does nothing when it is `b`'s URL;
/// else saves a bookmark of the new URL with `b`'s tags and no title, and
/// deletes `b`'s record.
pub open spec fn new_url_spec(b: Bookmark, text: Seq<char>, r: (Stage, Effect)) -> bool {
    let u = trim_spec(text);
    if parsed_url(u) is None {
        &&& (r.0 matches Stage::EditingUrl(c) && c@ == b@)
        &&& (r.1 matches Effect::AskUrl(d) && d@ == b@.url)
    } else if serialization_of(u) == b@.url {
        r.0 is Applied && r.1 is Nothing
    } else {
        &&& r.0 is Applied
        &&& (r.1 matches Effect::Replace(n, o) && o@ == b@ && n@ == (BookmarkView {
            url: serialization_of(u),
            title: None,
            tags: b@.tags,
        }))
    }
}

/// The transition of the dialogue on one event. Cancelling any prompt ends
/// the dialogue without an effect on the store; an event the stage does not
/// wait for changes nothing.
pub open spec fn step_spec(stage: Stage, event: Event, r: (Stage, Effect)) -> bool {
    match (stage, event) {
        (Stage::Ranking(c), Event::Picked(p)) => match p {
            Some(i) => if i < c@.len() {
                &&& (r.0 matches Stage::Selected(b) && b@ == c@[i as int]@)
                &&& r.1 is ShowActions
            } else {
                r.0 is Cancelled && r.1 is Nothing
            },
            None => r.0 is Cancelled && r.1 is Nothing,
        },
        (Stage::Selected(b), Event::ActionPicked(p)) => act_spec(
            b,
            match p {
                Some(i) => action_spec(i),
                None => None,
            },
            r,
        ),
        (Stage::FetchingTitle(b), Event::TitleFetched(t)) => {
            &&& (r.0 matches Stage::EditingTitle(c) && c@ == b@)
            &&& (r.1 matches Effect::AskTitle(d) && opt_view(d) == opt_view(t))
        },
        (Stage::EditingTitle(b), Event::TitleEntered(t)) => match t {
            Some(t) => {
                &&& r.0 is Applied
                &&& (r.1 matches Effect::Save(n, m) && m && n@ == (BookmarkView {
                    title: Some(t@),
                    ..b@
                }))
            },
            None => r.0 is Cancelled && r.1 is Nothing,
        },
        (Stage::EditingTags(b), Event::TagsEntered(t)) => match t {
            Some(t) => {
                &&& r.0 is Applied
                &&& (r.1 matches Effect::Save(n, m) && !m && n@ == (BookmarkView {
                    url: b@.url,
                    title: None,
                    tags: tags_in(t@),
                }))
            },
            None => r.0 is Cancelled && r.1 is Nothing,
        },
        (Stage::EditingUrl(b), Event::UrlEntered(t)) => match t {
            Some(t) => new_url_spec(b, t@, r),
            None => r.0 is Cancelled && r.1 is Nothing,
        },
        (s, _) => r.0 == s && r.1 is Nothing,
    }
}

fn act(b: Bookmark, a: Option<Action>) -> (r: (Stage, Effect))
    ensures
        act_spec(b, a, r),
{
    match a {
        Some(Action::Open) => {
            let u = b.url();
            (Stage::Applied, Effect::Open(u))
        },
        Some(Action::EditTitle) => match b.title() {
            Some(t) => (Stage::EditingTitle(b), Effect::AskTitle(Some(t))),
            None => {
                let u = b.url();
                (Stage::FetchingTitle(b), Effect::FetchTitle(u))
            },
        },
        Some(Action::EditTags) => {
            let d = b.tags().join(" ");
            (Stage::EditingTags(b), Effect::AskTags(d))
        },
        Some(Action::EditUrl) => {
            let d = b.url();
            (Stage::EditingUrl(b), Effect::AskUrl(d))
        },
        Some(Action::Delete) => (Stage::Applied, Effect::Delete(b)),
        _ => (Stage::Cancelled, Effect::Nothing),
    }
}

fn new_url(b: Bookmark, text: String) -> (r: (Stage, Effect))
    ensures
        new_url_spec(b, text@, r),
{
    let u = text.as_str().trim();
    match Bookmark::new(u, None, b.tags().clone()) {
        Err(_) => {
            let d = b.url();
            (Stage::EditingUrl(b), Effect::AskUrl(d))
        },
        Ok(n) => {
            if n.url() == b.url() {
                (Stage::Applied, Effect::Nothing)
            } else {
                (Stage::Applied, Effect::Replace(n, b))
            }
        },
    }
}

/// The next stage of the dialogue, and what the caller must do, after
/// `event`.
pub fn step(stage: Stage, event: Event) -> (r: (Stage, Effect))
    ensures
        step_spec(stage, event, r),
{
    match (stage, event) {
        (Stage::Ranking(mut c), Event::Picked(p)) => match p {
            Some(i) => {
                if i < c.len() {
                    let b = c.remove(i);
                    (Stage::Selected(b), Effect::ShowActions)
                } else {
                    (Stage::Cancelled, Effect::Nothing)
                }
            },
            None => (Stage::Cancelled, Effect::Nothing),
        },
        (Stage::Selected(b), Event::ActionPicked(p)) => {
            let a = match p {
                Some(i) => action_at(i),
                None => None,
            };
            act(b, a)
        },
        (Stage::FetchingTitle(b), Event::TitleFetched(t)) => (
            Stage::EditingTitle(b),
            Effect::AskTitle(t),
        ),
        (Stage::EditingTitle(b), Event::TitleEntered(t)) => match t {
            Some(t) => {
                let n = b.with_parts(Some(t), b.tags().clone());
                (Stage::Applied, Effect::Save(n, true))
            },
            None => (Stage::Cancelled, Effect::Nothing),
        },
        (Stage::EditingTags(b), Event::TagsEntered(t)) => match t {
            Some(t) => {
                let tags = Tag::new_set(t.as_str());
                let n = b.with_parts(None, tags);
                (Stage::Applied, Effect::Save(n, false))
            },
            None => (Stage::Cancelled, Effect::Nothing),
        },
        (Stage::EditingUrl(b), Event::UrlEntered(t)) => match t {
            Some(t) => new_url(b, t),
            None => (Stage::Cancelled, Effect::Nothing),
        },
        (s, _) => (s, Effect::Nothing),
    }
}

} // verus!
