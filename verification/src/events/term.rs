use crate::events::types::{AppEvent, AppEventView, KeyEvent, KeyEventKind, event_view};
use vstd::prelude::*;

verus! {

/// What the terminal reports.
#[derive(Clone, Copy, Debug, PartialEq, Eq)]
pub enum TermEvent {
    FocusGained,
    FocusLost,
    Key(KeyEvent),
    Mouse,
    Paste,
    Resize,
}

/// The event that a report of the terminal becomes: a key that was pressed, or the
/// order to draw anew after the terminal changed its size. Nothing for the rest.
pub open spec fn term_event_spec(event: TermEvent) -> Option<AppEventView> {
    match event {
        TermEvent::Key(key) => if key.kind is Press {
            Some(AppEventView::Key(key))
        } else {
            None
        },
        TermEvent::Resize => Some(AppEventView::ForceRender),
        _ => None,
    }
}

/// Turns a report of the terminal into an event.
pub fn term_event(event: TermEvent) -> (res: Option<AppEvent>)
    ensures
        event_view(res) == term_event_spec(event),
{
    match event {
        TermEvent::Key(key) => match key.kind {
            KeyEventKind::Press => Some(AppEvent::Key(key)),
            _ => None,
        },
        TermEvent::Resize => Some(AppEvent::ForceRender),
        _ => None,
    }
}

} // verus!
