use vstd::prelude::*;

verus! {

/// What the animation engine reacts to.
#[derive(Copy, Clone, PartialEq, Eq, Debug, Structural)]
pub enum TermEvent {
    Redraw,
    Resize(u16, u16),
    Exit,
}

/// What the terminal tells the input listener, as far as the listener
/// reads it.
#[derive(Copy, Clone, PartialEq, Eq, Debug, Structural)]
pub enum TermInput {
    /// a key that stands for a character was pressed
    Key(char),
    /// the terminal now has this many columns and rows
    Resized(u16, u16),
    /// anything else
    Other,
}

/// The key that ends the animation.
pub const QUIT_KEY: char = 'q';

/// The event that an input of the terminal stands for, if any.
pub open spec fn event_of(input: TermInput) -> Option<TermEvent> {
    match input {
        TermInput::Key(key) => if key == QUIT_KEY {
            Some(TermEvent::Exit)
        } else {
            None
        },
        TermInput::Resized(w, h) => Some(TermEvent::Resize(w, h)),
        TermInput::Other => None,
    }
}

/// Decide what the input listener sends for one input of the terminal: the
/// quit key ends the animation, a resize is passed on, and nothing is sent
/// for anything else.
pub fn handle_term_event(input: TermInput) -> (sent: Option<TermEvent>)
    ensures
        sent == event_of(input),
{
    match input {
        TermInput::Key(key) => {
            if key == QUIT_KEY {
                Some(TermEvent::Exit)
            } else {
                None
            }
        },
        TermInput::Resized(w, h) => Some(TermEvent::Resize(w, h)),
        TermInput::Other => None,
    }
}

/// Whether the input listener reads on after it has handled one input.
/// `sent` is what it decided to send and `delivered` whether the queue took
/// it. The listener ends once it has sent `Exit`, and once the queue takes
/// nothing more because the receiver is gone.
pub open spec fn reads_on(sent: Option<TermEvent>, delivered: bool) -> bool {
    match sent {
        None => true,
        Some(event) => delivered && event != TermEvent::Exit,
    }
}

/// Decide whether the input listener reads on after it has handled one
/// input.
pub fn listens_on(sent: Option<TermEvent>, delivered: bool) -> (on: bool)
    ensures
        on == reads_on(sent, delivered),
{
    match sent {
        None => true,
        Some(TermEvent::Exit) => false,
        Some(_) => delivered,
    }
}

} // verus!
