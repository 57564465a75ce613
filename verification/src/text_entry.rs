//! The text-entry prompt's state machine: a single modal prompt that one
//! caller opens under a title, the user submits, and the opener collects,
//! keyed by that title so two callers cannot read each other's input.

use vstd::prelude::*;

verus! {

/// State of the modal text prompt. The window that draws it lives outside
/// this library; these are the rules of when it is open, what it holds, and
/// who may collect a submission.
#[derive(Debug, Clone)]
pub struct TextEntry {
    title: String,
    text: String,
    password: bool,
    is_open: bool,
    just_submitted: bool,
}

/// Mathematical model of a `TextEntry`.
#[verifier::ext_equal]
pub struct TextEntryView {
    pub title: Seq<char>,
    pub text: Seq<char>,
    pub password: bool,
    pub is_open: bool,
    pub just_submitted: bool,
}

impl View for TextEntry {
    type V = TextEntryView;

    closed spec fn view(&self) -> TextEntryView {
        TextEntryView {
            title: self.title@,
            text: self.text@,
            password: self.password,
            is_open: self.is_open,
            just_submitted: self.just_submitted,
        }
    }
}

impl Default for TextEntry {
    /// A closed, empty prompt.
    fn default() -> (r: TextEntry)
        ensures
            r@.title == Seq::<char>::empty(),
            r@.text == Seq::<char>::empty(),
            !r@.password,
            !r@.is_open,
            !r@.just_submitted,
    {
        TextEntry {
            title: String::new(),
            text: String::new(),
            password: false,
            is_open: false,
            just_submitted: false,
        }
    }
}

impl TextEntry {
    /// A closed, empty prompt.
    pub fn new() -> (r: TextEntry)
        ensures
            r@.title == Seq::<char>::empty(),
            r@.text == Seq::<char>::empty(),
            !r@.password,
            !r@.is_open,
            !r@.just_submitted,
    {
        TextEntry::default()
    }

    /// Opens the prompt under `title`, in plain-text mode, clearing any
    /// pending submission. A prompt that is already open stays exactly as
    /// it is: the first opener keeps it.
    pub fn open(&mut self, title: &str)
        ensures
            old(self)@.is_open ==> final(self)@ == old(self)@,
            !old(self)@.is_open ==> final(self)@ == (TextEntryView {
                title: title@,
                text: old(self)@.text,
                password: false,
                is_open: true,
                just_submitted: false,
            }),
    {
        if !self.is_open {
            self.title = title.to_string();
            self.is_open = true;
            self.password = false;
            self.just_submitted = false;
        }
        proof {
            if !old(self)@.is_open {
                assert(self@ =~= (TextEntryView {
                    title: title@,
                    text: old(self)@.text,
                    password: false,
                    is_open: true,
                    just_submitted: false,
                }));
            }
        }
    }

    /// Switches the prompt between password and plain-text display.
    pub fn password(&mut self, password: bool)
        ensures
            final(self)@ == (TextEntryView { password, ..old(self)@ }),
    {
        self.password = password;
        proof {
            assert(self@ =~= (TextEntryView { password, ..old(self)@ }));
        }
    }

    /// Records that the user finished typing: the prompt closes and the
    /// submission waits for the caller that opened it.
    pub fn submit(&mut self)
        ensures
            final(self)@ == (TextEntryView { is_open: false, just_submitted: true, ..old(self)@ }),
    {
        self.is_open = false;
        self.just_submitted = true;
        proof {
            assert(self@ =~= (TextEntryView {
                is_open: false,
                just_submitted: true,
                ..old(self)@
            }));
        }
    }

    /// Sets what the prompt currently holds, as typed by the user.
    pub fn set_text(&mut self, text: &str)
        ensures
            final(self)@ == (TextEntryView { text: text@, ..old(self)@ }),
    {
        self.text = text.to_string();
        proof {
            assert(self@ =~= (TextEntryView { text: text@, ..old(self)@ }));
        }
    }

    /// Whether the prompt is currently shown.
    pub fn is_open(&self) -> (r: bool)
        ensures
            r == self@.is_open,
    {
        self.is_open
    }

    /// Whether the prompt is shown in password mode.
    pub fn is_password(&self) -> (r: bool)
        ensures
            r == self@.password,
    {
        self.password
    }

    /// The prompt's current title.
    pub fn get_title(&self) -> (r: String)
        ensures
            r@ == self@.title,
    {
        self.title.clone()
    }

    /// Collects a pending submission, but only for the caller whose title
    /// matches the one the prompt was opened under; collecting consumes the
    /// submission, so it is handed out exactly once.
    pub fn submitted(&mut self, title: &str) -> (r: bool)
        ensures
            r == (old(self)@.just_submitted && old(self)@.title == title@),
            r ==> final(self)@ == (TextEntryView { just_submitted: false, ..old(self)@ }),
            !r ==> final(self)@ == old(self)@,
    {
        let wanted = title.to_string();
        if self.just_submitted && self.title == wanted {
            self.just_submitted = false;
            proof {
                assert(self@ =~= (TextEntryView { just_submitted: false, ..old(self)@ }));
            }
            true
        } else {
            false
        }
    }

    /// What the user typed.
    pub fn get_text(&self) -> (r: String)
        ensures
            r@ == self@.text,
    {
        self.text.clone()
    }

    /// Closes the prompt and clears both its text and its title.
    pub fn done(&mut self)
        ensures
            final(self)@ == (TextEntryView {
                title: Seq::<char>::empty(),
                text: Seq::<char>::empty(),
                password: old(self)@.password,
                is_open: false,
                just_submitted: old(self)@.just_submitted,
            }),
    {
        self.is_open = false;
        self.text = String::new();
        self.title = String::new();
        proof {
            assert(self@ =~= (TextEntryView {
                title: Seq::<char>::empty(),
                text: Seq::<char>::empty(),
                password: old(self)@.password,
                is_open: false,
                just_submitted: old(self)@.just_submitted,
            }));
        }
    }
}

} // verus!
