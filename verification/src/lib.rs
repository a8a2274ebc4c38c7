//! A single-line terminal editor engine: an edit buffer with cursor and
//! word-boundary motion, a bounded persisted history, completion with a
//! two-column panel, and wrap-aware redraw arithmetic. Every effect on the
//! terminal is expressed as a sequence of driver commands that a thin I/O
//! layer performs.
#![verifier::loop_isolation(false)]

use vstd::prelude::*;

pub mod ansi;
pub mod buffer;
pub mod completion;
pub mod history;
pub mod render;
pub mod scan;
pub mod session;
pub mod textops;

pub use buffer::EditBuffer;
pub use completion::CompletionState;
pub use history::History;
pub use render::RenderState;
pub use render::TermCmd;
pub use render::TermCmdView;

pub use completion::clear_completions;
pub use completion::show_completions;
pub use completion::COMPLETION_LIMIT;
pub use render::move_to;
pub use render::render_line;

use crate::history::history_pushed;
use crate::scan::boundary_back;
use crate::scan::boundary_fwd;
use crate::scan::scan_boundary;
use crate::textops::str_chars;

verus! {

/// The default characters on which to break words.
pub const WORD_BREAKS: &'static str = "-_=+[]{}()<>,./\\`'\";:!@#$%^&*?|~ ";

/// A highlighting scheme applied to the user input before it is drawn.
///
/// The input is the current user-inputted data.
pub trait Highlight {
    fn highlight(&mut self, data: &str) -> String;
}

/// A completion query over the user input.
///
/// The arguments are the input, the start of the selection, and the end.
/// The selection is replaced in its entirety when a candidate is committed.
pub trait Completion {
    fn complete(&mut self, data: &str, start: usize, end: usize) -> Vec<String>;
}

/// The identity highlighter an editor starts with.
pub struct NoHighlight;

impl Highlight for NoHighlight {
    fn highlight(&mut self, data: &str) -> String {
        data.to_owned()
    }
}

/// The candidate-less completion an editor starts with.
pub struct NoCompletion;

impl Completion for NoCompletion {
    fn complete(&mut self, data: &str, start: usize, end: usize) -> Vec<String> {
        Vec::new()
    }
}

/// The result of one full read.
#[derive(Debug, Clone, PartialEq, Eq)]
pub enum EditResult {
    /// The submitted line.
    Done(String),
    /// The read was canceled.
    Cancel,
    /// The caller should quit.
    Quit,
}

/// One key, as the session's dispatch sees it.
#[derive(Debug, Clone, Copy, PartialEq, Eq)]
pub enum Key {
    Enter,
    Backspace,
    Char(char),
    Left,
    Right,
    Up,
    Down,
    Home,
    End,
    Tab,
    Other,
}

/// One keystroke: the key together with its modifier and lock state.
#[derive(Debug, Clone, Copy)]
pub struct KeyInput {
    pub code: Key,
    pub shift: bool,
    pub control: bool,
    pub caps_lock: bool,
}

/// The state of one read: the edit buffer, the render bookkeeping, and the
/// completion panel.
pub struct ReadState {
    pub buf: EditBuffer,
    pub render: RenderState,
    pub comp: CompletionState,
}

impl ReadState {
    /// Every component is well formed.
    pub open spec fn wf(&self) -> bool {
        self.buf.wf() && self.render.wf() && self.comp.wf()
    }

    /// The state a read starts from: an empty buffer on a fresh row with no
    /// panel open.
    pub fn new() -> (s: ReadState)
        ensures
            s.wf(),
            s.buf.text@ == Seq::<char>::empty(),
            s.buf.cursor == 0,
            s.render.cursor_line == 0,
            s.render.num_lines == 0,
            !s.comp.panel_open(),
            s.comp.selected_index == 0,
    {
        ReadState {
            buf: EditBuffer::new(),
            render: RenderState::new(),
            comp: CompletionState::new(),
        }
    }
}

/// A line editor: the prompt, the word-break set, and the optional
/// highlighter, history and completion collaborators.
pub struct Editor<H = NoHighlight, C = NoCompletion> {
    pub prompt: String,
    pub word_breaks: String,
    pub highlight: Option<H>,
    pub history: Option<History>,
    pub completion: Option<C>,
}

impl Editor<NoHighlight, NoCompletion> {
    /// Creates a new editor with the default word breaks and no
    /// highlighter, history or completion.
    pub fn new(prompt: String) -> (e: Editor<NoHighlight, NoCompletion>)
        ensures
            e.wf(),
            e.prompt == prompt,
            e.word_breaks@ == WORD_BREAKS@,
            e.highlight is None,
            e.history is None,
            e.completion is None,
    {
        Editor {
            prompt,
            word_breaks: WORD_BREAKS.to_owned(),
            highlight: None,
            history: None,
            completion: None,
        }
    }
}

/// The history after its navigation index is put past the newest entry:
/// the entries, cap and path stand, the index points past the end.
pub open spec fn history_reset(h0: Option<History>, h1: Option<History>) -> bool {
    match h0 {
        Option::None => h1 is None,
        Option::Some(h) => {
            &&& h1 is Some
            &&& h1->Some_0.entries() == h.entries()
            &&& h1->Some_0.cap() == h.cap()
            &&& h1->Some_0.path() == h.path()
            &&& h1->Some_0.nav() == h.entries().len()
        },
    }
}

/// The history after a line is submitted: the line is appended under the
/// cap and the navigation index points past the end.
pub open spec fn history_submitted(h0: Option<History>, h1: Option<History>, l: Seq<char>) -> bool {
    match h0 {
        Option::None => h1 is None,
        Option::Some(h) => {
            &&& h1 is Some
            &&& h1->Some_0.entries() == history_pushed(h.entries(), l, h.cap())
            &&& h1->Some_0.cap() == h.cap()
            &&& h1->Some_0.path() == h.path()
            &&& h1->Some_0.nav() == h1->Some_0.entries().len()
        },
    }
}

impl<H: Highlight, C: Completion> Editor<H, C> {
    /// The attached history, if any, is well formed.
    pub open spec fn wf(&self) -> bool {
        match self.history {
            Option::Some(h) => h.wf(),
            Option::None => true,
        }
    }

    /// Sets the word break characters the editor respects.
    pub fn word_breaks(self, word_breaks: String) -> (e: Editor<H, C>)
        ensures
            e.prompt == self.prompt,
            e.word_breaks == word_breaks,
            e.highlight == self.highlight,
            e.history == self.history,
            e.completion == self.completion,
    {
        Editor {
            prompt: self.prompt,
            word_breaks,
            highlight: self.highlight,
            history: self.history,
            completion: self.completion,
        }
    }

    /// Sets the highlighter of the editor.
    pub fn highlight<NH: Highlight>(self, highlight: NH) -> (e: Editor<NH, C>)
        ensures
            e.prompt == self.prompt,
            e.word_breaks == self.word_breaks,
            e.highlight == Option::Some(highlight),
            e.history == self.history,
            e.completion == self.completion,
    {
        Editor {
            prompt: self.prompt,
            word_breaks: self.word_breaks,
            highlight: Some(highlight),
            history: self.history,
            completion: self.completion,
        }
    }

    /// Sets the completion collaborator.
    pub fn completion<NC: Completion>(self, completion: NC) -> (e: Editor<H, NC>)
        ensures
            e.prompt == self.prompt,
            e.word_breaks == self.word_breaks,
            e.highlight == self.highlight,
            e.history == self.history,
            e.completion == Option::Some(completion),
    {
        Editor {
            prompt: self.prompt,
            word_breaks: self.word_breaks,
            highlight: self.highlight,
            history: self.history,
            completion: Some(completion),
        }
    }

    /// Updates the prompt of the editor.
    pub fn prompt(&mut self, prompt: String)
        ensures
            final(self).prompt == prompt,
            final(self).word_breaks == old(self).word_breaks,
            final(self).highlight == old(self).highlight,
            final(self).history == old(self).history,
            final(self).completion == old(self).completion,
    {
        self.prompt = prompt;
    }

    /// Attaches a history store, as the caller loaded it from its backing
    /// file.
    pub fn history(self, history: History) -> (e: Editor<H, C>)
        requires
            history.wf(),
        ensures
            e.wf(),
            e.prompt == self.prompt,
            e.word_breaks == self.word_breaks,
            e.highlight == self.highlight,
            e.history == Option::Some(history),
            e.completion == self.completion,
    {
        Editor {
            prompt: self.prompt,
            word_breaks: self.word_breaks,
            highlight: self.highlight,
            history: Some(history),
            completion: self.completion,
        }
    }

    /// Puts the history's navigation index past the newest entry.
    pub fn reset_history_index(&mut self)
        requires
            old(self).wf(),
        ensures
            final(self).wf(),
            final(self).prompt == old(self).prompt,
            final(self).word_breaks == old(self).word_breaks,
            final(self).highlight == old(self).highlight,
            final(self).completion == old(self).completion,
            history_reset(old(self).history, final(self).history),
    {
        if let Some(h) = &mut self.history {
            h.reset_index();
        }
    }

    /// The backing file path and the serialized entries to write there, or
    /// nothing when the editor keeps no history; the caller persists them.
    pub fn save_history(&self) -> (r: Option<(String, String)>)
        ensures
            r is Some <==> self.history is Some,
            r matches Some(p) ==> {
                &&& p.0@ == self.history->Some_0.path()
                &&& p.1@ == crate::history::join_lines(self.history->Some_0.entries())
            },
    {
        if let Some(h) = &self.history {
            Some((h.file_path().clone(), h.to_text()))
        } else {
            None
        }
    }

    /// Finds a word boundary in the buffer text, scanning from `start`
    /// toward the nearer edge for a character of the editor's word-break
    /// set.
    pub fn find_word_boundary(&self, data: &Vec<char>, start: usize, backwards: bool) -> (r:
        usize)
        requires
            start <= data@.len(),
            !backwards ==> start < data@.len(),
        ensures
            backwards ==> r == boundary_back(self.word_breaks@, data@, start as int) && r <= start,
            !backwards ==> r == boundary_fwd(self.word_breaks@, data@, start as int) && start <= r
                < data@.len(),
    {
        let breaks = str_chars(self.word_breaks.as_str());
        scan_boundary(&breaks, data, start, backwards)
    }

    /// Finds a word boundary delimited only by a literal space; it locates
    /// the current word for completion queries.
    pub fn find_space_boundary(&self, data: &Vec<char>, start: usize, backwards: bool) -> (r:
        usize)
        requires
            start <= data@.len(),
            !backwards ==> start < data@.len(),
        ensures
            backwards ==> r == boundary_back(seq![' '], data@, start as int) && r <= start,
            !backwards ==> r == boundary_fwd(seq![' '], data@, start as int) && start <= r
                < data@.len(),
    {
        let mut breaks: Vec<char> = Vec::new();
        breaks.push(' ');
        proof {
            assert(breaks@ =~= seq![' ']);
        }
        scan_boundary(&breaks, data, start, backwards)
    }
}

} // verus!
