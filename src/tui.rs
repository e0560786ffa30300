//! The interaction state machine: which mode reads the keyboard, the text
//! buffers each mode owns, and the transient flags shown around the
//! transcript (loading, error banner, throughput).
use vstd::prelude::*;
use vstd::string::*;
use crate::commands::{
    ChatState, Command, CommandRegistry, CommandResult, Dispatch, Reply, command_words, handle_effect,
    lemma_set_temperature_line,
};
use crate::config::{ModelRegistry, RuboxConfig, entry_names};
use crate::llm_client::Usage;
use crate::session::{ChatMessage, Role, Session};
use crate::number::{is_digit, lemma_milli_chars, milli_value};
use crate::text::{
    is_infix, contains_text, lemma_scan_extends, pop_char, push_char, same_text, scan_words, split_words_from, texts,
    trim, trimmed, white_space, words,
};

verus! {

/// The structured-input form a modal collects.
#[derive(PartialEq, Eq, Structural, Clone, Copy, Debug)]
pub enum ModalType {
    ModelSelector,
    SetTemperature,
    DeleteMessage,
    SaveResponse,
    RenameSession,
    LoadPrompt,
}

/// The mode that interprets keyboard input; exactly one is active.
#[derive(PartialEq, Eq, Structural, Clone, Copy, Debug)]
pub enum UIMode {
    Chat,
    CommandPalette,
    Modal(ModalType),
}

/// A key press, as the terminal reports it.
#[derive(PartialEq, Eq, Structural, Clone, Copy, Debug)]
pub enum Key {
    Char(char),
    /// A character typed with Control held.
    Ctrl(char),
    Esc,
    Enter,
    Backspace,
    Up,
    Down,
    Other,
}

/// The outcome of a chat-completion request.
pub enum Completion {
    Succeeded { text: String, completion_tokens: Option<u32>, elapsed_ms: u64 },
    Failed(String),
}

/// What the main loop does after an event.
pub enum Action {
    Nothing,
    /// Leave the loop.
    Quit,
    /// Send the transcript, as it is now, to the server.
    StartCompletion,
    /// Run this command line through the dispatcher.
    RunCommand(String),
    /// Restart the server with this model.
    SwitchModel(String),
}

/// Ticks an error banner stays up: three seconds at the nominal period.
pub const ERROR_TICKS: u32 = 12;

/// Lines the transcript scrolls per step.
pub const SCROLL_STEP: usize = 3;

/// The interaction state of the chat screen.
pub struct App {
    pub state: ChatState,
    pub mode: UIMode,
    pub input_buffer: String,
    pub command_search: String,
    pub scroll_offset: usize,
    pub selected_command_idx: usize,
    pub selected_model_idx: usize,
    pub modal_input: String,
    pub is_loading: bool,
    pub error_message: Option<String>,
    /// Completion tokens of the last answer.
    pub last_tokens: u32,
    /// Time the last answer took, in milliseconds.
    pub last_response_ms: u64,
    pub command_registry: CommandRegistry,
    pub model_registry: ModelRegistry,
    pub should_exit: bool,
    pub tick_count: u32,
    pub error_ticks: u32,
}

/// Each mode owns one buffer; the buffers of the other modes are empty.
pub open spec fn buffers_owned(mode: UIMode, input: Seq<char>, search: Seq<char>, modal: Seq<char>) -> bool {
    match mode {
        UIMode::Chat => search.len() == 0 && modal.len() == 0,
        UIMode::CommandPalette => input.len() == 0 && modal.len() == 0,
        UIMode::Modal(_) => input.len() == 0 && search.len() == 0,
    }
}

/// Whether a palette row shows for the search text `q`: every row when `q`
/// is empty, else those whose name or help contains `q`.
pub open spec fn shows_for(name: Seq<char>, help: Seq<char>, q: Seq<char>) -> bool {
    q.len() == 0 || is_infix(q, name) || is_infix(q, help)
}

/// The table positions below `n` of the rows shown for the search text `q`,
/// in table order.
pub open spec fn shown_rows(cs: Seq<Command>, q: Seq<char>, n: int) -> Seq<usize>
    decreases n,
{
    if n <= 0 {
        Seq::empty()
    } else {
        let rest = shown_rows(cs, q, n - 1);
        if shows_for(cs[n - 1].name@, cs[n - 1].help@, q) {
            rest.push((n - 1) as usize)
        } else {
            rest
        }
    }
}

proof fn lemma_shown_rows_below(cs: Seq<Command>, q: Seq<char>, n: int)
    ensures
        forall|k: int| 0 <= k < shown_rows(cs, q, n).len() ==> #[trigger] shown_rows(cs, q, n)[k] < n,
    decreases n,
{
    if n > 0 {
        lemma_shown_rows_below(cs, q, n - 1);
        let rest = shown_rows(cs, q, n - 1);
        assert forall|k: int| 0 <= k < shown_rows(cs, q, n).len() implies #[trigger] shown_rows(cs, q, n)[k] < n by {
            if k < rest.len() {
                assert(shown_rows(cs, q, n)[k] == rest[k]);
            }
        }
    }
}

impl App {
    /// The rows the palette shows now.
    pub open spec fn palette_rows(&self) -> Seq<usize> {
        shown_rows(self.command_registry.table(), self.command_search@, self.command_registry.table().len() as int)
    }

    /// The state machine's invariant.
    pub open spec fn wf(&self) -> bool {
        &&& self.state.wf()
        &&& self.command_registry.wf()
        &&& self.model_registry.wf()
        &&& buffers_owned(self.mode, self.input_buffer@, self.command_search@, self.modal_input@)
        &&& self.error_message is None ==> self.error_ticks == 0
        &&& self.error_ticks <= ERROR_TICKS
    }

    /// Everything but the mode, the buffers, the selections and the banner is
    /// the same in `a` and `b`.
    pub open spec fn same_content(a: App, b: App) -> bool {
        &&& a.state == b.state
        &&& a.is_loading == b.is_loading
        &&& a.last_tokens == b.last_tokens
        &&& a.last_response_ms == b.last_response_ms
        &&& a.command_registry == b.command_registry
        &&& a.model_registry == b.model_registry
        &&& a.should_exit == b.should_exit
        &&& a.tick_count == b.tick_count
        &&& a.scroll_offset == b.scroll_offset
    }

    /// A chat screen on a fresh session.
    pub fn new(model: String, temperature: u32, model_registry: ModelRegistry) -> (r: App)
        requires
            model_registry.wf(),
        ensures
            r.wf(),
            r.mode == UIMode::Chat,
            r.input_buffer@.len() == 0,
            !r.is_loading,
            r.error_message is None,
            r.state.current_model == model,
            r.state.temperature == temperature,
            r.state.session.messages@.len() == 0,
            r.state.session.metadata.next_message_id == 1,
            r.model_registry == model_registry,
            !r.should_exit,
    {
        let session = Session::new(model.clone(), temperature);
        App {
            state: ChatState { session, current_model: model, verbose: false, temperature },
            mode: UIMode::Chat,
            input_buffer: String::new(),
            command_search: String::new(),
            scroll_offset: 0,
            selected_command_idx: 0,
            selected_model_idx: 0,
            modal_input: String::new(),
            is_loading: false,
            error_message: None,
            last_tokens: 0,
            last_response_ms: 0,
            command_registry: CommandRegistry::new(),
            model_registry,
            should_exit: false,
            tick_count: 0,
            error_ticks: 0,
        }
    }

    /// Enters the command palette with an empty search and the first row
    /// selected.
    pub fn open_command_palette(&mut self)
        requires
            old(self).wf(),
        ensures
            final(self).wf(),
            final(self).mode == UIMode::CommandPalette,
            final(self).command_search@.len() == 0,
            final(self).selected_command_idx == 0,
            final(self).error_message is None,
            App::same_content(*old(self), *final(self)),
    {
        self.mode = UIMode::CommandPalette;
        self.input_buffer = String::new();
        self.modal_input = String::new();
        self.command_search = String::new();
        self.selected_command_idx = 0;
        self.error_message = None;
        self.error_ticks = 0;
    }

    /// Leaves the command palette for the chat.
    pub fn close_command_palette(&mut self)
        requires
            old(self).wf(),
        ensures
            final(self).wf(),
            final(self).mode == UIMode::Chat,
            final(self).command_search@.len() == 0,
            final(self).selected_command_idx == 0,
            final(self).error_message is None,
            App::same_content(*old(self), *final(self)),
    {
        self.mode = UIMode::Chat;
        self.command_search = String::new();
        self.modal_input = String::new();
        self.selected_command_idx = 0;
        self.error_message = None;
        self.error_ticks = 0;
    }

    /// Enters a modal with an empty field and the first model selected.
    pub fn open_modal(&mut self, modal: ModalType)
        requires
            old(self).wf(),
        ensures
            final(self).wf(),
            final(self).mode == UIMode::Modal(modal),
            final(self).modal_input@.len() == 0,
            final(self).selected_command_idx == 0,
            final(self).selected_model_idx == 0,
            final(self).error_message is None,
            App::same_content(*old(self), *final(self)),
    {
        self.mode = UIMode::Modal(modal);
        self.input_buffer = String::new();
        self.command_search = String::new();
        self.modal_input = String::new();
        self.selected_command_idx = 0;
        self.selected_model_idx = 0;
        self.error_message = None;
        self.error_ticks = 0;
    }

    /// Leaves a modal for the chat.
    pub fn close_modal(&mut self)
        requires
            old(self).wf(),
        ensures
            final(self).wf(),
            final(self).mode == UIMode::Chat,
            final(self).modal_input@.len() == 0,
            final(self).selected_model_idx == 0,
            final(self).error_message is None,
            App::same_content(*old(self), *final(self)),
    {
        self.mode = UIMode::Chat;
        self.modal_input = String::new();
        self.command_search = String::new();
        self.selected_model_idx = 0;
        self.error_message = None;
        self.error_ticks = 0;
    }

    /// Types `c` into the buffer of the active mode; a new palette search
    /// selects its first row.
    pub fn handle_input_char(&mut self, c: char)
        requires
            old(self).wf(),
        ensures
            final(self).wf(),
            typed(*old(self), *final(self), c),
    {
        match self.mode {
            UIMode::Chat => push_char(&mut self.input_buffer, c),
            UIMode::CommandPalette => {
                push_char(&mut self.command_search, c);
                self.selected_command_idx = 0;
            },
            UIMode::Modal(_) => push_char(&mut self.modal_input, c),
        }
    }

    /// Erases the last character of the active mode's buffer.
    pub fn handle_backspace(&mut self)
        requires
            old(self).wf(),
        ensures
            final(self).wf(),
            erased(*old(self), *final(self)),
    {
        match self.mode {
            UIMode::Chat => {
                pop_char(&mut self.input_buffer);
            },
            UIMode::CommandPalette => {
                pop_char(&mut self.command_search);
            },
            UIMode::Modal(_) => {
                pop_char(&mut self.modal_input);
            },
        }
    }
}

/// What typing `c` does: the character goes to the end of the active mode's
/// buffer, and a new palette search selects its first row.
pub open spec fn typed(old: App, new: App, c: char) -> bool {
    &&& new.mode == old.mode
    &&& App::same_content(old, new)
    &&& new.error_message == old.error_message
    &&& match old.mode {
        UIMode::Chat => new.input_buffer@ == old.input_buffer@.push(c) && new.command_search == old.command_search
            && new.modal_input == old.modal_input,
        UIMode::CommandPalette => new.command_search@ == old.command_search@.push(c) && new.selected_command_idx == 0
            && new.input_buffer == old.input_buffer && new.modal_input == old.modal_input,
        UIMode::Modal(_) => new.modal_input@ == old.modal_input@.push(c) && new.input_buffer == old.input_buffer
            && new.command_search == old.command_search,
    }
}

/// `s` without its last character, if it has one.
pub open spec fn erase_last(s: Seq<char>) -> Seq<char> {
    if s.len() == 0 {
        s
    } else {
        s.drop_last()
    }
}

/// What Backspace does: the active mode's buffer loses its last character.
pub open spec fn erased(old: App, new: App) -> bool {
    &&& new.mode == old.mode
    &&& App::same_content(old, new)
    &&& match old.mode {
        UIMode::Chat => new.input_buffer@ == erase_last(old.input_buffer@) && new.command_search == old.command_search
            && new.modal_input == old.modal_input,
        UIMode::CommandPalette => new.command_search@ == erase_last(old.command_search@)
            && new.input_buffer == old.input_buffer && new.modal_input == old.modal_input,
        UIMode::Modal(_) => new.modal_input@ == erase_last(old.modal_input@) && new.input_buffer == old.input_buffer
            && new.command_search == old.command_search,
    }
}

/// What Enter does. In the chat: nothing on blank input; a command line
/// clears the input and either opens its modal or goes to the dispatcher;
/// other text becomes a user message and starts a completion, unless one is
/// pending, in which case nothing changes. In a modal: the trimmed field is
/// handed on as the command's argument, or the model selection is taken.
pub open spec fn enter_effect(old: App, new: App, r: Action) -> bool {
    &&& new.state.current_model == old.state.current_model
    &&& new.should_exit == old.should_exit
    &&& !(r is Quit)
    &&& r is StartCompletion ==> !old.is_loading && new.is_loading
    &&& !(r is StartCompletion) ==> new.is_loading == old.is_loading && new.state == old.state
    &&& ({
        let t = trimmed(old.input_buffer@);
        old.mode == UIMode::Chat && t.len() > 0 && t[0] != '/' ==> if old.is_loading {
            r is Nothing && new == old
        } else if old.state.session.room_for(None) {
            &&& r is StartCompletion
            &&& new.input_buffer@.len() == 0
            &&& new.state.session.messages@.drop_last() == old.state.session.messages@
            &&& new.state.session.messages@.len() == old.state.session.messages@.len() + 1
            &&& new.state.session.messages@.last().role == Role::User
            &&& new.state.session.messages@.last().content@ == t
            &&& new.state.session.messages@.last().tokens is None
            &&& new.state.session.messages@.last().id == old.state.session.metadata.next_message_id
        } else {
            r is Nothing
        }
    })
    &&& ({
        let t = trimmed(old.modal_input@);
        old.mode is Modal && old.mode->Modal_0 != ModalType::ModelSelector && t.len() > 0
            ==> new.mode == UIMode::Chat && new.selected_model_idx == 0 && new.error_message is None
            && (r matches Action::RunCommand(l) && l@ == modal_prefix(old.mode->Modal_0) + t)
    })
    &&& old.mode == UIMode::Modal(ModalType::ModelSelector) ==> if old.selected_model_idx
        < old.model_registry.entries@.len() {
        new.mode == UIMode::Chat && new.selected_model_idx == 0 && new.error_message is None
            && (r matches Action::SwitchModel(n) && n@ == entry_names(
            old.model_registry.entries@,
        )[old.selected_model_idx as int])
    } else {
        r is Nothing && new.mode == old.mode
    }
    &&& ({
        let t = trimmed(old.input_buffer@);
        old.mode == UIMode::Chat ==> if t.len() == 0 {
            r is Nothing && new == old
        } else if t[0] == '/' {
            &&& new.input_buffer@.len() == 0
            &&& match modal_for_line(t) {
                Some(m) => r is Nothing && new.mode == UIMode::Modal(m) && new.modal_input@.len() == 0
                    && new.error_message is None,
                None => (r matches Action::RunCommand(l) && l@ == t) && new.mode == UIMode::Chat,
            }
        } else {
            true
        }
    })
    &&& ({
        let t = trimmed(old.modal_input@);
        old.mode is Modal && old.mode->Modal_0 != ModalType::ModelSelector && t.len() == 0 ==> r is Nothing
            && new.mode == old.mode && new.modal_input@.len() == 0
    })
    &&& old.mode == UIMode::CommandPalette ==> if old.selected_command_idx < old.palette_rows().len() {
        let line = seq!['/'] + old.command_registry.table()[old.palette_rows()[old.selected_command_idx as int] as int].name@;
        &&& new.command_search@.len() == 0
        &&& new.selected_command_idx == 0
        &&& new.error_message is None
        &&& match modal_for_line(line) {
            Some(m) => r is Nothing && new.mode == UIMode::Modal(m) && new.modal_input@.len() == 0,
            None => (r matches Action::RunCommand(l) && l@ == line) && new.mode == UIMode::Chat,
        }
    } else {
        r is Nothing && new == old
    }
}

/// What a key press does.
pub open spec fn key_effect(old: App, new: App, key: Key, r: Action) -> bool {
    match key {
        Key::Char(c) => r is Nothing && if c == '/' && old.mode == UIMode::Chat && old.input_buffer@.len() == 0 {
            new.mode == UIMode::CommandPalette && new.command_search@.len() == 0 && new.selected_command_idx == 0
                && new.error_message is None && App::same_content(old, new)
        } else {
            typed(old, new, c)
        },
        Key::Ctrl(c) => if c == 'c' {
            r is Quit && new.should_exit && new.state == old.state
        } else {
            r is Nothing && new == old
        },
        Key::Esc => if old.mode == UIMode::Chat {
            r is Quit && new.should_exit && new.state == old.state
        } else {
            &&& r is Nothing
            &&& new.mode == UIMode::Chat
            &&& new.command_search@.len() == 0
            &&& new.modal_input@.len() == 0
            &&& new.error_message is None
            &&& App::same_content(old, new)
        },
        Key::Enter => enter_effect(old, new, r),
        Key::Backspace => r is Nothing && erased(old, new),
        Key::Up | Key::Down => r is Nothing && new.mode == old.mode && new.state == old.state && new.input_buffer
            == old.input_buffer && new.command_search == old.command_search && new.modal_input == old.modal_input,
        Key::Other => r is Nothing && new == old,
    }
}

/// An event the main loop consumes, in arrival order.
pub enum AppEvent {
    Key(Key),
    Tick,
    Render,
    /// An answer, its usage if reported, and how long it took in
    /// milliseconds.
    LlmResponse(String, Option<Usage>, u64),
    LlmError(String),
}

/// `s` without its leading `/` characters.
pub open spec fn strip_slashes(s: Seq<char>) -> Seq<char>
    decreases s.len(),
{
    if s.len() > 0 && s[0] == '/' {
        strip_slashes(s.drop_first())
    } else {
        s
    }
}

/// The modal a command name opens, for the commands that take structured
/// input.
pub open spec fn modal_for_name(w: Seq<char>) -> Option<ModalType> {
    if w == "model"@ || w == "m"@ {
        Some(ModalType::ModelSelector)
    } else if w == "temp"@ || w == "temperature"@ {
        Some(ModalType::SetTemperature)
    } else if w == "delete"@ || w == "del"@ || w == "rm"@ {
        Some(ModalType::DeleteMessage)
    } else if w == "save"@ || w == "export"@ {
        Some(ModalType::SaveResponse)
    } else if w == "rename"@ {
        Some(ModalType::RenameSession)
    } else if w == "prompt"@ || w == "p"@ {
        Some(ModalType::LoadPrompt)
    } else {
        None
    }
}

/// The modal a submitted command line opens: by its first word once the
/// leading slashes are gone.
pub open spec fn modal_for_line(line: Seq<char>) -> Option<ModalType> {
    let ws = words(strip_slashes(line));
    if ws.len() == 0 {
        None
    } else {
        modal_for_name(ws[0])
    }
}

/// The command a modal's text is handed to, ending in a space before the
/// argument.
pub open spec fn modal_prefix(m: ModalType) -> Seq<char> {
    match m {
        ModalType::SetTemperature => "/set temp "@,
        ModalType::DeleteMessage => "/delete "@,
        ModalType::SaveResponse => "/save "@,
        ModalType::RenameSession => "/rename "@,
        _ => "/prompt "@,
    }
}

fn modal_for(w: &str) -> (r: Option<ModalType>)
    ensures
        r == modal_for_name(w@),
{
    if same_text(w, "model") || same_text(w, "m") {
        Some(ModalType::ModelSelector)
    } else if same_text(w, "temp") || same_text(w, "temperature") {
        Some(ModalType::SetTemperature)
    } else if same_text(w, "delete") || same_text(w, "del") || same_text(w, "rm") {
        Some(ModalType::DeleteMessage)
    } else if same_text(w, "save") || same_text(w, "export") {
        Some(ModalType::SaveResponse)
    } else if same_text(w, "rename") {
        Some(ModalType::RenameSession)
    } else if same_text(w, "prompt") || same_text(w, "p") {
        Some(ModalType::LoadPrompt)
    } else {
        None
    }
}

fn line_modal(line: &str) -> (r: Option<ModalType>)
    ensures
        r == modal_for_line(line@),
{
    let n = line.unicode_len();
    let mut i: usize = 0;
    assert(line@.subrange(0, n as int) =~= line@);
    while i < n && line.get_char(i) == '/'
        invariant
            n == line@.len(),
            i <= n,
            strip_slashes(line@) == strip_slashes(line@.subrange(i as int, n as int)),
        decreases n - i,
    {
        assert(line@.subrange(i as int, n as int).drop_first() =~= line@.subrange(i + 1, n as int));
        i += 1;
    }
    let ws = split_words_from(line, i);
    if ws.len() == 0 {
        None
    } else {
        modal_for(ws[0].as_str())
    }
}

impl App {
    /// The palette rows shown for the current search, as positions in the
    /// command table, in table order.
    pub fn get_filtered_commands(&self) -> (r: Vec<usize>)
        ensures
            r@ == shown_rows(self.command_registry.table(), self.command_search@, self.command_registry.table().len() as int),
    {
        let cs = self.command_registry.get_all_commands();
        let q = self.command_search.as_str();
        let all = q.unicode_len() == 0;
        let mut out: Vec<usize> = Vec::new();
        let mut i: usize = 0;
        while i < cs.len()
            invariant
                cs@ == self.command_registry.table(),
                q@ == self.command_search@,
                all == (q@.len() == 0),
                i <= cs@.len(),
                out@ == shown_rows(cs@, q@, i as int),
            decreases cs@.len() - i,
        {
            let c = &cs[i];
            if all || contains_text(c.name, q) || contains_text(c.help, q) {
                out.push(i);
            }
            i += 1;
        }
        out
    }

    /// Scrolls the transcript back, or moves the selection up in the palette
    /// or the model selector.
    pub fn scroll_up(&mut self)
        requires
            old(self).wf(),
        ensures
            final(self).wf(),
            final(self).mode == old(self).mode,
            final(self).state == old(self).state,
            final(self).input_buffer == old(self).input_buffer,
            final(self).command_search == old(self).command_search,
            final(self).modal_input == old(self).modal_input,
            final(self).is_loading == old(self).is_loading,
            match old(self).mode {
                UIMode::Chat => final(self).scroll_offset == vstd::math::min(
                    old(self).scroll_offset + 3,
                    vstd::math::min((old(self).state.session.messages@.len() * 5) as int, usize::MAX as int),
                ),
                UIMode::CommandPalette => final(self).selected_command_idx == if old(self).selected_command_idx == 0 {
                    0
                } else {
                    old(self).selected_command_idx - 1
                },
                UIMode::Modal(ModalType::ModelSelector) => final(self).selected_model_idx == if old(self).selected_model_idx == 0 {
                    0
                } else {
                    old(self).selected_model_idx - 1
                },
                UIMode::Modal(_) => final(self).selected_model_idx == old(self).selected_model_idx,
            },
    {
        match self.mode {
            UIMode::Chat => {
                let n = self.state.session.messages.len();
                let max_scroll: usize = if n <= usize::MAX / 5 { n * 5 } else { usize::MAX };
                let up: usize = if self.scroll_offset <= usize::MAX - SCROLL_STEP { self.scroll_offset + SCROLL_STEP } else { usize::MAX };
                self.scroll_offset = if up < max_scroll { up } else { max_scroll };
            },
            UIMode::CommandPalette => {
                if self.selected_command_idx > 0 {
                    self.selected_command_idx = self.selected_command_idx - 1;
                }
            },
            UIMode::Modal(ModalType::ModelSelector) => {
                if self.selected_model_idx > 0 {
                    self.selected_model_idx = self.selected_model_idx - 1;
                }
            },
            UIMode::Modal(_) => {},
        }
    }

    /// Scrolls the transcript forward, or moves the selection down in the
    /// palette or the model selector, never past the last row.
    pub fn scroll_down(&mut self)
        requires
            old(self).wf(),
        ensures
            final(self).wf(),
            final(self).mode == old(self).mode,
            final(self).state == old(self).state,
            final(self).input_buffer == old(self).input_buffer,
            final(self).command_search == old(self).command_search,
            final(self).modal_input == old(self).modal_input,
            final(self).is_loading == old(self).is_loading,
            old(self).mode == UIMode::Chat ==> final(self).scroll_offset == if old(self).scroll_offset < 3 {
                0
            } else {
                old(self).scroll_offset - 3
            },
            old(self).mode == UIMode::Modal(ModalType::ModelSelector) ==> final(self).selected_model_idx == if old(self).selected_model_idx + 1 < old(self).model_registry.entries@.len() {
                old(self).selected_model_idx + 1
            } else {
                old(self).selected_model_idx as int
            },
            old(self).mode == UIMode::CommandPalette ==> final(self).selected_command_idx == if old(self).selected_command_idx + 1
                < old(self).palette_rows().len() {
                old(self).selected_command_idx + 1
            } else {
                old(self).selected_command_idx as int
            },
    {
        match self.mode {
            UIMode::Chat => {
                self.scroll_offset = if self.scroll_offset < SCROLL_STEP { 0 } else { self.scroll_offset - SCROLL_STEP };
            },
            UIMode::CommandPalette => {
                let count = self.get_filtered_commands().len();
                if count > 0 && self.selected_command_idx < count - 1 {
                    self.selected_command_idx = self.selected_command_idx + 1;
                }
            },
            UIMode::Modal(ModalType::ModelSelector) => {
                let count = self.model_registry.len();
                if count > 0 && self.selected_model_idx < count - 1 {
                    self.selected_model_idx = self.selected_model_idx + 1;
                }
            },
            UIMode::Modal(_) => {},
        }
    }

    /// Shows `text` in the banner; it expires after `ERROR_TICKS` ticks.
    pub fn show_banner(&mut self, text: String)
        requires
            old(self).wf(),
        ensures
            final(self).wf(),
            final(self).error_message == Some(text),
            final(self).error_ticks == 0,
            App::same_content(*old(self), *final(self)),
            final(self).mode == old(self).mode,
            final(self).state == old(self).state,
            final(self).input_buffer == old(self).input_buffer,
    {
        self.error_message = Some(text);
        self.error_ticks = 0;
    }

    /// Records a failed completion: the banner shows `error` and loading
    /// ends.
    pub fn set_error(&mut self, error: String)
        requires
            old(self).wf(),
        ensures
            final(self).wf(),
            final(self).error_message == Some(error),
            final(self).error_ticks == 0,
            !final(self).is_loading,
            final(self).should_exit == old(self).should_exit,
            final(self).mode == old(self).mode,
            final(self).state == old(self).state,
            final(self).input_buffer == old(self).input_buffer,
    {
        self.error_message = Some(error);
        self.error_ticks = 0;
        self.is_loading = false;
    }

    /// Advances the animation; a banner older than `ERROR_TICKS` ticks goes
    /// away.
    pub fn tick(&mut self)
        requires
            old(self).wf(),
        ensures
            final(self).wf(),
            final(self).tick_count == if old(self).tick_count == u32::MAX { 0 } else { old(self).tick_count + 1 },
            old(self).error_message is Some && old(self).error_ticks + 1 > ERROR_TICKS ==> final(self).error_message is None,
            old(self).error_message is Some && old(self).error_ticks + 1 <= ERROR_TICKS ==> final(self).error_message
                == old(self).error_message && final(self).error_ticks == old(self).error_ticks + 1,
            old(self).error_message is None ==> final(self).error_message is None,
            final(self).mode == old(self).mode,
            final(self).state == old(self).state,
            final(self).is_loading == old(self).is_loading,
            final(self).input_buffer == old(self).input_buffer,
            final(self).command_search == old(self).command_search,
            final(self).modal_input == old(self).modal_input,
    {
        self.tick_count = if self.tick_count == u32::MAX { 0 } else { self.tick_count + 1 };
        if self.error_message.is_some() {
            self.error_ticks = self.error_ticks + 1;
            if self.error_ticks > ERROR_TICKS {
                self.error_message = None;
                self.error_ticks = 0;
            }
        }
    }

    /// The spinner frame for the current tick.
    pub fn get_loading_spinner(&self) -> (r: &'static str)
        ensures
            r@ == spinner_frame((self.tick_count % 4) as nat),
    {
        let k = self.tick_count % 4;
        if k == 0 {
            "\u{280b}"
        } else if k == 1 {
            "\u{2819}"
        } else if k == 2 {
            "\u{2839}"
        } else {
            "\u{2838}"
        }
    }

    /// The messages to show, in order.
    pub fn get_visible_messages(&self) -> (r: &Vec<ChatMessage>)
        ensures
            r@ == self.state.session.messages@,
    {
        &self.state.session.messages
    }

    /// Tokens per second of the last answer, in thousandths; 0 when no time
    /// was measured.
    pub fn tokens_per_second_milli(&self) -> (r: u64)
        ensures
            r == if self.last_response_ms == 0 {
                0
            } else {
                (self.last_tokens as nat * 1000000) / (self.last_response_ms as nat)
            },
    {
        if self.last_response_ms == 0 {
            0
        } else {
            (self.last_tokens as u64) * 1000000 / self.last_response_ms
        }
    }
}

/// The spinner's frames: four braille dots patterns.
pub open spec fn spinner_frame(k: nat) -> Seq<char> {
    if k == 0 {
        "\u{280b}"@
    } else if k == 1 {
        "\u{2819}"@
    } else if k == 2 {
        "\u{2839}"@
    } else {
        "\u{2838}"@
    }
}

impl App {
    /// Takes the text of the active mode. In the chat: the trimmed input, when
    /// not empty, which clears the input. In the palette: `/` and the selected
    /// row's name, which closes the palette. In a modal: the trimmed field,
    /// which is cleared in any case and closes the modal when not empty.
    pub fn submit_input(&mut self) -> (r: Option<String>)
        requires
            old(self).wf(),
        ensures
            final(self).wf(),
            App::same_content(*old(self), *final(self)),
            old(self).mode == UIMode::Chat ==> if trimmed(old(self).input_buffer@).len() > 0 {
                r matches Some(t) && t@ == trimmed(old(self).input_buffer@) && final(self).input_buffer@.len() == 0
                    && final(self).mode == UIMode::Chat
            } else {
                r is None && *final(self) == *old(self)
            },
            old(self).mode == UIMode::CommandPalette ==> if old(self).selected_command_idx < old(self).palette_rows().len() {
                &&& r matches Some(l) && l@ == seq!['/'] + old(self).command_registry.table()[old(self).palette_rows()[old(self).selected_command_idx as int] as int].name@
                &&& final(self).mode == UIMode::Chat
                &&& final(self).command_search@.len() == 0
                &&& final(self).selected_command_idx == 0
                &&& final(self).error_message is None
            } else {
                r is None && *final(self) == *old(self)
            },
            old(self).mode is Modal ==> final(self).modal_input@.len() == 0 && if trimmed(old(self).modal_input@).len() > 0 {
                &&& r matches Some(t) && t@ == trimmed(old(self).modal_input@)
                &&& final(self).mode == UIMode::Chat
                &&& final(self).selected_model_idx == 0
                &&& final(self).error_message is None
            } else {
                r is None && final(self).mode == old(self).mode
            },
    {
        match self.mode {
            UIMode::Chat => {
                let t = trim(self.input_buffer.as_str());
                if t.unicode_len() > 0 {
                    self.input_buffer = String::new();
                    Some(t)
                } else {
                    None
                }
            },
            UIMode::CommandPalette => {
                let filtered = self.get_filtered_commands();
                if self.selected_command_idx < filtered.len() {
                    let row = filtered[self.selected_command_idx];
                    proof {
                        lemma_shown_rows_below(self.command_registry.table(), self.command_search@,
                            self.command_registry.table().len() as int);
                    }
                    let cs = self.command_registry.get_all_commands();
                    let mut line = String::from_str("/");
                    line.append(cs[row].name);
                    proof {
                        reveal_strlit("/");
                        assert("/"@ =~= seq!['/']);
                    }
                    self.close_command_palette();
                    Some(line)
                } else {
                    None
                }
            },
            UIMode::Modal(_) => {
                let t = trim(self.modal_input.as_str());
                self.modal_input = String::new();
                if t.unicode_len() > 0 {
                    self.close_modal();
                    Some(t)
                } else {
                    None
                }
            },
        }
    }

    /// Sends a submitted command line on: a command that takes structured
    /// input opens its modal, any other is run by the dispatcher.
    fn route_line(&mut self, line: String) -> (r: Action)
        requires
            old(self).wf(),
            old(self).mode == UIMode::Chat,
        ensures
            final(self).wf(),
            App::same_content(*old(self), *final(self)),
            match modal_for_line(line@) {
                Some(m) => r is Nothing && final(self).mode == UIMode::Modal(m) && final(self).modal_input@.len() == 0
                    && final(self).error_message is None && final(self).selected_command_idx == 0
                    && final(self).selected_model_idx == 0,
                None => (r matches Action::RunCommand(l) && l == line) && *final(self) == *old(self),
            },
    {
        match line_modal(line.as_str()) {
            Some(m) => {
                self.open_modal(m);
                Action::Nothing
            },
            None => Action::RunCommand(line),
        }
    }

    /// Enter: submits the active mode's text. Plain chat text becomes a user
    /// message and starts a completion, unless one is already pending: then
    /// nothing happens and the text stays in the input.
    pub fn press_enter(&mut self) -> (r: Action)
        requires
            old(self).wf(),
        ensures
            final(self).wf(),
            enter_effect(*old(self), *final(self), r),
    {
        match self.mode {
            UIMode::Modal(ModalType::ModelSelector) => {
                let names = self.model_registry.names();
                assert(texts(names@).len() == names@.len());
                if self.selected_model_idx < names.len() {
                    let name = names[self.selected_model_idx].clone();
                    assert(texts(names@)[self.selected_model_idx as int] == names@[self.selected_model_idx as int]@);
                    self.close_modal();
                    Action::SwitchModel(name)
                } else {
                    Action::Nothing
                }
            },
            UIMode::Modal(m) => match self.submit_input() {
                Some(t) => {
                    let mut line = String::from_str(match m {
                        ModalType::SetTemperature => "/set temp ",
                        ModalType::DeleteMessage => "/delete ",
                        ModalType::SaveResponse => "/save ",
                        ModalType::RenameSession => "/rename ",
                        _ => "/prompt ",
                    });
                    line.append(t.as_str());
                    Action::RunCommand(line)
                },
                None => Action::Nothing,
            },
            UIMode::CommandPalette => match self.submit_input() {
                Some(line) => self.route_line(line),
                None => Action::Nothing,
            },
            UIMode::Chat => {
                let t = trim(self.input_buffer.as_str());
                if t.unicode_len() == 0 {
                    return Action::Nothing;
                }
                if t.get_char(0) == '/' {
                    self.input_buffer = String::new();
                    return self.route_line(t);
                }
                if self.is_loading {
                    return Action::Nothing;
                }
                if !self.state.session.has_room(None) {
                    self.show_banner(String::from_str("The transcript is full"));
                    return Action::Nothing;
                }
                self.input_buffer = String::new();
                self.state.session.add_message(Role::User, t, None);
                self.is_loading = true;
                Action::StartCompletion
            },
        }
    }

    /// Applies one key press.
    pub fn handle_key(&mut self, key: Key) -> (r: Action)
        requires
            old(self).wf(),
        ensures
            final(self).wf(),
            key_effect(*old(self), *final(self), key, r),
    {
        match key {
            Key::Char(c) => {
                if c == '/' && self.mode == UIMode::Chat && self.input_buffer.as_str().unicode_len() == 0 {
                    self.open_command_palette();
                } else {
                    self.handle_input_char(c);
                }
                Action::Nothing
            },
            Key::Ctrl(c) => {
                if c == 'c' {
                    self.should_exit = true;
                    Action::Quit
                } else {
                    Action::Nothing
                }
            },
            Key::Esc => match self.mode {
                UIMode::Chat => {
                    self.should_exit = true;
                    Action::Quit
                },
                UIMode::CommandPalette => {
                    self.close_command_palette();
                    Action::Nothing
                },
                UIMode::Modal(_) => {
                    self.close_modal();
                    Action::Nothing
                },
            },
            Key::Enter => self.press_enter(),
            Key::Backspace => {
                self.handle_backspace();
                Action::Nothing
            },
            Key::Up => {
                self.scroll_up();
                Action::Nothing
            },
            Key::Down => {
                self.scroll_down();
                Action::Nothing
            },
            Key::Other => Action::Nothing,
        }
    }

    /// Appends an answer to the transcript and ends loading; the view returns
    /// to the newest message. An answer that does not fit is shown as an
    /// error instead.
    pub fn add_assistant_message(&mut self, text: String, usage: Option<Usage>)
        requires
            old(self).wf(),
        ensures
            final(self).wf(),
            !final(self).is_loading,
            final(self).mode == old(self).mode,
            final(self).should_exit == old(self).should_exit,
            final(self).scroll_offset == 0,
            ({
                let tokens = match usage {
                    Some(u) => Some(u.completion_tokens),
                    None => None::<u32>,
                };
                if old(self).state.session.room_for(tokens) {
                    &&& final(self).state.session.messages@.drop_last() == old(self).state.session.messages@
                    &&& final(self).state.session.messages@.len() == old(self).state.session.messages@.len() + 1
                    &&& final(self).state.session.messages@.last().role == Role::Assistant
                    &&& final(self).state.session.messages@.last().content == text
                    &&& final(self).state.session.messages@.last().tokens == tokens
                    &&& final(self).state.session.messages@.last().id == old(self).state.session.metadata.next_message_id
                    &&& final(self).scroll_offset == 0
                } else {
                    final(self).state == old(self).state && final(self).error_message is Some
                }
            }),
    {
        let tokens = match &usage {
            Some(u) => Some(u.completion_tokens),
            None => None,
        };
        if self.state.session.has_room(tokens) {
            self.state.session.add_message(Role::Assistant, text, tokens);
            self.scroll_offset = 0;
            self.is_loading = false;
        } else {
            self.set_error(String::from_str("The transcript is full"));
            self.scroll_offset = 0;
        }
    }

    /// Applies one event in arrival order: a key, a tick, a redraw request,
    /// or the outcome of the pending completion.
    pub fn handle_event(&mut self, event: AppEvent) -> (r: Action)
        requires
            old(self).wf(),
        ensures
            final(self).wf(),
            r is StartCompletion ==> !old(self).is_loading && final(self).is_loading,
            event is Key ==> key_effect(*old(self), *final(self), event->Key_0, r),
            event is Tick ==> r is Nothing && final(self).state == old(self).state && final(self).mode == old(self).mode
                && final(self).is_loading == old(self).is_loading && (old(self).error_message is Some
                && old(self).error_ticks + 1 > ERROR_TICKS ==> final(self).error_message is None),
            event is Render ==> *final(self) == *old(self) && r is Nothing,
            event is LlmError ==> !final(self).is_loading && final(self).error_message == Some(event->LlmError_0)
                && final(self).state == old(self).state && final(self).should_exit == old(self).should_exit
                && final(self).mode == old(self).mode && r is Nothing,
            event matches AppEvent::LlmResponse(text, usage, elapsed) ==> {
                let tokens = match usage {
                    Some(u) => Some(u.completion_tokens),
                    None => None::<u32>,
                };
                &&& !final(self).is_loading
                &&& r is Nothing
                &&& final(self).should_exit == old(self).should_exit
                &&& final(self).mode == old(self).mode
                &&& final(self).scroll_offset == 0
                &&& final(self).last_response_ms == elapsed
                &&& final(self).last_tokens == match tokens {
                    Some(t) => t,
                    None => 0,
                }
                &&& old(self).state.session.room_for(tokens) ==> {
                    &&& final(self).state.session.messages@.drop_last() == old(self).state.session.messages@
                    &&& final(self).state.session.messages@.len() == old(self).state.session.messages@.len() + 1
                    &&& final(self).state.session.messages@.last().role == Role::Assistant
                    &&& final(self).state.session.messages@.last().content == text
                    &&& final(self).state.session.messages@.last().tokens == tokens
                    &&& final(self).state.session.messages@.last().id == old(self).state.session.metadata.next_message_id
                }
                &&& !old(self).state.session.room_for(tokens) ==> final(self).state == old(self).state
                    && final(self).error_message is Some
            },
    {
        match event {
            AppEvent::Key(k) => self.handle_key(k),
            AppEvent::Tick => {
                self.tick();
                Action::Nothing
            },
            AppEvent::Render => Action::Nothing,
            AppEvent::LlmResponse(text, usage, elapsed) => {
                let tokens: u32 = match &usage {
                    Some(u) => u.completion_tokens,
                    None => 0,
                };
                self.add_assistant_message(text, usage);
                self.last_tokens = tokens;
                self.last_response_ms = elapsed;
                Action::Nothing
            },
            AppEvent::LlmError(e) => {
                self.set_error(e);
                Action::Nothing
            },
        }
    }

    /// Runs a command line against the chat state; an exit command ends the
    /// loop.
    pub fn run_command(&mut self, line: &str, config: &RuboxConfig) -> (d: Dispatch)
        requires
            old(self).wf(),
        ensures
            final(self).wf(),
            handle_effect(old(self).command_registry.table(), line@, old(self).state, final(self).state, d, *config),
            final(self).should_exit == (old(self).should_exit || d.result is Exit),
            final(self).mode == old(self).mode,
            final(self).is_loading == old(self).is_loading,
    {
        let d = self.command_registry.handle(line, &mut self.state, config);
        if let CommandResult::Exit = d.result {
            self.should_exit = true;
        }
        d
    }

    /// Records that the server now runs `model`.
    pub fn model_switched(&mut self, model: String)
        requires
            old(self).wf(),
        ensures
            final(self).wf(),
            final(self).state.current_model == model,
            final(self).state.session == old(self).state.session,
            final(self).mode == old(self).mode,
    {
        self.state.current_model = model;
    }
}

/// In every state the transitions reach, one mode is active and the buffers
/// of the other modes are empty: entering a mode starts it with empty
/// buffers, and typing only ever fills the active mode's buffer.
pub proof fn lemma_inactive_buffers_empty(app: App)
    requires
        app.wf(),
    ensures
        app.mode != UIMode::Chat ==> app.input_buffer@.len() == 0,
        app.mode != UIMode::CommandPalette ==> app.command_search@.len() == 0,
        !(app.mode is Modal) ==> app.modal_input@.len() == 0,
{
}

/// The command line that the temperature modal sends for a field `t` without
/// white space reads as the words `set`, `temp` and `t`.
proof fn lemma_set_temp_words(t: Seq<char>)
    requires
        t.len() > 0,
        forall|i: int| 0 <= i < t.len() ==> !white_space(#[trigger] t[i]),
    ensures
        command_words(modal_prefix(ModalType::SetTemperature) + t) == seq!["set"@, "temp"@, t],
{
    reveal_strlit("/set temp ");
    reveal_strlit("set");
    reveal_strlit("temp");
    let set = "set"@;
    let temp = "temp"@;
    let e = Seq::<char>::empty();
    assert forall|i: int| 0 <= i < set.len() implies !white_space(#[trigger] set[i]) by {}
    assert forall|i: int| 0 <= i < temp.len() implies !white_space(#[trigger] temp[i]) by {}
    assert(scan_words(e) == (Seq::<Seq<char>>::empty(), e));
    lemma_scan_extends(e, set);
    let a = e + set;
    assert(e + set =~= set);
    let b = a.push(' ');
    assert(b.drop_last() =~= a);
    assert(scan_words(b) == (seq![set], e));
    lemma_scan_extends(b, temp);
    let c = b + temp;
    assert(e + temp =~= temp);
    let d = c.push(' ');
    assert(d.drop_last() =~= c);
    assert(scan_words(d) == (seq![set, temp], e));
    lemma_scan_extends(d, t);
    assert(e + t =~= t);
    assert((modal_prefix(ModalType::SetTemperature) + t).drop_first() =~= d + t);
    assert(words(d + t) =~= seq![set, temp, t]);
}

/// In the temperature modal, Enter on a field that spells a value `x` sends
/// `/set temp x` to the dispatcher, which checks it against the configured
/// range: a value outside it leaves the chat state as it was and is answered
/// with a rejection that names it; one inside it, either end included,
/// becomes the temperature of the chat and of the session.
pub proof fn lemma_temperature_modal(
    a0: App,
    a1: App,
    r: Action,
    s2: ChatState,
    d: Dispatch,
    config: RuboxConfig,
    x: nat,
)
    requires
        a0.wf(),
        a1.wf(),
        a0.mode == UIMode::Modal(ModalType::SetTemperature),
        enter_effect(a0, a1, r),
        milli_value(trimmed(a0.modal_input@)) == Some(x),
        handle_effect(a1.command_registry.table(), (r->RunCommand_0)@, a1.state, s2, d, config),
        config.temperature.min <= config.temperature.max,
    ensures
        r is RunCommand,
        a1.mode == UIMode::Chat,
        a1.state == a0.state,
        x < config.temperature.min || x > config.temperature.max ==> s2 == a0.state
            && d.reply == Reply::TemperatureOutOfRange(x as u32),
        config.temperature.min <= x <= config.temperature.max ==> s2.temperature == x
            && s2.session.metadata.temperature == x
            && s2.session.messages == a0.state.session.messages
            && d.reply == Reply::TemperatureSet(x as u32),
{
    let t = trimmed(a0.modal_input@);
    lemma_milli_chars(t);
    assert forall|i: int| 0 <= i < t.len() implies !white_space(#[trigger] t[i]) by {
        assert(is_digit(t[i]) || t[i] == '.' || t[i] == '+');
    }
    lemma_set_temp_words(t);
    let l = r->RunCommand_0;
    lemma_set_temperature_line(&a1.command_registry, l@, t, a1.state, s2, d, config, x);
}

} // verus!
