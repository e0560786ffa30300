//! The command dispatcher: a fixed table of slash-commands and the handlers
//! that act on the chat state. Handlers are synchronous; outside work they
//! need (writing the session, listing files, restarting the server) is
//! handed back to the caller in the result.
use vstd::prelude::*;
use vstd::string::*;
use crate::config::{entry_names, RuboxConfig};
use crate::number::{is_digit, milli_value, parse_milli, parse_usize, usize_value};
use crate::session::{find_id, has_id, id_base, lemma_delete_keeps_ids, restored, ChatMessage, Role, Session};
use crate::text::{
    string_of_range, lemma_words_trailing_space, white_space, chars_of, decimal_spelling, push_char, push_decimal, same_text, split_words_from, texts, words,
};

verus! {

/// What a command does.
#[derive(PartialEq, Eq, Structural, Clone, Copy, Debug)]
pub enum CommandKind {
    Help,
    Exit,
    Verbose,
    Model,
    History,
    Delete,
    Save,
    SetParameter,
    Temp,
    Sessions,
    Load,
    Rename,
    Prompt,
}

/// One row of the command table.
pub struct Command {
    pub name: &'static str,
    pub aliases: Vec<&'static str>,
    pub kind: CommandKind,
    pub help: &'static str,
}

/// How the main loop goes on after a command.
pub enum CommandResult {
    Continue,
    Exit,
    /// Stop the server and start it again with this model.
    SwitchModel(String),
}

/// What the user is told after a command, and any listing or file the caller
/// produces for it.
pub enum Reply {
    /// Show the command table.
    Help,
    /// The session was handed over for saving and the chat ends.
    Goodbye,
    Verbose(bool),
    /// Show the registered models, numbered from 1 in name order.
    ModelList,
    Switching(String),
    InvalidModelIndex,
    ModelUsage,
    /// Show the transcript: id, role and a preview of each message.
    History,
    DeleteUsage,
    DeletedAll,
    Deleted(usize),
    MessageNotFound(usize),
    /// An argument that should be a number is not one.
    NotANumber(String),
    SaveUsage,
    /// Write `content` to the file `path`.
    SaveResponse { path: String, content: String },
    SetUsage,
    TemperatureSet(u32),
    /// The value lies outside the configured range.
    TemperatureOutOfRange(u32),
    UnknownParameter(String),
    Temperature(u32),
    /// List the stored sessions, newest first.
    Sessions,
    LoadNote,
    RenameUsage,
    Renamed(String),
    /// List the static prompts.
    PromptList,
    /// Add the static prompt at this place of the sorted prompt list, counted
    /// from 0, to the session as a user message.
    LoadPrompt(usize),
    InvalidPromptIndex,
    UnknownCommand(String),
}

/// The outcome of one command.
pub struct Dispatch {
    pub result: CommandResult,
    pub reply: Reply,
    /// The session changed in a way that is written out at once.
    pub persist: bool,
}

/// The state that commands act on.
pub struct ChatState {
    pub session: Session,
    pub current_model: String,
    pub verbose: bool,
    /// Thousandths.
    pub temperature: u32,
}

impl ChatState {
    pub open spec fn wf(&self) -> bool {
        self.session.wf()
    }
}

/// Whether `tok` is the command's name or one of its aliases.
pub open spec fn names_command(c: Command, tok: Seq<char>) -> bool {
    c.name@ == tok || exists|j: int| 0 <= j < c.aliases@.len() && #[trigger] c.aliases@[j]@ == tok
}

/// The kind of the first command in the table that `tok` names.
pub open spec fn find_command(cs: Seq<Command>, tok: Seq<char>) -> Option<CommandKind>
    decreases cs.len(),
{
    if cs.len() == 0 {
        None
    } else if names_command(cs[0], tok) {
        Some(cs[0].kind)
    } else {
        find_command(cs.drop_first(), tok)
    }
}

/// The names a command answers to, as character sequences.
pub open spec fn alias_texts(c: Command) -> Seq<Seq<char>> {
    c.aliases@.map_values(|a: &str| a@)
}

/// Row `c` has this name, these aliases, this kind and this help text.
pub open spec fn row(c: Command, name: Seq<char>, aliases: Seq<Seq<char>>, kind: CommandKind, help: Seq<char>) -> bool {
    c.name@ == name && alias_texts(c) == aliases && c.kind == kind && c.help@ == help
}

/// The command table, in the order it is searched and shown.
pub open spec fn standard_table(cs: Seq<Command>) -> bool {
    &&& cs.len() == 13
    &&& row(cs[0], "help"@, seq!["h"@, "?"@], CommandKind::Help, "Show this help message"@)
    &&& row(cs[1], "exit"@, seq!["quit"@, "q"@], CommandKind::Exit, "Save and exit chat"@)
    &&& row(cs[2], "verbose"@, seq!["v"@], CommandKind::Verbose, "Toggle verbose mode (show stats)"@)
    &&& row(cs[3], "model"@, seq!["m"@], CommandKind::Model, "List or switch models"@)
    &&& row(cs[4], "history"@, seq!["hist"@], CommandKind::History, "Show conversation history"@)
    &&& row(cs[5], "delete"@, seq!["del"@, "rm"@], CommandKind::Delete, "Delete message(s): /delete <id|all>"@)
    &&& row(cs[6], "save"@, seq!["export"@], CommandKind::Save, "Save response: /save <id>"@)
    &&& row(cs[7], "set"@, seq![], CommandKind::SetParameter, "Set parameter: /set temp <value>"@)
    &&& row(cs[8], "temp"@, seq!["temperature"@], CommandKind::Temp, "Show current temperature"@)
    &&& row(cs[9], "sessions"@, seq!["sess"@], CommandKind::Sessions, "List all sessions"@)
    &&& row(cs[10], "load"@, seq![], CommandKind::Load, "Load session: /load <id>"@)
    &&& row(cs[11], "rename"@, seq![], CommandKind::Rename, "Rename session: /rename <label>"@)
    &&& row(cs[12], "prompt"@, seq!["p"@], CommandKind::Prompt, "Load static prompt: /prompt <id|list>"@)
}

/// The words of a command line after its leading marker character.
pub open spec fn command_words(input: Seq<char>) -> Seq<Seq<char>> {
    if input.len() == 0 {
        Seq::empty()
    } else {
        words(input.drop_first())
    }
}

/// The words joined by `_`.
pub open spec fn underscore_joined(ws: Seq<Seq<char>>) -> Seq<char>
    decreases ws.len(),
{
    if ws.len() == 0 {
        Seq::empty()
    } else if ws.len() == 1 {
        ws[0]
    } else {
        underscore_joined(ws.drop_last()).push('_') + ws.last()
    }
}

/// The file a saved response is written to.
pub open spec fn response_path(dir: Seq<char>, session_id: Seq<char>, id: nat) -> Seq<char> {
    dir + seq!['/'] + session_id + seq!['_'] + decimal_spelling(id) + ".txt"@
}

fn command(name: &'static str, aliases: Vec<&'static str>, kind: CommandKind, help: &'static str) -> (r: Command)
    ensures
        r.name == name,
        r.aliases == aliases,
        r.kind == kind,
        r.help == help,
{
    Command { name, aliases, kind, help }
}

/// The table of commands.
pub struct CommandRegistry {
    commands: Vec<Command>,
}

impl CommandRegistry {
    pub open spec fn wf(&self) -> bool {
        standard_table(self.table())
    }

    /// The commands, in table order.
    pub closed spec fn table(&self) -> Seq<Command> {
        self.commands@
    }

    /// The registry with the standard table.
    pub fn new() -> (r: CommandRegistry)
        ensures
            r.wf(),
    {
        let commands = vec![
            command("help", vec!["h", "?"], CommandKind::Help, "Show this help message"),
            command("exit", vec!["quit", "q"], CommandKind::Exit, "Save and exit chat"),
            command("verbose", vec!["v"], CommandKind::Verbose, "Toggle verbose mode (show stats)"),
            command("model", vec!["m"], CommandKind::Model, "List or switch models"),
            command("history", vec!["hist"], CommandKind::History, "Show conversation history"),
            command("delete", vec!["del", "rm"], CommandKind::Delete, "Delete message(s): /delete <id|all>"),
            command("save", vec!["export"], CommandKind::Save, "Save response: /save <id>"),
            command("set", vec![], CommandKind::SetParameter, "Set parameter: /set temp <value>"),
            command("temp", vec!["temperature"], CommandKind::Temp, "Show current temperature"),
            command("sessions", vec!["sess"], CommandKind::Sessions, "List all sessions"),
            command("load", vec![], CommandKind::Load, "Load session: /load <id>"),
            command("rename", vec![], CommandKind::Rename, "Rename session: /rename <label>"),
            command("prompt", vec!["p"], CommandKind::Prompt, "Load static prompt: /prompt <id|list>"),
        ];
        let r = CommandRegistry { commands };
        proof {
            let cs = r.commands@;
            assert(alias_texts(cs[0]) =~= seq!["h"@, "?"@]);
            assert(alias_texts(cs[1]) =~= seq!["quit"@, "q"@]);
            assert(alias_texts(cs[2]) =~= seq!["v"@]);
            assert(alias_texts(cs[3]) =~= seq!["m"@]);
            assert(alias_texts(cs[4]) =~= seq!["hist"@]);
            assert(alias_texts(cs[5]) =~= seq!["del"@, "rm"@]);
            assert(alias_texts(cs[6]) =~= seq!["export"@]);
            assert(alias_texts(cs[7]) =~= seq![]);
            assert(alias_texts(cs[8]) =~= seq!["temperature"@]);
            assert(alias_texts(cs[9]) =~= seq!["sess"@]);
            assert(alias_texts(cs[10]) =~= seq![]);
            assert(alias_texts(cs[11]) =~= seq![]);
            assert(alias_texts(cs[12]) =~= seq!["p"@]);
        }
        r
    }

    /// All commands, in table order.
    pub fn get_all_commands(&self) -> (r: &[Command])
        ensures
            r@ == self.table(),
    {
        self.commands.as_slice()
    }

    /// The kind of the command that `tok` names, searched in table order.
    pub fn lookup(&self, tok: &str) -> (r: Option<CommandKind>)
        ensures
            r == find_command(self.table(), tok@),
    {
        let cs = &self.commands;
        let mut i: usize = 0;
        assert(cs@.subrange(0, cs@.len() as int) =~= cs@);
        while i < cs.len()
            invariant
                cs@ == self.commands@,
                i <= cs@.len(),
                find_command(cs@, tok@) == find_command(cs@.subrange(i as int, cs@.len() as int), tok@),
            decreases cs@.len() - i,
        {
            let ghost rest = cs@.subrange(i as int, cs@.len() as int);
            assert(rest.drop_first() =~= cs@.subrange(i + 1, cs@.len() as int));
            assert(rest[0] == cs@[i as int]);
            let c = &cs[i];
            let mut hit = same_text(c.name, tok);
            let mut j: usize = 0;
            while !hit && j < c.aliases.len()
                invariant
                    j <= c.aliases@.len(),
                    hit ==> names_command(*c, tok@),
                    !hit ==> c.name@ != tok@ && forall|k: int| 0 <= k < j ==> #[trigger] c.aliases@[k]@ != tok@,
                decreases c.aliases@.len() - j + if hit { 0int } else { 1int },
            {
                hit = same_text(c.aliases[j], tok);
                j += 1;
            }
            if hit {
                return Some(c.kind);
            }
            i += 1;
        }
        None
    }
}

/// Joins words with `_`.
fn join_underscore(ws: &Vec<String>, from: usize) -> (r: String)
    requires
        from < ws@.len(),
    ensures
        r@ == underscore_joined(texts(ws@.subrange(from as int, ws@.len() as int))),
{
    let mut out = ws[from].clone();
    let n = ws.len();
    let mut i: usize = from + 1;
    proof {
        let t = texts(ws@.subrange(from as int, from + 1));
        assert(t =~= seq![ws@[from as int]@]);
    }
    while i < ws.len()
        invariant
            from < i <= ws@.len(),
            out@ == underscore_joined(texts(ws@.subrange(from as int, i as int))),
        decreases ws@.len() - i,
    {
        push_char(&mut out, '_');
        out.append(ws[i].as_str());
        proof {
            let t = texts(ws@.subrange(from as int, i + 1));
            assert(t.drop_last() =~= texts(ws@.subrange(from as int, i as int)));
            assert(t.last() == ws@[i as int]@);
        }
        i += 1;
    }
    out
}

/// The file name a saved response goes to.
fn response_file(dir: &str, session_id: &str, id: usize) -> (r: String)
    ensures
        r@ == response_path(dir@, session_id@, id as nat),
{
    let mut p = String::from_str(dir);
    push_char(&mut p, '/');
    p.append(session_id);
    push_char(&mut p, '_');
    push_decimal(&mut p, id);
    p.append(".txt");
    proof {
        assert(p@ =~= response_path(dir@, session_id@, id as nat));
    }
    p
}

fn reply_only(reply: Reply) -> (r: Dispatch)
    ensures
        r.result is Continue,
        r.reply == reply,
        !r.persist,
{
    Dispatch { result: CommandResult::Continue, reply, persist: false }
}

/// What `/set` does: with a `temp` parameter and a value inside the range the
/// temperature becomes that value; every other input changes nothing.
pub open spec fn set_effect(
    args: Seq<Seq<char>>,
    old: ChatState,
    new: ChatState,
    d: Dispatch,
    config: RuboxConfig,
) -> bool {
    &&& d.result is Continue
    &&& !d.persist
    &&& if args.len() < 2 {
        new == old && d.reply is SetUsage
    } else if args[0] != "temp"@ && args[0] != "temperature"@ {
        new == old && (d.reply matches Reply::UnknownParameter(p) && p@ == args[0])
    } else {
        match milli_value(args[1]) {
            None => new == old && d.reply is NotANumber,
            Some(v) => if v < config.temperature.min || v > config.temperature.max {
                new == old && d.reply == Reply::TemperatureOutOfRange(v as u32)
            } else {
                &&& new.temperature == v
                &&& new.session.metadata == (crate::session::SessionMetadata { temperature: v as u32, ..old.session.metadata })
                &&& new.session.messages == old.session.messages
                &&& new.current_model == old.current_model
                &&& new.verbose == old.verbose
                &&& d.reply == Reply::TemperatureSet(v as u32)
            },
        }
    }
}

/// `/set temp <value>`: validates the value against the configured range.
fn cmd_set(state: &mut ChatState, args: &Vec<String>, config: &RuboxConfig) -> (d: Dispatch)
    requires
        old(state).wf(),
    ensures
        final(state).wf(),
        set_effect(texts(args@), *old(state), *final(state), d, *config),
{
    if args.len() < 2 {
        return reply_only(Reply::SetUsage);
    }
    if !same_text(args[0].as_str(), "temp") && !same_text(args[0].as_str(), "temperature") {
        return reply_only(Reply::UnknownParameter(args[0].clone()));
    }
    match parse_milli(args[1].as_str()) {
        None => reply_only(Reply::NotANumber(args[1].clone())),
        Some(v) => {
            if v < config.temperature.min || v > config.temperature.max {
                return reply_only(Reply::TemperatureOutOfRange(v));
            }
            state.temperature = v;
            state.session.metadata.temperature = v;
            reply_only(Reply::TemperatureSet(v))
        },
    }
}

/// A command that only answers: state unchanged, the loop goes on.
pub open spec fn answers(old: ChatState, new: ChatState, d: Dispatch) -> bool {
    new == old && d.result is Continue && !d.persist
}

/// What `/model` does: without argument it lists the models; with a number
/// from 1 to the number of models it asks to switch to that model in name
/// order; otherwise it explains. The state never changes here.
pub open spec fn model_effect(args: Seq<Seq<char>>, old: ChatState, new: ChatState, d: Dispatch, config: RuboxConfig) -> bool {
    let names = entry_names(config.models.registry.entries@);
    &&& new == old
    &&& !d.persist
    &&& if args.len() == 0 {
        d.result is Continue && d.reply is ModelList
    } else {
        match usize_value(args[0]) {
            None => d.result is Continue && d.reply is ModelUsage,
            Some(i) => if 1 <= i <= names.len() {
                &&& d.result matches CommandResult::SwitchModel(m) && m@ == names[i - 1]
                &&& d.reply matches Reply::Switching(m) && m@ == names[i - 1]
            } else {
                d.result is Continue && d.reply is InvalidModelIndex
            },
        }
    }
}

/// What `/delete` does: `all` empties the transcript, a number removes that
/// message; both are written out at once, also where no message has that id.
/// A missing argument, a bad or an unknown id changes nothing.
pub open spec fn delete_effect(args: Seq<Seq<char>>, old: ChatState, new: ChatState, d: Dispatch) -> bool {
    &&& d.result is Continue
    &&& new.current_model == old.current_model
    &&& new.verbose == old.verbose
    &&& new.temperature == old.temperature
    &&& new.session.metadata.model_name == old.session.metadata.model_name
    &&& new.session.metadata.created_at == old.session.metadata.created_at
    &&& new.session.metadata.temperature == old.session.metadata.temperature
    &&& new.session.metadata.label == old.session.metadata.label
    &&& new.session.metadata.id == old.session.metadata.id
    &&& new.session.metadata.next_message_id == old.session.metadata.next_message_id
    &&& new.session.metadata.last_modified >= old.session.metadata.last_modified
    &&& (args.len() > 0 && usize_value(args[0]) is Some ==> d.persist)
    &&& if args.len() == 0 {
        new == old && !d.persist && d.reply is DeleteUsage
    } else if args[0] == "all"@ {
        &&& new.session.messages@.len() == 0
        &&& new.session.metadata.message_count == 0
        &&& new.session.metadata.total_tokens == 0
        &&& new.session.metadata.next_message_id == old.session.metadata.next_message_id
        &&& new.session.metadata.id == old.session.metadata.id
        &&& d.persist
        &&& d.reply is DeletedAll
    } else {
        match usize_value(args[0]) {
            None => new == old && !d.persist && d.reply is NotANumber,
            Some(id) => if has_id(old.session.messages@, id) {
                &&& exists|i: int|
                    0 <= i < old.session.messages@.len() && #[trigger] old.session.messages@[i].id == id
                        && new.session.messages@ == old.session.messages@.remove(i)
                &&& new.session.metadata.next_message_id == old.session.metadata.next_message_id
                &&& new.session.metadata.id == old.session.metadata.id
                &&& d.persist
                &&& d.reply == Reply::Deleted(id as usize)
            } else {
                new == old && d.persist && d.reply == Reply::MessageNotFound(id as usize)
            },
        }
    }
}

/// What `/save` does: it names the file for the message's raw text, or
/// explains; the state never changes.
pub open spec fn save_effect(args: Seq<Seq<char>>, old: ChatState, new: ChatState, d: Dispatch, config: RuboxConfig) -> bool {
    &&& answers(old, new, d)
    &&& if args.len() == 0 {
        d.reply is SaveUsage
    } else {
        match usize_value(args[0]) {
            None => d.reply is NotANumber,
            Some(id) => match find_id(old.session.messages@, id) {
                Some(m) => (d.reply matches Reply::SaveResponse { path, content } && content == m.content
                    && path@ == response_path(config.directories.saved_responses@, old.session.metadata.id@, id)),
                None => d.reply == Reply::MessageNotFound(id as usize),
            },
        }
    }
}

/// What `/rename` does: the session id becomes its base, `_`, and the words
/// joined by `_`; the session is written out at once.
pub open spec fn rename_effect(args: Seq<Seq<char>>, old: ChatState, new: ChatState, d: Dispatch) -> bool {
    &&& d.result is Continue
    &&& if args.len() == 0 {
        new == old && !d.persist && d.reply is RenameUsage
    } else {
        &&& new.session.messages == old.session.messages
        &&& new.session.metadata.id@ == id_base(old.session.metadata.id@) + "_"@ + underscore_joined(args)
        &&& new.session.metadata.label matches Some(l) && l@ == underscore_joined(args)
        &&& new.current_model == old.current_model
        &&& new.verbose == old.verbose
        &&& new.temperature == old.temperature
        &&& d.persist
        &&& d.reply matches Reply::Renamed(id) && id == new.session.metadata.id
    }
}

/// What `/prompt` does: list the prompts, or ask for the one with the given
/// number (from 1); the state never changes here.
pub open spec fn prompt_effect(args: Seq<Seq<char>>, old: ChatState, new: ChatState, d: Dispatch) -> bool {
    &&& answers(old, new, d)
    &&& if args.len() == 0 || args[0] == "list"@ {
        d.reply is PromptList
    } else {
        match usize_value(args[0]) {
            None => d.reply is NotANumber,
            Some(n) => if n == 0 {
                d.reply is InvalidPromptIndex
            } else {
                d.reply == Reply::LoadPrompt((n - 1) as usize)
            },
        }
    }
}

/// What the command of kind `k` does with arguments `args`.
pub open spec fn command_effect(
    k: CommandKind,
    args: Seq<Seq<char>>,
    old: ChatState,
    new: ChatState,
    d: Dispatch,
    config: RuboxConfig,
) -> bool {
    match k {
        CommandKind::Help => answers(old, new, d) && d.reply is Help,
        CommandKind::Exit => new == old && d.result is Exit && d.persist && d.reply is Goodbye,
        CommandKind::Verbose => new == (ChatState { verbose: !old.verbose, ..old }) && d.result is Continue
            && !d.persist && d.reply == Reply::Verbose(!old.verbose),
        CommandKind::Model => model_effect(args, old, new, d, config),
        CommandKind::History => answers(old, new, d) && d.reply is History,
        CommandKind::Delete => delete_effect(args, old, new, d),
        CommandKind::Save => save_effect(args, old, new, d, config),
        CommandKind::SetParameter => set_effect(args, old, new, d, config),
        CommandKind::Temp => answers(old, new, d) && d.reply == Reply::Temperature(old.temperature),
        CommandKind::Sessions => answers(old, new, d) && d.reply is Sessions,
        CommandKind::Load => answers(old, new, d) && d.reply is LoadNote,
        CommandKind::Rename => rename_effect(args, old, new, d),
        CommandKind::Prompt => prompt_effect(args, old, new, d),
    }
}

/// What running the command line `input` against the table `cs` does.
pub open spec fn handle_effect(
    cs: Seq<Command>,
    input: Seq<char>,
    old: ChatState,
    new: ChatState,
    d: Dispatch,
    config: RuboxConfig,
) -> bool {
    let ws = command_words(input);
    if ws.len() == 0 {
        answers(old, new, d) && d.reply is Help
    } else {
        match find_command(cs, ws[0]) {
            None => answers(old, new, d) && (d.reply matches Reply::UnknownCommand(t) && t@ == ws[0]),
            Some(k) => command_effect(k, ws.drop_first(), old, new, d, config),
        }
    }
}

fn cmd_model(state: &ChatState, args: &Vec<String>, config: &RuboxConfig) -> (d: Dispatch)
    ensures
        model_effect(texts(args@), *state, *state, d, *config),
{
    if args.len() == 0 {
        return reply_only(Reply::ModelList);
    }
    match parse_usize(args[0].as_str()) {
        None => reply_only(Reply::ModelUsage),
        Some(index) => {
            let names = config.models.registry.names();
            if index > 0 && index <= names.len() {
                let m = names[index - 1].clone();
                let shown = names[index - 1].clone();
                Dispatch { result: CommandResult::SwitchModel(m), reply: Reply::Switching(shown), persist: false }
            } else {
                reply_only(Reply::InvalidModelIndex)
            }
        },
    }
}

fn cmd_delete(state: &mut ChatState, args: &Vec<String>) -> (d: Dispatch)
    requires
        old(state).wf(),
    ensures
        final(state).wf(),
        delete_effect(texts(args@), *old(state), *final(state), d),
{
    if args.len() == 0 {
        return reply_only(Reply::DeleteUsage);
    }
    if same_text(args[0].as_str(), "all") {
        state.session.clear_all();
        return Dispatch { result: CommandResult::Continue, reply: Reply::DeletedAll, persist: true };
    }
    match parse_usize(args[0].as_str()) {
        None => reply_only(Reply::NotANumber(args[0].clone())),
        Some(id) => match state.session.delete_message(id) {
            Ok(()) => Dispatch { result: CommandResult::Continue, reply: Reply::Deleted(id), persist: true },
            Err(_) => Dispatch { result: CommandResult::Continue, reply: Reply::MessageNotFound(id), persist: true },
        },
    }
}

fn cmd_save(state: &ChatState, args: &Vec<String>, config: &RuboxConfig) -> (d: Dispatch)
    requires
        state.wf(),
    ensures
        save_effect(texts(args@), *state, *state, d, *config),
{
    if args.len() == 0 {
        return reply_only(Reply::SaveUsage);
    }
    match parse_usize(args[0].as_str()) {
        None => reply_only(Reply::NotANumber(args[0].clone())),
        Some(id) => match state.session.get_message(id) {
            Some(m) => {
                let path = response_file(
                    config.directories.saved_responses.as_str(),
                    state.session.metadata.id.as_str(),
                    id,
                );
                reply_only(Reply::SaveResponse { path, content: m.content.clone() })
            },
            None => reply_only(Reply::MessageNotFound(id)),
        },
    }
}

fn cmd_rename(state: &mut ChatState, args: &Vec<String>) -> (d: Dispatch)
    requires
        old(state).wf(),
    ensures
        final(state).wf(),
        rename_effect(texts(args@), *old(state), *final(state), d),
{
    if args.len() == 0 {
        return reply_only(Reply::RenameUsage);
    }
    let label = join_underscore(args, 0);
    assert(args@.subrange(0, args@.len() as int) =~= args@);
    state.session.rename(label);
    let id = state.session.metadata.id.clone();
    Dispatch { result: CommandResult::Continue, reply: Reply::Renamed(id), persist: true }
}

fn cmd_prompt(args: &Vec<String>) -> (d: Dispatch)
    ensures
        d.result is Continue,
        !d.persist,
        forall|st: ChatState| #[trigger] prompt_effect(texts(args@), st, st, d),
{
    if args.len() == 0 || same_text(args[0].as_str(), "list") {
        return reply_only(Reply::PromptList);
    }
    match parse_usize(args[0].as_str()) {
        None => reply_only(Reply::NotANumber(args[0].clone())),
        Some(n) => if n == 0 {
            reply_only(Reply::InvalidPromptIndex)
        } else {
            reply_only(Reply::LoadPrompt(n - 1))
        },
    }
}

impl CommandRegistry {
    /// Runs one command line: the words after its first character are split on
    /// white space, the first is looked up case-sensitively among names and
    /// aliases in table order, and the rest are the command's arguments. An
    /// empty line shows the help; an unknown name changes nothing.
    pub fn handle(&self, input: &str, state: &mut ChatState, config: &RuboxConfig) -> (d: Dispatch)
        requires
            self.wf(),
            old(state).wf(),
        ensures
            final(state).wf(),
            handle_effect(self.table(), input@, *old(state), *final(state), d, *config),
    {
        let n = input.unicode_len();
        if n == 0 {
            return reply_only(Reply::Help);
        }
        let mut ws = split_words_from(input, 1);
        assert(input@.subrange(1, n as int) =~= input@.drop_first());
        if ws.len() == 0 {
            return reply_only(Reply::Help);
        }
        let args = ws.split_off(1);
        assert(texts(args@) =~= command_words(input@).drop_first());
        let kind = self.lookup(ws[0].as_str());
        match kind {
            None => reply_only(Reply::UnknownCommand(ws[0].clone())),
            Some(k) => match k {
                CommandKind::Help => reply_only(Reply::Help),
                CommandKind::Exit => Dispatch { result: CommandResult::Exit, reply: Reply::Goodbye, persist: true },
                CommandKind::Verbose => {
                    state.verbose = !state.verbose;
                    reply_only(Reply::Verbose(state.verbose))
                },
                CommandKind::Model => cmd_model(state, &args, config),
                CommandKind::History => reply_only(Reply::History),
                CommandKind::Delete => cmd_delete(state, &args),
                CommandKind::Save => cmd_save(state, &args, config),
                CommandKind::SetParameter => cmd_set(state, &args, config),
                CommandKind::Temp => reply_only(Reply::Temperature(state.temperature)),
                CommandKind::Sessions => reply_only(Reply::Sessions),
                CommandKind::Load => reply_only(Reply::LoadNote),
                CommandKind::Rename => cmd_rename(state, &args),
                CommandKind::Prompt => cmd_prompt(&args),
            },
        }
    }
}

/// `/m` and `/model` name the same command, and white space after the name
/// changes neither the name nor the arguments; with `handle`'s contract, a
/// name that the table does not know leaves the state as it was.
pub proof fn lemma_model_command_forms(reg: &CommandRegistry, input: Seq<char>, c: char)
    requires
        reg.wf(),
        input.len() > 0,
        white_space(c),
    ensures
        find_command(reg.table(), "m"@) == Some(CommandKind::Model),
        find_command(reg.table(), "model"@) == Some(CommandKind::Model),
        command_words(input.push(c)) == command_words(input),
{
    let cs = reg.table();
    reveal_strlit("help");
    reveal_strlit("h");
    reveal_strlit("?");
    reveal_strlit("exit");
    reveal_strlit("quit");
    reveal_strlit("q");
    reveal_strlit("verbose");
    reveal_strlit("v");
    reveal_strlit("model");
    reveal_strlit("m");
    assert(cs.drop_first()[0] == cs[1]);
    assert(cs.drop_first().drop_first()[0] == cs[2]);
    assert(cs.drop_first().drop_first().drop_first()[0] == cs[3]);
    assert forall|tok: Seq<char>| tok == "m"@ || tok == "model"@ implies {
        &&& !names_command(cs[0], tok)
        &&& !names_command(cs[1], tok)
        &&& !names_command(cs[2], tok)
        &&& names_command(cs[3], tok)
    } by {
        assert(tok.len() == 1 ==> tok[0] == 'm');
        assert(tok.len() != 1 ==> tok.len() == 5);
        let a0 = alias_texts(cs[0]);
        let a1 = alias_texts(cs[1]);
        let a2 = alias_texts(cs[2]);
        let a3 = alias_texts(cs[3]);
        assert(a0.len() == 2 && a1.len() == 2 && a2.len() == 1 && a3.len() == 1);
        assert(a0[0] == "h"@ && a0[1] == "?"@);
        assert(a1[0] == "quit"@ && a1[1] == "q"@);
        assert(a2[0] == "v"@);
        assert(a3[0] == "m"@);
        assert(a0[0] != tok && a0[1] != tok && a1[0] != tok && a1[1] != tok && a2[0] != tok) by {
            if tok.len() == 1 {
                assert(a0[0][0] != tok[0]);
                assert(a0[1][0] != tok[0]);
                assert(a1[1][0] != tok[0]);
                assert(a2[0][0] != tok[0]);
            }
        }
        assert forall|j: int| 0 <= j < cs[0].aliases@.len() implies #[trigger] cs[0].aliases@[j]@ != tok by {
            assert(cs[0].aliases@[j]@ == a0[j]);
        }
        assert forall|j: int| 0 <= j < cs[1].aliases@.len() implies #[trigger] cs[1].aliases@[j]@ != tok by {
            assert(cs[1].aliases@[j]@ == a1[j]);
        }
        assert forall|j: int| 0 <= j < cs[2].aliases@.len() implies #[trigger] cs[2].aliases@[j]@ != tok by {
            assert(cs[2].aliases@[j]@ == a2[j]);
        }
        assert(cs[0].name@ != tok && cs[1].name@ != tok && cs[2].name@ != tok) by {
            if tok.len() == 5 {
                assert(cs[2].name@[0] != tok[0]);
            }
        }
        if tok == "m"@ {
            assert(cs[3].aliases@[0]@ == a3[0]);
        }
    }
    lemma_found_fourth(cs, "m"@);
    lemma_found_fourth(cs, "model"@);
    assert(input.push(c).drop_first() =~= input.drop_first().push(c));
    lemma_words_trailing_space(input.drop_first(), c);
}

proof fn lemma_found_fourth(cs: Seq<Command>, tok: Seq<char>)
    requires
        cs.len() > 3,
        !names_command(cs[0], tok),
        !names_command(cs[1], tok),
        !names_command(cs[2], tok),
        names_command(cs[3], tok),
    ensures
        find_command(cs, tok) == Some(cs[3].kind),
{
    let d1 = cs.drop_first();
    let d2 = d1.drop_first();
    let d3 = d2.drop_first();
    assert(d1[0] == cs[1] && d2[0] == cs[2] && d3[0] == cs[3]);
    assert(find_command(d3, tok) == Some(cs[3].kind));
    assert(find_command(d2, tok) == find_command(d3, tok));
    assert(find_command(d1, tok) == find_command(d2, tok));
}

/// A temperature outside the configured range leaves the whole state as it
/// was and is answered with a rejection that names the value; one inside it,
/// either end included, becomes the temperature of the chat and of the
/// session.
pub proof fn lemma_temperature_bounds(
    args: Seq<Seq<char>>,
    old: ChatState,
    new: ChatState,
    d: Dispatch,
    config: RuboxConfig,
    v: nat,
)
    requires
        set_effect(args, old, new, d, config),
        args.len() >= 2,
        args[0] == "temp"@,
        milli_value(args[1]) == Some(v),
        config.temperature.min <= config.temperature.max,
    ensures
        v < config.temperature.min || v > config.temperature.max ==> new == old
            && d.reply == Reply::TemperatureOutOfRange(v as u32),
        config.temperature.min <= v <= config.temperature.max ==> new.temperature == v
            && new.session.metadata.temperature == v
            && new.session.messages == old.session.messages
            && d.reply == Reply::TemperatureSet(v as u32),
        v == config.temperature.min || v == config.temperature.max ==> new.temperature == v,
{
}

/// `s` followed by spaces up to `w` characters.
pub open spec fn padded(s: Seq<char>, w: nat) -> Seq<char> {
    if s.len() >= w {
        s
    } else {
        s + Seq::new((w - s.len()) as nat, |i: int| ' ')
    }
}

/// One help line: `  /name` padded to fifteen characters of name, ` - `,
/// the help text and a newline.
pub open spec fn help_line(c: Command) -> Seq<char> {
    "  /"@ + padded(c.name@, 15) + " - "@ + c.help@ + seq!['\n']
}

/// The help lines of a table.
pub open spec fn help_lines(cs: Seq<Command>) -> Seq<char>
    decreases cs.len(),
{
    if cs.len() == 0 {
        Seq::empty()
    } else {
        help_lines(cs.drop_last()) + help_line(cs.last())
    }
}

/// The first `n` characters of the content shown in a history line.
pub const PREVIEW_CHARS: usize = 50;

/// At most the first `PREVIEW_CHARS` characters of `content`.
pub fn preview(content: &str) -> (r: String)
    ensures
        r@ == content@.subrange(0, vstd::math::min(content@.len() as int, PREVIEW_CHARS as int)),
{
    let cs = chars_of(content);
    let n = if cs.len() < PREVIEW_CHARS { cs.len() } else { PREVIEW_CHARS };
    string_of_range(&cs, 0, n)
}

fn push_padded(out: &mut String, s: &str, w: usize)
    ensures
        final(out)@ == old(out)@ + padded(s@, w as nat),
{
    out.append(s);
    let n = s.unicode_len();
    let mut k: usize = n;
    let ghost base = old(out)@ + s@;
    while k < w
        invariant
            n == s@.len(),
            n <= k <= w || (n > w && k == n),
            out@ == base + Seq::new((k - n) as nat, |i: int| ' '),
        decreases w - k,
    {
        push_char(out, ' ');
        assert(Seq::new((k + 1 - n) as nat, |i: int| ' ') =~= Seq::new((k - n) as nat, |i: int| ' ').push(' '));
        k += 1;
    }
    proof {
        if n >= w {
            assert(Seq::new(0nat, |i: int| ' ') =~= Seq::<char>::empty());
            assert(out@ =~= old(out)@ + padded(s@, w as nat));
        } else {
            assert(out@ =~= old(out)@ + padded(s@, w as nat));
        }
    }
}

impl CommandRegistry {
    /// The command table as text: a title line, then one line per command.
    pub fn get_help_text(&self) -> (r: String)
        ensures
            r@ == "Available Commands:\n"@ + help_lines(self.table()),
    {
        let mut help = String::from_str("Available Commands:\n");
        let cs = &self.commands;
        let mut i: usize = 0;
        while i < cs.len()
            invariant
                cs@ == self.table(),
                i <= cs@.len(),
                help@ == "Available Commands:\n"@ + help_lines(cs@.subrange(0, i as int)),
            decreases cs@.len() - i,
        {
            let ghost before = help@;
            help.append("  /");
            push_padded(&mut help, cs[i].name, 15);
            help.append(" - ");
            help.append(cs[i].help);
            push_char(&mut help, '\n');
            proof {
                assert(cs@.subrange(0, i + 1).drop_last() =~= cs@.subrange(0, i as int));
                assert(help@ =~= before + help_line(cs@[i as int]));
            }
            i += 1;
        }
        assert(cs@.subrange(0, cs@.len() as int) =~= cs@);
        help
    }
}

/// The name of the static prompt `/prompt` picked: `index` counts from 0
/// into the sorted prompt names; `None` when there is no such prompt.
pub fn prompt_at(names: &Vec<String>, index: usize) -> (r: Option<&String>)
    ensures
        r matches Some(n) ==> index < names@.len() && *n == names@[index as int],
        r is None ==> index >= names@.len(),
{
    if index < names.len() {
        Some(&names[index])
    } else {
        None
    }
}

/// Adds the text of a loaded static prompt to the session as a user message.
/// Without room for one more message nothing changes and `false` comes back.
pub fn add_prompt_message(state: &mut ChatState, content: String) -> (r: bool)
    requires
        old(state).wf(),
    ensures
        final(state).wf(),
        r == old(state).session.room_for(None),
        !r ==> *final(state) == *old(state),
        r ==> {
            &&& final(state).session.messages@.drop_last() == old(state).session.messages@
            &&& final(state).session.messages@.len() == old(state).session.messages@.len() + 1
            &&& final(state).session.messages@.last().role == Role::User
            &&& final(state).session.messages@.last().content == content
            &&& final(state).session.messages@.last().tokens is None
            &&& final(state).session.messages@.last().id == old(state).session.metadata.next_message_id
            &&& final(state).current_model == old(state).current_model
            &&& final(state).temperature == old(state).temperature
            &&& final(state).verbose == old(state).verbose
        },
{
    if !state.session.has_room(None) {
        return false;
    }
    state.session.add_message(Role::User, content, None);
    true
}

/// Deleting one message and then saving another by its id writes the raw
/// text that message had before the delete: ids are never renumbered.
pub proof fn lemma_save_after_delete(
    del_args: Seq<Seq<char>>,
    save_args: Seq<Seq<char>>,
    s0: ChatState,
    s1: ChatState,
    s2: ChatState,
    d1: Dispatch,
    d2: Dispatch,
    config: RuboxConfig,
    gone: nat,
    kept: nat,
)
    requires
        s0.wf(),
        delete_effect(del_args, s0, s1, d1),
        del_args.len() > 0,
        del_args[0] != "all"@,
        usize_value(del_args[0]) == Some(gone),
        has_id(s0.session.messages@, gone),
        save_effect(save_args, s1, s2, d2, config),
        save_args.len() > 0,
        usize_value(save_args[0]) == Some(kept),
        kept != gone,
    ensures
        match find_id(s0.session.messages@, kept) {
            Some(m) => (d2.reply matches Reply::SaveResponse { path, content } && content == m.content
                && path@ == response_path(config.directories.saved_responses@, s0.session.metadata.id@, kept)),
            None => d2.reply == Reply::MessageNotFound(kept as usize),
        },
{
    let ms = s0.session.messages@;
    let i = choose|i: int| 0 <= i < ms.len() && #[trigger] ms[i].id == gone && s1.session.messages@ == ms.remove(i);
    lemma_delete_keeps_ids(s0.session.metadata, ms, i, kept);
}

/// `/delete all` empties the transcript, zeroes both counters, keeps the
/// session's id, and asks for the session to be written out at once.
pub proof fn lemma_delete_all(args: Seq<Seq<char>>, old: ChatState, new: ChatState, d: Dispatch)
    requires
        delete_effect(args, old, new, d),
        args.len() > 0,
        args[0] == "all"@,
    ensures
        new.session.messages@.len() == 0,
        new.session.metadata.message_count == 0,
        new.session.metadata.total_tokens == 0,
        new.session.metadata.id == old.session.metadata.id,
        new.session.metadata.last_modified >= old.session.metadata.last_modified,
        d.persist,
        d.result is Continue,
{
}

proof fn lemma_find_at(cs: Seq<Command>, tok: Seq<char>, n: int)
    requires
        0 <= n < cs.len(),
        forall|i: int| 0 <= i < n ==> !names_command(#[trigger] cs[i], tok),
        names_command(cs[n], tok),
    ensures
        find_command(cs, tok) == Some(cs[n].kind),
    decreases n,
{
    if n > 0 {
        let t = cs.drop_first();
        assert(!names_command(cs[0], tok));
        assert forall|i: int| 0 <= i < n - 1 implies !names_command(#[trigger] t[i], tok) by {
            assert(t[i] == cs[i + 1]);
        }
        assert(t[n - 1] == cs[n]);
        lemma_find_at(t, tok, n - 1);
    }
}

proof fn lemma_row_not(c: Command, tok: Seq<char>)
    requires
        c.name@ != tok,
        forall|j: int| 0 <= j < alias_texts(c).len() ==> #[trigger] alias_texts(c)[j] != tok,
    ensures
        !names_command(c, tok),
{
    assert forall|j: int| 0 <= j < c.aliases@.len() implies #[trigger] c.aliases@[j]@ != tok by {
        assert(c.aliases@[j]@ == alias_texts(c)[j]);
    }
}

/// Typed as a whole line, `/set temp <v>` goes to the temperature handler:
/// a value outside the configured range leaves the state as it was and is
/// answered with a rejection, and a value inside it, either end included,
/// is taken by the chat and by the session.
pub proof fn lemma_set_temperature_line(
    reg: &CommandRegistry,
    input: Seq<char>,
    v: Seq<char>,
    old: ChatState,
    new: ChatState,
    d: Dispatch,
    config: RuboxConfig,
    x: nat,
)
    requires
        reg.wf(),
        command_words(input) == seq!["set"@, "temp"@, v],
        handle_effect(reg.table(), input, old, new, d, config),
        milli_value(v) == Some(x),
        config.temperature.min <= config.temperature.max,
    ensures
        x < config.temperature.min || x > config.temperature.max ==> new == old
            && d.reply == Reply::TemperatureOutOfRange(x as u32),
        config.temperature.min <= x <= config.temperature.max ==> new.temperature == x
            && new.session.metadata.temperature == x
            && new.session.messages == old.session.messages
            && d.reply == Reply::TemperatureSet(x as u32),
        x == config.temperature.min || x == config.temperature.max ==> new.temperature == x,
{
    let cs = reg.table();
    let tok = "set"@;
    reveal_strlit("set");
    reveal_strlit("help");
    reveal_strlit("h");
    reveal_strlit("?");
    reveal_strlit("exit");
    reveal_strlit("quit");
    reveal_strlit("q");
    reveal_strlit("verbose");
    reveal_strlit("v");
    reveal_strlit("model");
    reveal_strlit("m");
    reveal_strlit("history");
    reveal_strlit("hist");
    reveal_strlit("delete");
    reveal_strlit("del");
    reveal_strlit("rm");
    reveal_strlit("save");
    reveal_strlit("export");
    assert(tok.len() == 3 && tok[0] == 's' && tok[1] == 'e');
    assert("del"@[0] == 'd');
    assert("save"@.len() == 4 && "hist"@.len() == 4);
    lemma_row_not(cs[0], tok);
    lemma_row_not(cs[1], tok);
    lemma_row_not(cs[2], tok);
    lemma_row_not(cs[3], tok);
    lemma_row_not(cs[4], tok);
    lemma_row_not(cs[5], tok);
    lemma_row_not(cs[6], tok);
    assert(cs[7].name@ == tok);
    lemma_find_at(cs, tok, 7);
    let ws = command_words(input);
    assert(ws.drop_first() =~= seq!["temp"@, v]);
    lemma_temperature_bounds(seq!["temp"@, v], old, new, d, config, x);
}

/// `delete` names the delete command of the standard table.
proof fn lemma_finds_delete(cs: Seq<Command>)
    requires
        standard_table(cs),
    ensures
        find_command(cs, "delete"@) == Some(CommandKind::Delete),
{
    let tok = "delete"@;
    reveal_strlit("delete");
    reveal_strlit("help");
    reveal_strlit("h");
    reveal_strlit("?");
    reveal_strlit("exit");
    reveal_strlit("quit");
    reveal_strlit("q");
    reveal_strlit("verbose");
    reveal_strlit("v");
    reveal_strlit("model");
    reveal_strlit("m");
    reveal_strlit("history");
    reveal_strlit("hist");
    assert(tok.len() == 6);
    lemma_row_not(cs[0], tok);
    lemma_row_not(cs[1], tok);
    lemma_row_not(cs[2], tok);
    lemma_row_not(cs[3], tok);
    lemma_row_not(cs[4], tok);
    assert(cs[5].name@ == tok);
    lemma_find_at(cs, tok, 5);
}

/// `save` names the save command of the standard table.
proof fn lemma_finds_save(cs: Seq<Command>)
    requires
        standard_table(cs),
    ensures
        find_command(cs, "save"@) == Some(CommandKind::Save),
{
    let tok = "save"@;
    reveal_strlit("save");
    reveal_strlit("help");
    reveal_strlit("h");
    reveal_strlit("?");
    reveal_strlit("exit");
    reveal_strlit("quit");
    reveal_strlit("q");
    reveal_strlit("verbose");
    reveal_strlit("v");
    reveal_strlit("model");
    reveal_strlit("m");
    reveal_strlit("history");
    reveal_strlit("hist");
    reveal_strlit("delete");
    reveal_strlit("del");
    reveal_strlit("rm");
    assert(tok.len() == 4 && tok[0] == 's');
    assert("help"@[0] == 'h' && "exit"@[0] == 'e' && "quit"@[0] == 'q' && "hist"@[0] == 'h');
    lemma_row_not(cs[0], tok);
    lemma_row_not(cs[1], tok);
    lemma_row_not(cs[2], tok);
    lemma_row_not(cs[3], tok);
    lemma_row_not(cs[4], tok);
    lemma_row_not(cs[5], tok);
    assert(cs[6].name@ == tok);
    lemma_find_at(cs, tok, 6);
}

/// Typed as lines, `/delete <g>` of a message that is there and then
/// `/save <k>` of any other id give the raw text that the message `k` had
/// before the delete, under its own id, and the save changes nothing: a
/// delete never renumbers the messages after it.
pub proof fn lemma_delete_then_save_lines(
    reg: &CommandRegistry,
    del_line: Seq<char>,
    save_line: Seq<char>,
    g: Seq<char>,
    k: Seq<char>,
    s0: ChatState,
    s1: ChatState,
    s2: ChatState,
    d1: Dispatch,
    d2: Dispatch,
    config: RuboxConfig,
    gone: nat,
    kept: nat,
)
    requires
        reg.wf(),
        s0.wf(),
        command_words(del_line) == seq!["delete"@, g],
        handle_effect(reg.table(), del_line, s0, s1, d1, config),
        command_words(save_line) == seq!["save"@, k],
        handle_effect(reg.table(), save_line, s1, s2, d2, config),
        usize_value(g) == Some(gone),
        has_id(s0.session.messages@, gone),
        usize_value(k) == Some(kept),
        kept != gone,
    ensures
        d1.persist,
        s2 == s1,
        match find_id(s0.session.messages@, kept) {
            Some(m) => (d2.reply matches Reply::SaveResponse { path, content } && content == m.content
                && path@ == response_path(config.directories.saved_responses@, s0.session.metadata.id@, kept)),
            None => d2.reply == Reply::MessageNotFound(kept as usize),
        },
{
    lemma_finds_delete(reg.table());
    lemma_finds_save(reg.table());
    reveal_strlit("all");
    assert(!is_digit("all"@[0]));
    assert(g != "all"@);
    let da = command_words(del_line).drop_first();
    let sa = command_words(save_line).drop_first();
    assert(da =~= seq![g]);
    assert(sa =~= seq![k]);
    lemma_save_after_delete(da, sa, s0, s1, s2, d1, d2, config, gone, kept);
}

/// Typed as a line, `/delete all` empties the transcript, zeroes both
/// counters, keeps the session's id and never moves its stamp back, and asks
/// for the session to be written out at once; the record written then reads
/// back as that empty session.
pub proof fn lemma_delete_all_line(
    reg: &CommandRegistry,
    input: Seq<char>,
    old: ChatState,
    new: ChatState,
    d: Dispatch,
    config: RuboxConfig,
)
    requires
        reg.wf(),
        new.wf(),
        command_words(input) == seq!["delete"@, "all"@],
        handle_effect(reg.table(), input, old, new, d, config),
    ensures
        new.session.messages@.len() == 0,
        new.session.metadata.message_count == 0,
        new.session.metadata.total_tokens == 0,
        new.session.metadata.id == old.session.metadata.id,
        new.session.metadata.last_modified >= old.session.metadata.last_modified,
        d.persist,
        d.result is Continue,
        restored(new.session.metadata, new.session.messages@) == Some((new.session.metadata, Seq::<ChatMessage>::empty())),
{
    lemma_finds_delete(reg.table());
    let args = command_words(input).drop_first();
    assert(args =~= seq!["all"@]);
    lemma_delete_all(args, old, new, d);
    assert(new.session.messages@ =~= Seq::<ChatMessage>::empty());
}

} // verus!
