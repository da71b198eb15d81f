//! Voice control: command definitions, recognition of a command in recognised
//! text, argument extraction and wake-word detection. Audio capture stays with the
//! caller.
use vstd::prelude::*;
use crate::accessibility::AccessibilityError;
use crate::strmap::StrMap;
use crate::text::{matches_at, chars_of, contains_seq, contains_str, find_str, first_index, lowercase, slice_string, str_eq, to_lowercase, views};

verus! {

/// Command context.
#[derive(Debug, Clone)]
pub enum CommandContext {
    Global,
    Editor,
    Terminal,
    FileExplorer,
    Debug,
    Search,
    Settings,
    Custom(String),
}

/// Two contexts are the same (custom contexts by name).
pub open spec fn same_context(a: CommandContext, b: CommandContext) -> bool {
    match (a, b) {
        (CommandContext::Global, CommandContext::Global) => true,
        (CommandContext::Editor, CommandContext::Editor) => true,
        (CommandContext::Terminal, CommandContext::Terminal) => true,
        (CommandContext::FileExplorer, CommandContext::FileExplorer) => true,
        (CommandContext::Debug, CommandContext::Debug) => true,
        (CommandContext::Search, CommandContext::Search) => true,
        (CommandContext::Settings, CommandContext::Settings) => true,
        (CommandContext::Custom(x), CommandContext::Custom(y)) => x@ == y@,
        _ => false,
    }
}

impl CommandContext {
    /// The default context is `Global`.
    pub fn default() -> (c: CommandContext)
        ensures c is Global,
    {
        CommandContext::Global
    }

    /// Whether two contexts are the same.
    pub fn same(&self, other: &CommandContext) -> (b: bool)
        ensures b == same_context(*self, *other),
    {
        match (self, other) {
            (CommandContext::Global, CommandContext::Global) => true,
            (CommandContext::Editor, CommandContext::Editor) => true,
            (CommandContext::Terminal, CommandContext::Terminal) => true,
            (CommandContext::FileExplorer, CommandContext::FileExplorer) => true,
            (CommandContext::Debug, CommandContext::Debug) => true,
            (CommandContext::Search, CommandContext::Search) => true,
            (CommandContext::Settings, CommandContext::Settings) => true,
            (CommandContext::Custom(x), CommandContext::Custom(y)) => str_eq(x.as_str(), y.as_str()),
            _ => false,
        }
    }

    /// A copy of the context.
    pub fn duplicate(&self) -> (c: CommandContext)
        ensures c == *self,
    {
        match self {
            CommandContext::Global => CommandContext::Global,
            CommandContext::Editor => CommandContext::Editor,
            CommandContext::Terminal => CommandContext::Terminal,
            CommandContext::FileExplorer => CommandContext::FileExplorer,
            CommandContext::Debug => CommandContext::Debug,
            CommandContext::Search => CommandContext::Search,
            CommandContext::Settings => CommandContext::Settings,
            CommandContext::Custom(x) => CommandContext::Custom(x.clone()),
        }
    }
}

/// Voice command definition.
#[derive(Debug, Clone)]
pub struct VoiceCommandDefinition {
    pub id: String,
    pub phrase: String,
    pub command: String,
    pub context: CommandContext,
    pub args_template: Vec<String>,
    pub enabled: bool,
}

/// A command recognised in text: the definition's phrase, command and context,
/// and the arguments extracted with its templates.
#[derive(Debug, Clone)]
pub struct RecognizedCommand {
    pub phrase: String,
    pub command: String,
    pub context: CommandContext,
    pub args: Vec<String>,
}

/// A template's text before and after its single "{}" placeholder; templates
/// without exactly one placeholder have no split.
pub open spec fn placeholder_split(t: Seq<char>) -> Option<(Seq<char>, Seq<char>)> {
    match first_index(t, "{}"@) {
        Some(i) => {
            let rest = t.subrange(i + 2, t.len() as int);
            if first_index(rest, "{}"@) is None {
                Some((t.subrange(0, i), rest))
            } else {
                None
            }
        },
        None => None,
    }
}

/// The argument that a template extracts from text: what lies between the first
/// occurrence of the text before the placeholder and the next occurrence of the
/// text after it.
pub open spec fn extract_spec(text: Seq<char>, template: Seq<char>) -> Option<Seq<char>> {
    match placeholder_split(template) {
        None => None,
        Some(parts) => match first_index(text, parts.0) {
            None => None,
            Some(a) => {
                let s = a + parts.0.len();
                match first_index(text.subrange(s, text.len() as int), parts.1) {
                    None => None,
                    Some(b) => Some(text.subrange(s, s + b)),
                }
            },
        },
    }
}

/// The arguments extracted with each template in turn (templates that extract
/// nothing are skipped).
pub open spec fn args_spec(templates: Seq<Seq<char>>, text: Seq<char>) -> Seq<Seq<char>>
    decreases templates.len(),
{
    if templates.len() == 0 {
        Seq::empty()
    } else {
        args_spec(templates.drop_last(), text) + match extract_spec(text, templates.last()) {
            Some(a) => seq![a],
            None => Seq::empty(),
        }
    }
}

/// Extract argument from text with a template such as "open {} now".
pub fn extract_argument(text: &str, template: &str) -> (r: Option<String>)
    ensures
        match r {
            Some(a) => extract_spec(text@, template@) == Some(a@),
            None => extract_spec(text@, template@) is None,
        },
{
    proof { reveal_strlit("{}"); }
    let t = chars_of(template);
    let ph = chars_of("{}");
    let i = match find_str(&t, &ph) {
        Some(i) => i,
        None => return None,
    };
    let tlen = t.len();
    assert(matches_at(t@, ph@, i as int));
    let rest = chars_of(slice_string(&t, i + 2, tlen).as_str());
    match find_str(&rest, &ph) {
        Some(_) => return None,
        None => {},
    }
    let p0 = chars_of(slice_string(&t, 0, i).as_str());
    let txt = chars_of(text);
    let a = match find_str(&txt, &p0) {
        Some(a) => a,
        None => return None,
    };
    let txt_len = txt.len();
    assert(matches_at(txt@, p0@, a as int));
    let s = a + p0.len();
    let tail = chars_of(slice_string(&txt, s, txt_len).as_str());
    match find_str(&tail, &rest) {
        Some(b) => Some(slice_string(&txt, s, s + b)),
        None => None,
    }
}

/// A definition applies to lower-cased text in a context when it is enabled, its
/// context is global or that context, and the text contains its lower-cased phrase.
pub open spec fn applies(d: VoiceCommandDefinition, ctx: CommandContext, text_lower: Seq<char>) -> bool {
    &&& d.enabled
    &&& (d.context is Global || same_context(d.context, ctx))
    &&& contains_seq(text_lower, lowercase(d.phrase@))
}

/// Speech recognizer state: command definitions by id, the current context and
/// whether it listens.
pub struct SpeechRecognizer {
    listening: bool,
    wake_word_detected: bool,
    commands: StrMap<VoiceCommandDefinition>,
    current_context: CommandContext,
}

impl SpeechRecognizer {
    pub closed spec fn wf(&self) -> bool {
        self.commands.wf()
    }

    pub closed spec fn commands_view(&self) -> Map<Seq<char>, VoiceCommandDefinition> {
        self.commands@
    }

    /// Definitions in the order they were added.
    pub closed spec fn command_seq(&self) -> Seq<VoiceCommandDefinition> {
        self.commands.value_seq()
    }

    pub closed spec fn context(&self) -> CommandContext {
        self.current_context
    }

    pub closed spec fn is_listening_spec(&self) -> bool {
        self.listening
    }

    pub closed spec fn wake_word_detected_spec(&self) -> bool {
        self.wake_word_detected
    }

    /// Create new speech recognizer: not listening, no commands, global context.
    pub fn new() -> (r: Self)
        ensures
            r.wf(),
            !r.is_listening_spec(),
            !r.wake_word_detected_spec(),
            r.commands_view() == Map::<Seq<char>, VoiceCommandDefinition>::empty(),
            r.command_seq().len() == 0,
            r.context() is Global,
    {
        SpeechRecognizer {
            listening: false,
            wake_word_detected: false,
            commands: StrMap::new(),
            current_context: CommandContext::Global,
        }
    }

    /// Start listening (the microphone stream is the caller's).
    pub fn start_listening(&mut self)
        ensures
            final(self).is_listening_spec(),
            final(self).wake_word_detected_spec() == old(self).wake_word_detected_spec(),
            final(self).commands_view() == old(self).commands_view(),
            final(self).command_seq() == old(self).command_seq(),
            final(self).context() == old(self).context(),
            final(self).wf() == old(self).wf(),
    {
        self.listening = true;
    }

    /// Stop listening; a detected wake word is forgotten.
    pub fn stop_listening(&mut self)
        ensures
            !final(self).is_listening_spec(),
            !final(self).wake_word_detected_spec(),
            final(self).commands_view() == old(self).commands_view(),
            final(self).command_seq() == old(self).command_seq(),
            final(self).context() == old(self).context(),
            final(self).wf() == old(self).wf(),
    {
        self.listening = false;
        self.wake_word_detected = false;
    }

    /// Check if listening.
    pub fn is_listening(&self) -> (b: bool)
        ensures b == self.is_listening_spec(),
    {
        self.listening
    }

    /// Add command under its id.
    pub fn add_command(&mut self, definition: VoiceCommandDefinition)
        requires old(self).wf(),
        ensures
            final(self).wf(),
            final(self).commands_view() == old(self).commands_view().insert(definition.id@, definition),
            final(self).context() == old(self).context(),
            final(self).is_listening_spec() == old(self).is_listening_spec(),
    {
        let id = definition.id.clone();
        self.commands.insert(id, definition);
    }

    /// Remove command.
    pub fn remove_command(&mut self, id: &str)
        requires old(self).wf(),
        ensures
            final(self).wf(),
            final(self).commands_view() == old(self).commands_view().remove(id@),
            final(self).context() == old(self).context(),
            final(self).is_listening_spec() == old(self).is_listening_spec(),
    {
        self.commands.remove(id);
    }

    /// Set current context.
    pub fn set_context(&mut self, context: CommandContext)
        requires old(self).wf(),
        ensures
            final(self).wf(),
            final(self).context() == context,
            final(self).commands_view() == old(self).commands_view(),
            final(self).command_seq() == old(self).command_seq(),
    {
        self.current_context = context;
    }

    /// Get current context.
    pub fn current_context(&self) -> (c: CommandContext)
        ensures c == self.context(),
    {
        self.current_context.duplicate()
    }

    /// Recognize command from text: the first definition (in the order they were
    /// added) that applies to the lower-cased text, with its arguments.
    pub fn recognize_command(&self, text: &str) -> (r: Option<RecognizedCommand>)
        requires self.wf(),
        ensures
            match r {
                Some(c) => exists|i: int| 0 <= i < self.command_seq().len()
                    && applies(#[trigger] self.command_seq()[i], self.context(), lowercase(text@))
                    && (forall|j: int| 0 <= j < i ==> !applies(#[trigger] self.command_seq()[j], self.context(), lowercase(text@)))
                    && c.phrase@ == self.command_seq()[i].phrase@
                    && c.command@ == self.command_seq()[i].command@
                    && c.context == self.command_seq()[i].context
                    && views(c.args@) == args_spec(views(self.command_seq()[i].args_template@), lowercase(text@)),
                None => forall|j: int| 0 <= j < self.command_seq().len() ==>
                    !applies(#[trigger] self.command_seq()[j], self.context(), lowercase(text@)),
            },
    {
        let text_lower = to_lowercase(text);
        let n = self.commands.len();
        let mut i: usize = 0;
        while i < n
            invariant
                self.wf(),
                n == self.command_seq().len(),
                i <= n,
                text_lower@ == lowercase(text@),
                forall|j: int| 0 <= j < i ==> !applies(#[trigger] self.command_seq()[j], self.context(), lowercase(text@)),
            decreases n - i,
        {
            let (_, cmd) = self.commands.entry_at(i);
            assert(*cmd == self.command_seq()[i as int]);
            let context_ok = match &cmd.context {
                CommandContext::Global => true,
                _ => cmd.context.same(&self.current_context),
            };
            if cmd.enabled && context_ok {
                let phrase_lower = to_lowercase(cmd.phrase.as_str());
                if contains_str(text_lower.as_str(), phrase_lower.as_str()) {
                    let mut args: Vec<String> = Vec::new();
                    let mut k: usize = 0;
                    while k < cmd.args_template.len()
                        invariant
                            k <= cmd.args_template@.len(),
                            text_lower@ == lowercase(text@),
                            views(args@) == args_spec(views(cmd.args_template@).subrange(0, k as int), text_lower@),
                        decreases cmd.args_template.len() - k,
                    {
                        let ghost ts = views(cmd.args_template@);
                        assert(ts.subrange(0, k + 1).drop_last() =~= ts.subrange(0, k as int));
                        match extract_argument(text_lower.as_str(), cmd.args_template[k].as_str()) {
                            Some(a) => {
                                args.push(a);
                                assert(views(args@) =~= args_spec(ts.subrange(0, k + 1), text_lower@));
                            },
                            None => {
                                assert(views(args@) =~= args_spec(ts.subrange(0, k + 1), text_lower@));
                            },
                        }
                        k = k + 1;
                    }
                    assert(views(cmd.args_template@).subrange(0, cmd.args_template@.len() as int) =~= views(cmd.args_template@));
                    return Some(RecognizedCommand {
                        phrase: cmd.phrase.clone(),
                        command: cmd.command.clone(),
                        context: cmd.context.duplicate(),
                        args,
                    });
                }
            }
            i = i + 1;
        }
        None
    }

    /// Wake-word detection: the lower-cased text contains the lower-cased wake word.
    pub fn check_wake_word(&self, text: &str, wake_word: &str) -> (b: bool)
        ensures b == contains_seq(lowercase(text@), lowercase(wake_word@)),
    {
        let t = to_lowercase(text);
        let w = to_lowercase(wake_word);
        contains_str(t.as_str(), w.as_str())
    }
}


impl RecognizedCommand {
    /// A copy of the command.
    pub fn duplicate(&self) -> (c: Self)
        ensures c.phrase == self.phrase && c.command == self.command && c.context == self.context && c.args@ == self.args@,
    {
        let mut args: Vec<String> = Vec::new();
        let mut i: usize = 0;
        while i < self.args.len()
            invariant
                i <= self.args@.len(),
                args@ == self.args@.subrange(0, i as int),
            decreases self.args.len() - i,
        {
            args.push(self.args[i].clone());
            i = i + 1;
            assert(args@ =~= self.args@.subrange(0, i as int));
        }
        assert(args@ =~= self.args@);
        RecognizedCommand {
            phrase: self.phrase.clone(),
            command: self.command.clone(),
            context: self.context.duplicate(),
            args,
        }
    }
}

/// Two recognized commands say the same.
pub open spec fn same_command(a: RecognizedCommand, b: RecognizedCommand) -> bool {
    a.phrase == b.phrase && a.command == b.command && a.context == b.context && a.args@ == b.args@
}

/// `c` is the command a recognizer picks from text: the first definition, in
/// the order added, that applies to the lower-cased text, with its arguments.
pub open spec fn recognized_as(r: SpeechRecognizer, text: Seq<char>, c: RecognizedCommand) -> bool {
    exists|i: int| 0 <= i < r.command_seq().len()
        && applies(#[trigger] r.command_seq()[i], r.context(), lowercase(text))
        && (forall|j: int| 0 <= j < i ==> !applies(#[trigger] r.command_seq()[j], r.context(), lowercase(text)))
        && c.phrase@ == r.command_seq()[i].phrase@
        && c.command@ == r.command_seq()[i].command@
        && c.context == r.command_seq()[i].context
        && views(c.args@) == args_spec(views(r.command_seq()[i].args_template@), lowercase(text))
}

/// No definition of a recognizer applies to the text.
pub open spec fn nothing_recognized(r: SpeechRecognizer, text: Seq<char>) -> bool {
    forall|j: int| 0 <= j < r.command_seq().len() ==> !applies(#[trigger] r.command_seq()[j], r.context(), lowercase(text))
}

/// The history after a command: it comes last, and the oldest goes beyond 100.
pub open spec fn history_push(h: Seq<RecognizedCommand>, c: RecognizedCommand) -> Seq<RecognizedCommand> {
    let n = h.push(c);
    if n.len() > 100 { n.drop_first() } else { n }
}

/// A wake word: the phrase that must be heard for commands to count. How
/// sensitive its detection is, is a fraction kept outside the library.
#[derive(Debug)]
pub struct WakeWord {
    pub phrase: String,
    pub requires_pause: bool,
}

/// Voice control: the recognizer, whether it is on, the wake word and the
/// commands heard (oldest first, at most 100).
pub struct VoiceControl {
    recognizer: SpeechRecognizer,
    enabled: bool,
    wake_word: Option<WakeWord>,
    history: Vec<RecognizedCommand>,
}

impl VoiceControl {
    pub closed spec fn wf(&self) -> bool {
        self.recognizer.wf() && self.history@.len() <= 100
    }

    /// The recognizer.
    pub closed spec fn rec(&self) -> SpeechRecognizer {
        self.recognizer
    }

    /// The recognizer, to read.
    pub fn recognizer(&self) -> (r: &SpeechRecognizer)
        ensures *r == self.rec(),
    {
        &self.recognizer
    }

    pub closed spec fn is_on(&self) -> bool {
        self.enabled
    }

    /// The wake word's phrase, if one is set.
    pub closed spec fn wake_phrase(&self) -> Option<Seq<char>> {
        match self.wake_word {
            Some(w) => Some(w.phrase@),
            None => None,
        }
    }

    /// The commands heard, oldest first.
    pub closed spec fn history_view(&self) -> Seq<RecognizedCommand> {
        self.history@
    }

    /// Voice control, off, with the configured wake word (which needs a pause)
    /// if any, and nothing heard.
    pub fn new(default_wake_word: Option<String>) -> (v: Self)
        ensures
            v.wf(),
            !v.is_on(),
            v.wake_phrase() == (match default_wake_word { Some(w) => Some(w@), None => None::<Seq<char>> }),
            v.history_view().len() == 0,
            v.rec().commands_view() == Map::<Seq<char>, VoiceCommandDefinition>::empty(),
    {
        let wake_word = match default_wake_word {
            Some(w) => Some(WakeWord { phrase: w, requires_pause: true }),
            None => None,
        };
        VoiceControl { recognizer: SpeechRecognizer::new(), enabled: false, wake_word, history: Vec::new() }
    }

    /// Turn voice control on; the recognizer listens.
    pub fn enable(&mut self)
        requires old(self).wf(),
        ensures
            final(self).wf(),
            final(self).is_on(),
            final(self).rec().is_listening_spec(),
            final(self).rec().commands_view() == old(self).rec().commands_view(),
            final(self).history_view() == old(self).history_view(),
            final(self).wake_phrase() == old(self).wake_phrase(),
    {
        self.enabled = true;
        self.recognizer.start_listening();
    }

    /// Turn voice control off; the recognizer stops listening.
    pub fn disable(&mut self)
        requires old(self).wf(),
        ensures
            final(self).wf(),
            !final(self).is_on(),
            !final(self).rec().is_listening_spec(),
            final(self).rec().commands_view() == old(self).rec().commands_view(),
            final(self).history_view() == old(self).history_view(),
            final(self).wake_phrase() == old(self).wake_phrase(),
    {
        self.enabled = false;
        self.recognizer.stop_listening();
    }

    /// Whether voice control is on.
    pub fn is_enabled(&self) -> (b: bool)
        ensures b == self.is_on(),
    {
        self.enabled
    }

    /// Set the wake word (which needs a pause).
    pub fn set_wake_word(&mut self, phrase: &str)
        requires old(self).wf(),
        ensures
            final(self).wf(),
            final(self).wake_phrase() == Some(phrase@),
            final(self).is_on() == old(self).is_on(),
            final(self).history_view() == old(self).history_view(),
            final(self).rec() == old(self).rec(),
    {
        self.wake_word = Some(WakeWord { phrase: crate::text::owned(phrase), requires_pause: true });
    }

    /// A copy of the wake word.
    pub fn wake_word(&self) -> (r: Option<WakeWord>)
        ensures
            match r {
                Some(w) => self.wake_phrase() == Some(w.phrase@),
                None => self.wake_phrase() is None,
            },
    {
        match &self.wake_word {
            Some(w) => Some(WakeWord { phrase: w.phrase.clone(), requires_pause: w.requires_pause }),
            None => None,
        }
    }

    /// Take recognised text: when voice control is on and the wake word (if
    /// any) is heard in it, the command it names, if any, joins the history.
    pub fn process_text(&mut self, text: &str) -> (r: Result<(), AccessibilityError>)
        requires old(self).wf(),
        ensures
            final(self).wf(),
            r is Ok,
            final(self).is_on() == old(self).is_on(),
            final(self).wake_phrase() == old(self).wake_phrase(),
            final(self).rec() == old(self).rec(),
            ({
                let heard = old(self).is_on() && match old(self).wake_phrase() {
                    Some(w) => contains_seq(lowercase(text@), lowercase(w)),
                    None => true,
                };
                if heard && !nothing_recognized(old(self).rec(), text@) {
                    exists|c: RecognizedCommand| recognized_as(old(self).rec(), text@, c)
                        && final(self).history_view() == history_push(old(self).history_view(), c)
                } else {
                    final(self).history_view() == old(self).history_view()
                }
            }),
    {
        if !self.enabled {
            return Ok(());
        }
        match &self.wake_word {
            Some(w) => {
                if !self.recognizer.check_wake_word(text, w.phrase.as_str()) {
                    return Ok(());
                }
            },
            None => {},
        }
        match self.recognizer.recognize_command(text) {
            Some(c) => {
                let ghost old_h = self.history@;
                let ghost gc = c;
                proof {
                    assert(recognized_as(self.recognizer, text@, gc));
                    let i = choose|i: int| 0 <= i < self.recognizer.command_seq().len()
                        && applies(#[trigger] self.recognizer.command_seq()[i], self.recognizer.context(), lowercase(text@))
                        && (forall|j: int| 0 <= j < i ==> !applies(#[trigger] self.recognizer.command_seq()[j], self.recognizer.context(), lowercase(text@)))
                        && gc.phrase@ == self.recognizer.command_seq()[i].phrase@
                        && gc.command@ == self.recognizer.command_seq()[i].command@
                        && gc.context == self.recognizer.command_seq()[i].context
                        && views(gc.args@) == args_spec(views(self.recognizer.command_seq()[i].args_template@), lowercase(text@));
                    assert(!nothing_recognized(self.recognizer, text@));
                }
                self.history.push(c);
                if self.history.len() > 100 {
                    self.history.remove(0);
                    assert(self.history@ =~= old_h.push(gc).drop_first());
                } else {
                    assert(self.history@ =~= old_h.push(gc));
                }
                assert(self.history@ == history_push(old_h, gc));
                assert(old(self).rec() == self.recognizer);
                assert(recognized_as(old(self).rec(), text@, gc));
                assert(self.history_view() == history_push(old(self).history_view(), gc));
            },
            None => {},
        }
        Ok(())
    }

    /// Add a command definition.
    pub fn add_command(&mut self, definition: VoiceCommandDefinition)
        requires old(self).wf(),
        ensures
            final(self).wf(),
            final(self).rec().commands_view() == old(self).rec().commands_view().insert(definition.id@, definition),
            final(self).history_view() == old(self).history_view(),
    {
        self.recognizer.add_command(definition);
    }

    /// Remove a command definition.
    pub fn remove_command(&mut self, id: &str)
        requires old(self).wf(),
        ensures
            final(self).wf(),
            final(self).rec().commands_view() == old(self).rec().commands_view().remove(id@),
            final(self).history_view() == old(self).history_view(),
    {
        self.recognizer.remove_command(id);
    }

    /// Set the recognizer's context.
    pub fn set_context(&mut self, context: CommandContext)
        requires old(self).wf(),
        ensures
            final(self).wf(),
            final(self).rec().context() == context,
            final(self).history_view() == old(self).history_view(),
    {
        self.recognizer.set_context(context);
    }

    /// The latest `limit` commands heard (all when no limit), newest first.
    pub fn history(&self, limit: Option<usize>) -> (r: Vec<RecognizedCommand>)
        ensures
            ({
                let h = self.history_view();
                let n = match limit {
                    Some(l) => if l < h.len() { l as int } else { h.len() as int },
                    None => h.len() as int,
                };
                &&& r@.len() == n
                &&& forall|i: int| 0 <= i < n ==> same_command(#[trigger] r@[i], h[h.len() - 1 - i])
            }),
    {
        let len = self.history.len();
        let n = match limit {
            Some(l) => if l < len { l } else { len },
            None => len,
        };
        let mut r: Vec<RecognizedCommand> = Vec::new();
        let mut i: usize = 0;
        while i < n
            invariant
                n <= len,
                len == self.history@.len(),
                i <= n,
                r@.len() == i,
                forall|j: int| 0 <= j < i ==> same_command(#[trigger] r@[j], self.history@[len - 1 - j]),
            decreases n - i,
        {
            r.push(self.history[len - 1 - i].duplicate());
            i = i + 1;
        }
        r
    }

    /// The available commands: none are listed.
    pub fn commands(&self) -> (r: Vec<VoiceCommandDefinition>)
        ensures r@.len() == 0,
    {
        Vec::new()
    }
}

/// Voice feedback switches: whether feedback plays and whether confirmations
/// do. The volume is a fraction kept outside the library.
pub struct VoiceFeedback {
    pub enabled: bool,
    pub confirmations: bool,
}

impl VoiceFeedback {
    /// Feedback on, with confirmations.
    pub fn new() -> (f: Self)
        ensures f.enabled && f.confirmations,
    {
        VoiceFeedback { enabled: true, confirmations: true }
    }

    /// Turn feedback on.
    pub fn enable(&mut self)
        ensures final(self).enabled && final(self).confirmations == old(self).confirmations,
    {
        self.enabled = true;
    }

    /// Turn feedback off.
    pub fn disable(&mut self)
        ensures !final(self).enabled && final(self).confirmations == old(self).confirmations,
    {
        self.enabled = false;
    }

    /// Choose whether confirmations play.
    pub fn set_confirmations(&mut self, on: bool)
        ensures final(self).confirmations == on && final(self).enabled == old(self).enabled,
    {
        self.confirmations = on;
    }

    /// Whether a confirmation tone plays: feedback and confirmations are on.
    pub fn plays_confirmation(&self) -> (b: bool)
        ensures b == (self.enabled && self.confirmations),
    {
        self.enabled && self.confirmations
    }

    /// Whether an error tone plays: feedback is on.
    pub fn plays_error(&self) -> (b: bool)
        ensures b == self.enabled,
    {
        self.enabled
    }
}

} // verus!
