//! Screen reader state: mode, voices, reading options and the queue of speech
//! waiting to be spoken. Text-to-speech itself is the caller's.
use vstd::prelude::*;
use crate::accessibility::AccessibilityError;
use crate::text::{concat2, decimal, lines, owned, split_lines, split_words, str_eq, u64_to_string, views, words};

verus! {

/// Screen reader mode.
#[derive(Debug, Clone, Copy, PartialEq, Eq, Structural)]
pub enum ScreenReaderMode {
    /// Always on
    Always,
    /// On demand (when user activates)
    OnDemand,
    /// Auto (only when needed)
    Auto,
    /// Focus only
    FocusOnly,
}

/// Speech priority, from lowest to highest.
#[derive(Debug, Clone, Copy, PartialEq, Eq, Structural, PartialOrd, Ord)]
pub enum SpeechPriority {
    Low,
    Normal,
    High,
    Critical,
}

/// A text-to-speech voice.
#[derive(Debug, Clone)]
pub struct Voice {
    pub id: String,
    pub name: String,
    pub language: String,
    pub gender: Option<String>,
    pub age: Option<String>,
    pub is_default: bool,
}

/// Speech rate (words per minute).
#[derive(Debug, Clone, Copy)]
pub struct SpeechRate(pub u32);

impl Default for SpeechRate {
    fn default() -> (r: Self)
        ensures r.0 == 180,
    {
        SpeechRate(180)
    }
}

/// A piece of speech: its text, priority, whether it waits in the queue or
/// interrupts, and the voice and rate it asks for.
#[derive(Debug)]
pub struct SpeechOutput {
    pub text: String,
    pub priority: SpeechPriority,
    pub queue: bool,
    pub interrupt: bool,
    pub voice: Option<String>,
    pub rate: Option<SpeechRate>,
}

/// Speech with the default settings: normal priority, queued, no voice or rate.
pub open spec fn plain_speech(text: Seq<char>, s: SpeechOutput) -> bool {
    &&& s.text@ == text
    &&& s.priority == SpeechPriority::Normal
    &&& s.queue
    &&& !s.interrupt
    &&& s.voice is None
    &&& s.rate is None
}

/// Two pieces of speech with the same text and settings.
pub open spec fn same_speech(a: SpeechOutput, b: SpeechOutput) -> bool {
    &&& a.text@ == b.text@
    &&& a.priority == b.priority
    &&& a.queue == b.queue
    &&& a.interrupt == b.interrupt
    &&& a.voice == b.voice
    &&& a.rate == b.rate
}

impl SpeechOutput {
    /// Speech with the default settings.
    pub fn new(text: String) -> (s: Self)
        ensures plain_speech(text@, s),
    {
        SpeechOutput {
            text,
            priority: SpeechPriority::Normal,
            queue: true,
            interrupt: false,
            voice: None,
            rate: None,
        }
    }

    /// The same speech with another priority.
    pub fn with_priority(self, priority: SpeechPriority) -> (s: Self)
        ensures s == (SpeechOutput { priority: priority, ..self }),
    {
        let mut s = self;
        s.priority = priority;
        s
    }

    /// The same speech, critical, spoken at once and interrupting.
    pub fn urgent(self) -> (s: Self)
        ensures s == (SpeechOutput { priority: SpeechPriority::Critical, queue: false, interrupt: true, ..self }),
    {
        let mut s = self;
        s.priority = SpeechPriority::Critical;
        s.queue = false;
        s.interrupt = true;
        s
    }

    /// A copy of this speech.
    pub fn duplicate(&self) -> (s: Self)
        ensures same_speech(s, *self),
    {
        SpeechOutput {
            text: self.text.clone(),
            priority: self.priority,
            queue: self.queue,
            interrupt: self.interrupt,
            voice: match &self.voice {
                Some(v) => Some(v.clone()),
                None => None,
            },
            rate: self.rate,
        }
    }
}

/// Reading options.
#[derive(Debug, Clone, Copy)]
pub struct ReadingOptions {
    pub read_word_by_word: bool,
    pub highlight_sentence: bool,
    pub read_punctuation: bool,
    pub read_whitespace: bool,
    pub read_line_numbers: bool,
    pub read_indentation: bool,
}

/// The default reading options: only the sentence is highlighted.
pub open spec fn default_options(o: ReadingOptions) -> bool {
    &&& !o.read_word_by_word
    &&& o.highlight_sentence
    &&& !o.read_punctuation
    &&& !o.read_whitespace
    &&& !o.read_line_numbers
    &&& !o.read_indentation
}

impl Default for ReadingOptions {
    fn default() -> (o: Self)
        ensures default_options(o),
    {
        ReadingOptions {
            read_word_by_word: false,
            highlight_sentence: true,
            read_punctuation: false,
            read_whitespace: false,
            read_line_numbers: false,
            read_indentation: false,
        }
    }
}

/// The state of a screen reader that its operations change.
pub struct ReaderView {
    pub enabled: bool,
    pub mode: ScreenReaderMode,
    pub queue: Seq<SpeechOutput>,
    pub current: Option<SpeechOutput>,
    pub voices: Seq<Voice>,
    pub current_voice: Option<Seq<char>>,
    pub rate: u32,
    pub options: ReadingOptions,
}

/// What speaking `s` does: nothing while disabled; otherwise queued speech joins
/// the end of the queue and other speech becomes the current speech.
pub open spec fn speak_post(old: ReaderView, new: ReaderView, s: SpeechOutput) -> bool {
    if !old.enabled {
        new == old
    } else if s.queue {
        new == (ReaderView { queue: old.queue.push(s), ..old })
    } else {
        new == (ReaderView { current: Some(s), ..old })
    }
}

/// The text a UI element is announced with: "role name, state" or "role name".
pub open spec fn element_text(name: Seq<char>, role: Seq<char>, state: Option<Seq<char>>) -> Seq<char> {
    match state {
        Some(s) => role + " "@ + name + ", "@ + s,
        None => role + " "@ + name,
    }
}

/// The text a line of the editor is announced with: "Line n: text", counting
/// lines from one; a line past the end announces nothing.
pub open spec fn editor_line_text(content: Seq<char>, line: nat) -> Option<Seq<char>> {
    let ls = lines(content);
    if line < ls.len() {
        Some("Line "@ + decimal(line + 1) + ": "@ + ls[line as int])
    } else {
        None
    }
}

/// The pieces of speech that reading `text` produces: one per word when reading
/// word by word, else the whole text.
pub open spec fn text_utterances(text: Seq<char>, options: ReadingOptions) -> Seq<Seq<char>> {
    if options.read_word_by_word { words(text) } else { seq![text] }
}

/// Whether some voice has the given id.
fn has_voice(voices: &Vec<Voice>, id: &str) -> (b: bool)
    ensures b == exists|i: int| 0 <= i < voices@.len() && (#[trigger] voices@[i]).id@ == id@,
{
    let mut i: usize = 0;
    while i < voices.len()
        invariant
            i <= voices@.len(),
            forall|j: int| 0 <= j < i ==> (#[trigger] voices@[j]).id@ != id@,
        decreases voices.len() - i,
    {
        if str_eq(voices[i].id.as_str(), id) {
            return true;
        }
        i = i + 1;
    }
    false
}

/// Screen reader.
pub struct ScreenReader {
    enabled: bool,
    mode: ScreenReaderMode,
    queue: Vec<SpeechOutput>,
    current_speech: Option<SpeechOutput>,
    voices: Vec<Voice>,
    current_voice: Option<String>,
    rate: SpeechRate,
    options: ReadingOptions,
}

impl View for ScreenReader {
    type V = ReaderView;

    closed spec fn view(&self) -> ReaderView {
        ReaderView {
            enabled: self.enabled,
            mode: self.mode,
            queue: self.queue@,
            current: self.current_speech,
            voices: self.voices@,
            current_voice: match self.current_voice {
                Some(v) => Some(v@),
                None => None,
            },
            rate: self.rate.0,
            options: self.options,
        }
    }
}

impl ScreenReader {
    /// Create a disabled screen reader in the given mode and rate, with the voices
    /// that were detected, no voice chosen and the default reading options.
    pub fn new(default_mode: ScreenReaderMode, speech_rate: u32, voices: Vec<Voice>) -> (r: Self)
        ensures
            !r@.enabled,
            r@.mode == default_mode,
            r@.queue.len() == 0,
            r@.current is None,
            r@.voices == voices@,
            r@.current_voice is None,
            r@.rate == speech_rate,
            default_options(r@.options),
    {
        ScreenReader {
            enabled: false,
            mode: default_mode,
            queue: Vec::new(),
            current_speech: None,
            voices,
            current_voice: None,
            rate: SpeechRate(speech_rate),
            options: ReadingOptions::default(),
        }
    }

    /// Enable the screen reader.
    pub fn enable(&mut self)
        ensures final(self)@ == (ReaderView { enabled: true, ..old(self)@ }),
    {
        self.enabled = true;
    }

    /// Disable the screen reader and stop speaking.
    pub fn disable(&mut self)
        ensures final(self)@ == (ReaderView { enabled: false, queue: Seq::empty(), current: None, ..old(self)@ }),
    {
        self.enabled = false;
        self.stop();
    }

    /// Check if enabled.
    pub fn is_enabled(&self) -> (b: bool)
        ensures b == self@.enabled,
    {
        self.enabled
    }

    /// Set mode.
    pub fn set_mode(&mut self, mode: ScreenReaderMode)
        ensures final(self)@ == (ReaderView { mode: mode, ..old(self)@ }),
    {
        self.mode = mode;
    }

    /// Get mode.
    pub fn mode(&self) -> (m: ScreenReaderMode)
        ensures m == self@.mode,
    {
        self.mode
    }

    /// Speak: see `speak_post`.
    pub fn speak(&mut self, speech: SpeechOutput) -> (r: Result<(), AccessibilityError>)
        ensures
            r is Ok,
            speak_post(old(self)@, final(self)@, speech),
    {
        if !self.enabled {
            return Ok(());
        }
        if speech.queue {
            self.queue.push(speech);
        } else {
            self.current_speech = Some(speech);
        }
        Ok(())
    }

    /// Speak text at once, interrupting.
    pub fn speak_urgent(&mut self, text: String) -> (r: Result<(), AccessibilityError>)
        ensures
            r is Ok,
            exists|s: SpeechOutput| plain_speech(text@, s)
                && speak_post(old(self)@, final(self)@, SpeechOutput { priority: SpeechPriority::Critical, queue: false, interrupt: true, ..s }),
    {
        let s = SpeechOutput::new(text);
        let u = s.urgent();
        self.speak(u)
    }

    /// Stop speaking: no current speech, an empty queue.
    pub fn stop(&mut self)
        ensures final(self)@ == (ReaderView { queue: Seq::empty(), current: None, ..old(self)@ }),
    {
        self.current_speech = None;
        self.queue = Vec::new();
    }

    /// Resume: speak again the speech at the front of the queue, if any.
    pub fn resume(&mut self) -> (r: Result<(), AccessibilityError>)
        ensures
            r is Ok,
            old(self)@.queue.len() == 0 ==> final(self)@ == old(self)@,
            old(self)@.queue.len() > 0 ==> exists|s: SpeechOutput|
                #[trigger] same_speech(s, old(self)@.queue[0]) && speak_post(old(self)@, final(self)@, s),
    {
        if self.queue.len() > 0 {
            let next = self.queue[0].duplicate();
            self.speak(next)
        } else {
            Ok(())
        }
    }

    /// Whether speech is being produced: the speech engine is the caller's, so
    /// the reader itself never is.
    pub fn is_speaking(&self) -> (b: bool)
        ensures !b,
    {
        false
    }

    /// The available voices.
    pub fn voices(&self) -> (v: &Vec<Voice>)
        ensures v@ == self@.voices,
    {
        &self.voices
    }

    /// Choose a voice by id; unknown ids are refused.
    pub fn set_voice(&mut self, voice_id: &str) -> (r: Result<(), AccessibilityError>)
        ensures
            (exists|i: int| 0 <= i < old(self)@.voices.len() && (#[trigger] old(self)@.voices[i]).id@ == voice_id@) ==> {
                &&& r is Ok
                &&& final(self)@ == (ReaderView { current_voice: Some(voice_id@), ..old(self)@ })
            },
            !(exists|i: int| 0 <= i < old(self)@.voices.len() && (#[trigger] old(self)@.voices[i]).id@ == voice_id@) ==> {
                &&& final(self)@ == old(self)@
                &&& r matches Err(AccessibilityError::ScreenReaderError(m)) && m@ == "Voice not found: "@ + voice_id@
            },
    {
        if has_voice(&self.voices, voice_id) {
            self.current_voice = Some(owned(voice_id));
            return Ok(());
        }
        Err(AccessibilityError::ScreenReaderError(concat2("Voice not found: ", voice_id)))
    }

    /// The chosen voice.
    pub fn current_voice(&self) -> (v: Option<String>)
        ensures
            match v {
                Some(s) => self@.current_voice == Some(s@),
                None => self@.current_voice is None,
            },
    {
        match &self.current_voice {
            Some(s) => Some(s.clone()),
            None => None,
        }
    }

    /// Set speech rate.
    pub fn set_rate(&mut self, rate: SpeechRate)
        ensures final(self)@ == (ReaderView { rate: rate.0, ..old(self)@ }),
    {
        self.rate = rate;
    }

    /// Get speech rate.
    pub fn rate(&self) -> (r: SpeechRate)
        ensures r.0 == self@.rate,
    {
        self.rate
    }

    /// Set reading options.
    pub fn set_options(&mut self, options: ReadingOptions)
        ensures final(self)@ == (ReaderView { options: options, ..old(self)@ }),
    {
        self.options = options;
    }

    /// Get reading options.
    pub fn options(&self) -> (o: ReadingOptions)
        ensures o == self@.options,
    {
        self.options
    }

    /// The pieces of speech that reading `text` with `options` produces; reading
    /// speaks each in turn, pausing between words.
    pub fn text_utterances(&self, text: &str, options: &ReadingOptions) -> (r: Vec<String>)
        ensures views(r@) == text_utterances(text@, *options),
    {
        if options.read_word_by_word {
            split_words(text)
        } else {
            let mut v: Vec<String> = Vec::new();
            v.push(owned(text));
            assert(views(v@) =~= seq![text@]);
            v
        }
    }

    /// Read a line of editor content ("Line n: text"), or "Document" when no line
    /// is given; a line past the end reads nothing.
    pub fn read_editor_content(&mut self, content: &str, line: Option<usize>) -> (r: Result<(), AccessibilityError>)
        ensures
            r is Ok,
            match line {
                Some(n) => match editor_line_text(content@, n as nat) {
                    Some(t) => exists|s: SpeechOutput| plain_speech(t, s) && speak_post(old(self)@, final(self)@, s),
                    None => final(self)@ == old(self)@,
                },
                None => exists|s: SpeechOutput| plain_speech("Document"@, s) && speak_post(old(self)@, final(self)@, s),
            },
    {
        match line {
            Some(line_num) => {
                let ls = split_lines(content);
                assert(views(ls@).len() == ls@.len());
                if line_num < ls.len() {
                    proof { assert(views(ls@)[line_num as int] == ls@[line_num as int]@); }
                    let number = u64_to_string(line_num as u64 + 1);
                    let a = concat2("Line ", number.as_str());
                    let b = concat2(a.as_str(), ": ");
                    let t = concat2(b.as_str(), ls[line_num].as_str());
                    proof {
                        assert(t@ == "Line "@ + decimal(line_num as nat + 1) + ": "@ + lines(content@)[line_num as int]);
                        assert(editor_line_text(content@, line_num as nat) == Some(t@));
                    }
                    let sp = SpeechOutput::new(t);
                    let r = self.speak(sp);
                    assert(plain_speech(editor_line_text(content@, line_num as nat).unwrap(), sp));
                    r
                } else {
                    assert(editor_line_text(content@, line_num as nat) is None);
                    Ok(())
                }
            },
            None => self.speak(SpeechOutput::new(owned("Document"))),
        }
    }

    /// Read a UI element: see `element_text`.
    pub fn read_element(&mut self, name: &str, role: &str, state: Option<&str>) -> (r: Result<(), AccessibilityError>)
        ensures
            r is Ok,
            exists|s: SpeechOutput| plain_speech(element_text(name@, role@, match state { Some(x) => Some(x@), None => None }), s)
                && speak_post(old(self)@, final(self)@, s),
    {
        let a = concat2(role, " ");
        let b = concat2(a.as_str(), name);
        let text = match state {
            Some(st) => {
                let c = concat2(b.as_str(), ", ");
                concat2(c.as_str(), st)
            },
            None => b,
        };
        self.speak(SpeechOutput::new(text))
    }

    /// Announce a message with a priority.
    pub fn announce(&mut self, message: &str, priority: SpeechPriority) -> (r: Result<(), AccessibilityError>)
        ensures
            r is Ok,
            exists|s: SpeechOutput| plain_speech(message@, s)
                && speak_post(old(self)@, final(self)@, SpeechOutput { priority: priority, ..s }),
    {
        let s = SpeechOutput::new(owned(message));
        self.speak(s.with_priority(priority))
    }
}

} // verus!
