//! Dyslexia-friendly reading aids: syllable highlighting, line focus and the
//! OpenDyslexic font.
use vstd::prelude::*;
use vstd::utf8::is_char_boundary;
use vstd::string::StringSliceAdditionalSpecFns;
use crate::text::owned;
use crate::accessibility::AccessibilityError;

verus! {

/// Syllable.
#[derive(Debug, Clone)]
pub struct Syllable {
    pub text: String,
    pub start: usize,
    pub end: usize,
    pub highlight: bool,
}

/// Pattern of an (English) syllable: a run of vowels and the consonants after it.
pub const SYLLABLE_PATTERN: &'static str = "[aeiouy]+[^aeiouy]*";

/// What `regex::Regex::find_iter` yields for `pattern` on `text`: for each
/// match its byte start, byte end and matched text, in order; `None` where the
/// pattern does not compile.
pub uninterp spec fn regex_found(pattern: Seq<char>, text: Seq<char>) -> Option<Seq<(usize, usize, Seq<char>)>>;

/// The matches `m` are those that `regex_found` names for `pattern` on `text`.
pub open spec fn matches_found(pattern: Seq<char>, text: Seq<char>, m: Seq<(usize, usize, String)>) -> bool {
    &&& regex_found(pattern, text) is Some
    &&& m.len() == regex_found(pattern, text)->0.len()
    &&& forall|i: int| 0 <= i < m.len() ==> (#[trigger] m[i]).0 == regex_found(pattern, text)->0[i].0
        && m[i].1 == regex_found(pattern, text)->0[i].1 && m[i].2@ == regex_found(pattern, text)->0[i].2
}

/// `regex::Regex::new(pattern)` and its `find_iter(text)`, each match taken as
/// its start, end and owned text; named by `regex_found`. The regex crate
/// documents that match offsets lie on UTF-8 boundaries of the searched text;
/// the contract states the offsets' bounds and boundaries.
#[verifier::external_body]
fn find_matches(pattern: &str, text: &str) -> (r: Option<Vec<(usize, usize, String)>>)
    ensures
        r is None <==> regex_found(pattern@, text@) is None,
        r matches Some(m) ==> matches_found(pattern@, text@, m@),
        r matches Some(m) ==> forall|i: int| 0 <= i < m@.len() ==> (#[trigger] m@[i]).0 <= m@[i].1 <= text.spec_bytes().len()
            && is_char_boundary(text.spec_bytes(), m@[i].1 as int),
{
    let re = regex::Regex::new(pattern).ok()?;
    Some(re.find_iter(text).map(|m| (m.start(), m.end(), m.as_str().to_string())).collect())
}

/// Byte offset where the last match ends (0 without matches).
pub open spec fn last_match_end(matches: Seq<(usize, usize, String)>) -> usize {
    if matches.len() == 0 { 0 } else { matches.last().1 }
}

/// The syllables for `text` given the pattern's matches: one highlighted syllable
/// per match, then the text after the last match, not highlighted, if any remains.
pub open spec fn syllables_spec(text: &str, matches: Seq<(usize, usize, String)>, r: Seq<Syllable>) -> bool {
    let m = matches.len();
    let last_end = last_match_end(matches);
    let n = text.len();
    &&& r.len() == if last_end < n { m + 1 } else { m + 0 }
    &&& forall|i: int| 0 <= i < m ==> (#[trigger] r[i]).text@ == matches[i].2@ && r[i].start == matches[i].0
        && r[i].end == matches[i].1 && r[i].highlight
    &&& last_end < n ==> r[m as int].start == last_end && r[m as int].end == n && !r[m as int].highlight
        && exists|t: &str| #[trigger] t.spec_bytes() == text.spec_bytes().subrange(last_end as int, text.spec_bytes().len() as int) && r[m as int].text@ == t@
}

/// Builds the syllables of `text` from the pattern's matches.
pub fn syllables_from_matches(text: &str, matches: &Vec<(usize, usize, String)>) -> (r: Vec<Syllable>)
    requires
        forall|i: int| 0 <= i < matches@.len() ==> (#[trigger] matches@[i]).1 <= text.spec_bytes().len()
            && is_char_boundary(text.spec_bytes(), matches@[i].1 as int),
    ensures
        syllables_spec(text, matches@, r@),
{
    let mut syllables: Vec<Syllable> = Vec::new();
    let mut last_end: usize = 0;
    let mut i: usize = 0;
    while i < matches.len()
        invariant
            i <= matches@.len(),
            syllables@.len() == i,
            last_end == last_match_end(matches@.subrange(0, i as int)),
            forall|j: int| 0 <= j < i ==> (#[trigger] syllables@[j]).text@ == matches@[j].2@ && syllables@[j].start == matches@[j].0
                && syllables@[j].end == matches@[j].1 && syllables@[j].highlight,
        decreases matches.len() - i,
    {
        syllables.push(Syllable {
            text: matches[i].2.clone(),
            start: matches[i].0,
            end: matches[i].1,
            highlight: true,
        });
        last_end = matches[i].1;
        i = i + 1;
    }
    assert(matches@.subrange(0, matches@.len() as int) =~= matches@);
    if i == 0 {
        if 0 < text.len() {
            syllables.push(Syllable {
                text: owned(text),
                start: 0,
                end: text.len(),
                highlight: false,
            });
            assert(text.spec_bytes() =~= text.spec_bytes().subrange(0, text.spec_bytes().len() as int));
            assert(syllables@[0].text@ == text@);
            assert(exists|t: &str| #[trigger] t.spec_bytes() == text.spec_bytes().subrange(0, text.spec_bytes().len() as int)
                && syllables@[0].text@ == t@);
        }
    } else if last_end < text.len() {
        let ghost k = matches@.len() - 1;
        assert(matches@[k].1 <= text.spec_bytes().len());
        assert(last_end == matches@[k].1);
        let (_, rest) = text.split_at(last_end);
        syllables.push(Syllable {
            text: owned(rest),
            start: last_end,
            end: text.len(),
            highlight: false,
        });
        assert(rest.spec_bytes() == text.spec_bytes().subrange(last_end as int, text.spec_bytes().len() as int));
        assert(syllables@[i as int].text@ == rest@);
        assert(exists|t: &str| #[trigger] t.spec_bytes() == text.spec_bytes().subrange(last_end as int, text.spec_bytes().len() as int)
            && syllables@[i as int].text@ == t@);
    }
    syllables
}

/// Syllable highlighter.
pub struct SyllableHighlighter {
    pub highlight_color: String,
}

impl SyllableHighlighter {
    /// Create new syllable highlighter.
    pub fn new() -> (r: Result<Self, AccessibilityError>)
        ensures
            r is Ok,
            r->Ok_0.highlight_color@ == "#ff9800"@,
    {
        Ok(SyllableHighlighter { highlight_color: owned("#ff9800") })
    }

    /// Highlight syllables in text: one highlighted syllable per match of
    /// `SYLLABLE_PATTERN`, then the rest of the text, if any, not highlighted.
    pub fn highlight_syllables(&self, text: &str) -> (r: Vec<Syllable>)
        ensures
            regex_found(SYLLABLE_PATTERN@, text@) is None ==> r@.len() == 0,
            regex_found(SYLLABLE_PATTERN@, text@) is Some ==> exists|m: Seq<(usize, usize, String)>|
                #[trigger] matches_found(SYLLABLE_PATTERN@, text@, m) && syllables_spec(text, m, r@),
    {
        match find_matches(SYLLABLE_PATTERN, text) {
            Some(matches) => {
                let r = syllables_from_matches(text, &matches);
                assert(matches_found(SYLLABLE_PATTERN@, text@, matches@));
                r
            },
            None => Vec::new(),
        }
    }
}

/// Whether `line` is in focus around `current`: always when line focus is off,
/// otherwise when its distance from the current line is within either bound.
pub open spec fn in_focus(current: usize, line: usize, enabled: bool, lines_before: usize, lines_after: usize) -> bool {
    let diff = if line > current { line - current } else { current - line };
    !enabled || diff <= lines_before || diff <= lines_after
}

/// Check if a line is focused (`LineFocus::is_focused`).
pub fn is_focused(current: usize, line: usize, enabled: bool, lines_before: usize, lines_after: usize) -> (b: bool)
    ensures
        b == in_focus(current, line, enabled, lines_before, lines_after),
{
    if !enabled {
        return true;
    }
    let diff = if line > current { line - current } else { current - line };
    diff <= lines_before || diff <= lines_after
}

/// OpenDyslexic font wrapper.
pub struct OpenDyslexicFont {
    font_data: Vec<u8>,
    loaded: bool,
}

/// CSS that installs the OpenDyslexic font for the whole page.
pub const OPEN_DYSLEXIC_CSS: &'static str = "\n            @font-face {\n                font-family: 'OpenDyslexic';\n                src: url('fonts/OpenDyslexic-Regular.otf') format('opentype');\n                font-weight: normal;\n                font-style: normal;\n            }\n            * {\n                font-family: 'OpenDyslexic', sans-serif !important;\n            }\n        ";

impl OpenDyslexicFont {
    pub closed spec fn font_bytes(&self) -> Seq<u8> {
        self.font_data@
    }

    pub closed spec fn is_loaded(&self) -> bool {
        self.loaded
    }

    /// Create the font from the bytes of OpenDyslexic-Regular.otf.
    pub fn new(font_data: Vec<u8>) -> (r: Result<Self, AccessibilityError>)
        ensures
            r is Ok,
            r->Ok_0.font_bytes() == font_data@,
            r->Ok_0.is_loaded(),
    {
        Ok(OpenDyslexicFont { font_data, loaded: true })
    }

    /// Get font data.
    pub fn data(&self) -> (d: &[u8])
        ensures
            d@ == self.font_bytes(),
    {
        self.font_data.as_slice()
    }

    /// Apply font to CSS.
    pub fn to_css(&self) -> (css: String)
        ensures
            css@ == OPEN_DYSLEXIC_CSS@,
    {
        owned(OPEN_DYSLEXIC_CSS)
    }
}


/// Line focus: the line the reader is on, and how many lines around it stay
/// in focus.
pub struct LineFocus {
    pub current_line: usize,
    pub enabled: bool,
    pub lines_before: usize,
    pub lines_after: usize,
    pub highlight_current: bool,
}

impl LineFocus {
    /// Line focus on the first line, enabled, one line before and after in
    /// focus, the current line highlighted.
    pub fn new() -> (f: Self)
        ensures
            f.current_line == 0 && f.enabled && f.lines_before == 1 && f.lines_after == 1 && f.highlight_current,
    {
        LineFocus { current_line: 0, enabled: true, lines_before: 1, lines_after: 1, highlight_current: true }
    }

    /// Move to a line.
    pub fn set_current_line(&mut self, line: usize)
        ensures *final(self) == (LineFocus { current_line: line, ..*old(self) }),
    {
        self.current_line = line;
    }

    /// The line the reader is on.
    pub fn current_line(&self) -> (l: usize)
        ensures l == self.current_line,
    {
        self.current_line
    }

    /// Whether a line is in focus; see `in_focus`.
    pub fn is_focused(&self, line: usize) -> (b: bool)
        ensures b == in_focus(self.current_line, line, self.enabled, self.lines_before, self.lines_after),
    {
        is_focused(self.current_line, line, self.enabled, self.lines_before, self.lines_after)
    }
}

/// Dyslexia-friendly mode: whether it is on, and which of its aids are. The
/// text spacing and the reading guide's geometry are fractions kept outside
/// the library.
pub struct DyslexiaMode {
    pub enabled: bool,
    pub font_enabled: bool,
    pub reading_guide: bool,
    pub line_focus: bool,
    pub syllable_highlight: bool,
}

impl DyslexiaMode {
    /// The mode, off, with the reading guide and line focus chosen and the
    /// font and syllable highlighting not.
    pub fn new() -> (m: Self)
        ensures
            !m.enabled && !m.font_enabled && m.reading_guide && m.line_focus && !m.syllable_highlight,
    {
        DyslexiaMode { enabled: false, font_enabled: false, reading_guide: true, line_focus: true, syllable_highlight: false }
    }

    /// Turn the mode on; the aids chosen stay.
    pub fn enable(&mut self)
        ensures *final(self) == (DyslexiaMode { enabled: true, ..*old(self) }),
    {
        self.enabled = true;
    }

    /// Turn the mode off; the aids chosen stay.
    pub fn disable(&mut self)
        ensures *final(self) == (DyslexiaMode { enabled: false, ..*old(self) }),
    {
        self.enabled = false;
    }

    /// Whether the mode is on.
    pub fn is_enabled(&self) -> (b: bool)
        ensures b == self.enabled,
    {
        self.enabled
    }

    /// Choose whether the OpenDyslexic font is used.
    pub fn set_font_enabled(&mut self, enabled: bool)
        ensures *final(self) == (DyslexiaMode { font_enabled: enabled, ..*old(self) }),
    {
        self.font_enabled = enabled;
    }

    /// Whether the OpenDyslexic font is used.
    pub fn font_enabled(&self) -> (b: bool)
        ensures b == self.font_enabled,
    {
        self.font_enabled
    }

    /// Choose whether the reading guide is shown.
    pub fn set_reading_guide(&mut self, enabled: bool)
        ensures *final(self) == (DyslexiaMode { reading_guide: enabled, ..*old(self) }),
    {
        self.reading_guide = enabled;
    }

    /// Whether the reading guide is shown.
    pub fn reading_guide_enabled(&self) -> (b: bool)
        ensures b == self.reading_guide,
    {
        self.reading_guide
    }

    /// Choose whether line focus is used.
    pub fn set_line_focus(&mut self, enabled: bool)
        ensures *final(self) == (DyslexiaMode { line_focus: enabled, ..*old(self) }),
    {
        self.line_focus = enabled;
    }

    /// Whether line focus is used.
    pub fn line_focus_enabled(&self) -> (b: bool)
        ensures b == self.line_focus,
    {
        self.line_focus
    }

    /// Choose whether syllables are highlighted.
    pub fn set_syllable_highlight(&mut self, enabled: bool)
        ensures *final(self) == (DyslexiaMode { syllable_highlight: enabled, ..*old(self) }),
    {
        self.syllable_highlight = enabled;
    }

    /// Whether syllables are highlighted.
    pub fn syllable_highlight_enabled(&self) -> (b: bool)
        ensures b == self.syllable_highlight,
    {
        self.syllable_highlight
    }

    /// A line focus with its defaults.
    pub fn line_focus(&self) -> (f: LineFocus)
        ensures
            f.current_line == 0 && f.enabled && f.lines_before == 1 && f.lines_after == 1 && f.highlight_current,
    {
        LineFocus::new()
    }

    /// A syllable highlighter.
    pub fn syllable_highlighter(&self) -> (r: Result<SyllableHighlighter, AccessibilityError>)
        ensures
            r is Ok,
            r->Ok_0.highlight_color@ == "#ff9800"@,
    {
        SyllableHighlighter::new()
    }

    /// The OpenDyslexic font from its bytes, when the font is chosen.
    pub fn opendyslexic_font(&self, font_data: Vec<u8>) -> (r: Option<OpenDyslexicFont>)
        ensures
            match r {
                Some(f) => self.font_enabled && f.font_bytes() == font_data@ && f.is_loaded(),
                None => !self.font_enabled,
            },
    {
        if self.font_enabled {
            match OpenDyslexicFont::new(font_data) {
                Ok(f) => Some(f),
                Err(_) => None,
            }
        } else {
            None
        }
    }
}

} // verus!
