//! Keybinding system: chords, key sequences, keymaps with their bindings, and
//! keymap profiles that override or disable bindings.
use vstd::prelude::*;
use crate::customization::CustomizationError;
use crate::stamp::now_millis;
use crate::strmap::StrMap;
use crate::text::{concat2, owned, str_eq, views};

verus! {

/// The Alt bit of a keyboard modifier set.
pub const MOD_ALT: u32 = 0x1;
/// The Control bit of a keyboard modifier set.
pub const MOD_CONTROL: u32 = 0x8;
/// The Meta bit of a keyboard modifier set.
pub const MOD_META: u32 = 0x40;
/// The Shift bit of a keyboard modifier set.
pub const MOD_SHIFT: u32 = 0x200;
/// The Hyper bit of a keyboard modifier set.
pub const MOD_HYPER: u32 = 0x1000;
/// The Super bit of a keyboard modifier set.
pub const MOD_SUPER: u32 = 0x2000;

/// Modifier key.
#[derive(Debug, Clone, Copy, PartialEq, Eq, Structural, Hash)]
pub enum Modifier {
    Ctrl,
    Alt,
    Shift,
    Meta,
    Super,
    Hyper,
}

/// The bit of a modifier in a keyboard modifier set.
pub open spec fn modifier_bit(m: Modifier) -> u32 {
    match m {
        Modifier::Ctrl => MOD_CONTROL,
        Modifier::Alt => MOD_ALT,
        Modifier::Shift => MOD_SHIFT,
        Modifier::Meta => MOD_META,
        Modifier::Super => MOD_SUPER,
        Modifier::Hyper => MOD_HYPER,
    }
}

/// The name a modifier is written with.
pub open spec fn modifier_name(m: Modifier) -> Seq<char> {
    match m {
        Modifier::Ctrl => "Ctrl"@,
        Modifier::Alt => "Alt"@,
        Modifier::Shift => "Shift"@,
        Modifier::Meta => "Meta"@,
        Modifier::Super => "Super"@,
        Modifier::Hyper => "Hyper"@,
    }
}

impl Modifier {
    /// The modifier's bit in a keyboard modifier set.
    pub fn to_keyboard_mod(&self) -> (b: u32)
        ensures b == modifier_bit(*self),
    {
        match self {
            Modifier::Ctrl => MOD_CONTROL,
            Modifier::Alt => MOD_ALT,
            Modifier::Shift => MOD_SHIFT,
            Modifier::Meta => MOD_META,
            Modifier::Super => MOD_SUPER,
            Modifier::Hyper => MOD_HYPER,
        }
    }

    fn name(&self) -> (s: &'static str)
        ensures s@ == modifier_name(*self),
    {
        match self {
            Modifier::Ctrl => "Ctrl",
            Modifier::Alt => "Alt",
            Modifier::Shift => "Shift",
            Modifier::Meta => "Meta",
            Modifier::Super => "Super",
            Modifier::Hyper => "Hyper",
        }
    }
}

/// A key as the keyboard reports it: a character, one of the named keys that
/// bindings can use, or another key.
#[derive(Debug)]
pub enum KeyPress {
    Character(String),
    ArrowUp,
    ArrowDown,
    ArrowLeft,
    ArrowRight,
    Enter,
    Tab,
    Escape,
    Backspace,
    Delete,
    Home,
    End,
    PageUp,
    PageDown,
    F1,
    F2,
    F3,
    F4,
    F5,
    F6,
    F7,
    F8,
    F9,
    F10,
    F11,
    F12,
    Other,
}

/// The name of a named key; characters and other keys have none.
pub open spec fn named_key(k: KeyPress) -> Option<Seq<char>> {
    match k {
        KeyPress::ArrowUp => Some("ArrowUp"@),
        KeyPress::ArrowDown => Some("ArrowDown"@),
        KeyPress::ArrowLeft => Some("ArrowLeft"@),
        KeyPress::ArrowRight => Some("ArrowRight"@),
        KeyPress::Enter => Some("Enter"@),
        KeyPress::Tab => Some("Tab"@),
        KeyPress::Escape => Some("Escape"@),
        KeyPress::Backspace => Some("Backspace"@),
        KeyPress::Delete => Some("Delete"@),
        KeyPress::Home => Some("Home"@),
        KeyPress::End => Some("End"@),
        KeyPress::PageUp => Some("PageUp"@),
        KeyPress::PageDown => Some("PageDown"@),
        KeyPress::F1 => Some("F1"@),
        KeyPress::F2 => Some("F2"@),
        KeyPress::F3 => Some("F3"@),
        KeyPress::F4 => Some("F4"@),
        KeyPress::F5 => Some("F5"@),
        KeyPress::F6 => Some("F6"@),
        KeyPress::F7 => Some("F7"@),
        KeyPress::F8 => Some("F8"@),
        KeyPress::F9 => Some("F9"@),
        KeyPress::F10 => Some("F10"@),
        KeyPress::F11 => Some("F11"@),
        KeyPress::F12 => Some("F12"@),
        _ => None,
    }
}

/// The key text a binding would use for a key: the character (a space written
/// "Space") or the key's name; other keys have none.
pub open spec fn key_text(k: KeyPress) -> Option<Seq<char>> {
    match k {
        KeyPress::Character(c) => if c@ == " "@ { Some("Space"@) } else { Some(c@) },
        _ => named_key(k),
    }
}

fn named_key_exec(k: &KeyPress) -> (r: Option<&'static str>)
    ensures
        match r {
            Some(s) => named_key(*k) == Some(s@),
            None => named_key(*k) is None,
        },
{
    match k {
        KeyPress::ArrowUp => Some("ArrowUp"),
        KeyPress::ArrowDown => Some("ArrowDown"),
        KeyPress::ArrowLeft => Some("ArrowLeft"),
        KeyPress::ArrowRight => Some("ArrowRight"),
        KeyPress::Enter => Some("Enter"),
        KeyPress::Tab => Some("Tab"),
        KeyPress::Escape => Some("Escape"),
        KeyPress::Backspace => Some("Backspace"),
        KeyPress::Delete => Some("Delete"),
        KeyPress::Home => Some("Home"),
        KeyPress::End => Some("End"),
        KeyPress::PageUp => Some("PageUp"),
        KeyPress::PageDown => Some("PageDown"),
        KeyPress::F1 => Some("F1"),
        KeyPress::F2 => Some("F2"),
        KeyPress::F3 => Some("F3"),
        KeyPress::F4 => Some("F4"),
        KeyPress::F5 => Some("F5"),
        KeyPress::F6 => Some("F6"),
        KeyPress::F7 => Some("F7"),
        KeyPress::F8 => Some("F8"),
        KeyPress::F9 => Some("F9"),
        KeyPress::F10 => Some("F10"),
        KeyPress::F11 => Some("F11"),
        KeyPress::F12 => Some("F12"),
        _ => None,
    }
}

/// Key chord: a key with the modifiers held with it.
#[derive(Debug)]
pub struct Chord {
    pub key: String,
    pub modifiers: Vec<Modifier>,
}

/// A chord as values: its key and its modifiers.
pub open spec fn chord_view(c: Chord) -> (Seq<char>, Seq<Modifier>) {
    (c.key@, c.modifiers@)
}

/// The modifiers each followed by "+".
pub open spec fn modifiers_prefix(ms: Seq<Modifier>) -> Seq<char>
    decreases ms.len(),
{
    if ms.len() == 0 {
        Seq::empty()
    } else {
        modifiers_prefix(ms.drop_last()) + modifier_name(ms.last()) + "+"@
    }
}

/// The text of a chord: its modifiers and its key joined by "+".
pub open spec fn chord_text(c: Chord) -> Seq<char> {
    modifiers_prefix(c.modifiers@) + c.key@
}

/// Whether a key event matches a chord: the key agrees (a binding's "Space"
/// stands for the space character) and every modifier of the chord is held.
pub open spec fn chord_matches(c: Chord, k: KeyPress, mods: u32) -> bool {
    let key_ok = match k {
        KeyPress::Character(s) => if c.key@ == "Space"@ { s@ == " "@ } else { s@ == c.key@ },
        _ => named_key(k) == Some(c.key@),
    };
    &&& key_ok
    &&& forall|i: int| 0 <= i < c.modifiers@.len() ==> #[trigger] (mods & modifier_bit(c.modifiers@[i])) != 0
}

fn copy_modifiers(v: &Vec<Modifier>) -> (r: Vec<Modifier>)
    ensures r@ == v@,
{
    let mut r: Vec<Modifier> = Vec::new();
    let mut i: usize = 0;
    while i < v.len()
        invariant
            i <= v@.len(),
            r@ == v@.subrange(0, i as int),
        decreases v.len() - i,
    {
        r.push(v[i]);
        i = i + 1;
        assert(r@ =~= v@.subrange(0, i as int));
    }
    assert(v@.subrange(0, v@.len() as int) =~= v@);
    r
}

impl Chord {
    /// A chord of `key` with `modifiers`.
    pub fn new(key: String, modifiers: Vec<Modifier>) -> (c: Self)
        ensures c.key == key, c.modifiers == modifiers,
    {
        Chord { key, modifiers }
    }

    /// A copy of the chord.
    pub fn duplicate(&self) -> (c: Self)
        ensures chord_view(c) == chord_view(*self),
    {
        Chord { key: self.key.clone(), modifiers: copy_modifiers(&self.modifiers) }
    }

    /// Whether a key event matches the chord; see `chord_matches`.
    pub fn matches(&self, key: &KeyPress, mods: u32) -> (b: bool)
        ensures b == chord_matches(*self, *key, mods),
    {
        proof { reveal_strlit("Space"); reveal_strlit(" "); }
        let key_match = match key {
            KeyPress::Character(c) => {
                if str_eq(self.key.as_str(), "Space") {
                    str_eq(c.as_str(), " ")
                } else {
                    str_eq(c.as_str(), self.key.as_str())
                }
            },
            _ => match named_key_exec(key) {
                Some(name) => str_eq(name, self.key.as_str()),
                None => false,
            },
        };
        if !key_match {
            return false;
        }
        let mut i: usize = 0;
        while i < self.modifiers.len()
            invariant
                i <= self.modifiers@.len(),
                forall|j: int| 0 <= j < i ==> #[trigger] (mods & modifier_bit(self.modifiers@[j])) != 0,
            decreases self.modifiers.len() - i,
        {
            let required = self.modifiers[i].to_keyboard_mod();
            if mods & required == 0 {
                return false;
            }
            i = i + 1;
        }
        true
    }

    /// The chord as text, such as "Ctrl+Shift+n".
    pub fn format(&self) -> (s: String)
        ensures s@ == chord_text(*self),
    {
        let mut out = owned("");
        proof { reveal_strlit(""); }
        let mut i: usize = 0;
        while i < self.modifiers.len()
            invariant
                i <= self.modifiers@.len(),
                out@ == modifiers_prefix(self.modifiers@.subrange(0, i as int)),
            decreases self.modifiers.len() - i,
        {
            proof {
                assert(self.modifiers@.subrange(0, i + 1).drop_last() =~= self.modifiers@.subrange(0, i as int));
            }
            let a = concat2(out.as_str(), self.modifiers[i].name());
            out = concat2(a.as_str(), "+");
            i = i + 1;
        }
        assert(self.modifiers@.subrange(0, self.modifiers@.len() as int) =~= self.modifiers@);
        concat2(out.as_str(), self.key.as_str())
    }
}

/// Key sequence: chords pressed in order, with the time allowed between them.
#[derive(Debug)]
pub struct KeySequence {
    pub keys: Vec<Chord>,
    pub timeout_ms: Option<u64>,
}

/// A key sequence as values.
pub open spec fn sequence_view(s: KeySequence) -> (Seq<(Seq<char>, Seq<Modifier>)>, Option<u64>) {
    (s.keys@.map_values(|c: Chord| chord_view(c)), s.timeout_ms)
}

fn chord_eq(a: &Chord, b: &Chord) -> (r: bool)
    ensures r == (chord_view(*a) == chord_view(*b)),
{
    if !str_eq(a.key.as_str(), b.key.as_str()) {
        return false;
    }
    if a.modifiers.len() != b.modifiers.len() {
        return false;
    }
    let mut i: usize = 0;
    while i < a.modifiers.len()
        invariant
            i <= a.modifiers@.len(),
            a.modifiers@.len() == b.modifiers@.len(),
            forall|j: int| 0 <= j < i ==> a.modifiers@[j] == b.modifiers@[j],
        decreases a.modifiers.len() - i,
    {
        if a.modifiers[i] != b.modifiers[i] {
            return false;
        }
        i = i + 1;
    }
    assert(a.modifiers@ =~= b.modifiers@);
    true
}

fn sequence_eq(a: &KeySequence, b: &KeySequence) -> (r: bool)
    ensures r == (sequence_view(*a) == sequence_view(*b)),
{
    if a.timeout_ms != b.timeout_ms {
        return false;
    }
    if a.keys.len() != b.keys.len() {
        proof {
            assert(sequence_view(*a).0.len() != sequence_view(*b).0.len());
        }
        return false;
    }
    let mut i: usize = 0;
    while i < a.keys.len()
        invariant
            i <= a.keys@.len(),
            a.keys@.len() == b.keys@.len(),
            forall|j: int| 0 <= j < i ==> chord_view(a.keys@[j]) == chord_view(b.keys@[j]),
        decreases a.keys.len() - i,
    {
        if !chord_eq(&a.keys[i], &b.keys[i]) {
            proof {
                assert(sequence_view(*a).0[i as int] != sequence_view(*b).0[i as int]);
            }
            return false;
        }
        i = i + 1;
    }
    assert(sequence_view(*a).0 =~= sequence_view(*b).0);
    true
}

impl KeySequence {
    /// A sequence of chords with the default 500 ms between them.
    pub fn new(keys: Vec<Chord>) -> (s: Self)
        ensures s.keys == keys, s.timeout_ms == Some(500u64),
    {
        KeySequence { keys, timeout_ms: Some(500) }
    }

    /// A single chord, with no timeout.
    pub fn single(key: Chord) -> (s: Self)
        ensures s.keys@ == seq![key], s.timeout_ms is None,
    {
        let keys = vec![key];
        assert(keys@ =~= seq![key]);
        KeySequence { keys, timeout_ms: None }
    }

    /// A copy of the sequence.
    pub fn duplicate(&self) -> (s: Self)
        ensures sequence_view(s) == sequence_view(*self),
    {
        let mut keys: Vec<Chord> = Vec::new();
        let mut i: usize = 0;
        while i < self.keys.len()
            invariant
                i <= self.keys@.len(),
                keys@.len() == i,
                forall|j: int| 0 <= j < i ==> chord_view(#[trigger] keys@[j]) == chord_view(self.keys@[j]),
            decreases self.keys.len() - i,
        {
            keys.push(self.keys[i].duplicate());
            i = i + 1;
        }
        let s = KeySequence { keys, timeout_ms: self.timeout_ms };
        assert(sequence_view(s).0 =~= sequence_view(*self).0);
        s
    }
}

/// Key action. A custom action carries its arguments as JSON text.
#[derive(Debug)]
pub enum KeyAction {
    Command(String),
    InsertText(String),
    Macro(Vec<KeySequence>),
    Toggle(String),
    OpenPanel(String),
    Focus(String),
    Custom(String, String),
}

/// Key binding.
#[derive(Debug)]
pub struct KeyBinding {
    pub id: String,
    pub sequence: KeySequence,
    pub action: KeyAction,
    pub context: String,
    pub description: String,
    pub enabled: bool,
    pub group: String,
    pub when: Option<String>,
}

/// Keymap: named bindings. Times are milliseconds since the Unix epoch.
#[derive(Debug)]
pub struct Keymap {
    pub name: String,
    pub description: Option<String>,
    pub version: String,
    pub author: Option<String>,
    pub bindings: Vec<KeyBinding>,
    pub parent: Option<String>,
    pub created_at: i64,
    pub updated_at: i64,
}

/// Keymap profile: the keymap it uses, bindings it overrides and ids of
/// bindings it disables.
#[derive(Debug)]
pub struct KeymapProfile {
    pub name: String,
    pub active_keymap: String,
    pub overrides: Vec<KeyBinding>,
    pub disabled_bindings: Vec<String>,
    pub created_at: i64,
}

/// Keybinding conflict: two bindings of one keymap with the same sequence.
#[derive(Debug)]
pub struct Conflict {
    pub binding1: String,
    pub binding2: String,
    pub sequence: KeySequence,
}

/// The `i`-th default binding: (id, key, modifiers, command, context,
/// description, group). The redo binding is a sequence with the default
/// timeout; the others are single chords.
pub open spec fn default_binding(i: int) -> (Seq<char>, Seq<char>, Seq<Modifier>, Seq<char>, Seq<char>, Seq<char>, Seq<char>) {
    if i == 0 { ("file.save"@, "s"@, seq![Modifier::Ctrl], "workbench.action.files.save"@, "editor"@, "Save file"@, "File"@) }
    else if i == 1 { ("file.open"@, "o"@, seq![Modifier::Ctrl], "workbench.action.files.open"@, "global"@, "Open file"@, "File"@) }
    else if i == 2 { ("file.new"@, "n"@, seq![Modifier::Ctrl], "workbench.action.files.new"@, "global"@, "New file"@, "File"@) }
    else if i == 3 { ("edit.copy"@, "c"@, seq![Modifier::Ctrl], "editor.action.clipboardCopy"@, "editor"@, "Copy"@, "Edit"@) }
    else if i == 4 { ("edit.cut"@, "x"@, seq![Modifier::Ctrl], "editor.action.clipboardCut"@, "editor"@, "Cut"@, "Edit"@) }
    else if i == 5 { ("edit.paste"@, "v"@, seq![Modifier::Ctrl], "editor.action.clipboardPaste"@, "editor"@, "Paste"@, "Edit"@) }
    else if i == 6 { ("edit.undo"@, "z"@, seq![Modifier::Ctrl], "undo"@, "editor"@, "Undo"@, "Edit"@) }
    else if i == 7 { ("edit.redo"@, "y"@, seq![Modifier::Ctrl], "redo"@, "editor"@, "Redo"@, "Edit"@) }
    else if i == 8 { ("view.toggleSidebar"@, "b"@, seq![Modifier::Ctrl], "workbench.action.toggleSidebar"@, "global"@, "Toggle sidebar"@, "View"@) }
    else if i == 9 { ("view.toggleTerminal"@, "`"@, seq![Modifier::Ctrl], "workbench.action.terminal.toggle"@, "global"@, "Toggle terminal"@, "View"@) }
    else if i == 10 { ("search.find"@, "f"@, seq![Modifier::Ctrl], "actions.find"@, "editor"@, "Find"@, "Search"@) }
    else if i == 11 { ("search.replace"@, "h"@, seq![Modifier::Ctrl], "editor.action.startFindReplace"@, "editor"@, "Replace"@, "Search"@) }
    else if i == 12 { ("debug.start"@, "F5"@, Seq::<Modifier>::empty(), "workbench.action.debug.start"@, "debug"@, "Start debugging"@, "Debug"@) }
    else if i == 13 { ("debug.stop"@, "F5"@, seq![Modifier::Shift], "workbench.action.debug.stop"@, "debug"@, "Stop debugging"@, "Debug"@) }
    else { ("terminal.new"@, "n"@, seq![Modifier::Ctrl, Modifier::Shift], "workbench.action.terminal.new"@, "terminal"@, "New terminal"@, "Terminal"@) }
}

/// Binding `b` is the `i`-th default binding, enabled, with no condition.
pub open spec fn is_default_binding(b: KeyBinding, i: int) -> bool {
    let d = default_binding(i);
    &&& b.id@ == d.0
    &&& b.sequence.keys@.len() == 1
    &&& chord_view(b.sequence.keys@[0]) == (d.1, d.2)
    &&& b.sequence.timeout_ms == (if i == 7 { Some(500u64) } else { None::<u64> })
    &&& b.action matches KeyAction::Command(c) && c@ == d.3
    &&& b.context@ == d.4
    &&& b.description@ == d.5
    &&& b.group@ == d.6
    &&& b.enabled
    &&& b.when is None
}

fn command_binding(
    id: &str,
    key: &str,
    modifiers: Vec<Modifier>,
    command: &str,
    context: &str,
    description: &str,
    group: &str,
    with_timeout: bool,
) -> (b: KeyBinding)
    ensures
        b.id@ == id@,
        b.sequence.keys@.len() == 1,
        chord_view(b.sequence.keys@[0]) == (key@, modifiers@),
        b.sequence.timeout_ms == (if with_timeout { Some(500u64) } else { None::<u64> }),
        b.action matches KeyAction::Command(c) && c@ == command@,
        b.context@ == context@,
        b.description@ == description@,
        b.group@ == group@,
        b.enabled,
        b.when is None,
{
    let chord = Chord::new(owned(key), modifiers);
    let sequence = if with_timeout {
        let keys = vec![chord];
        KeySequence::new(keys)
    } else {
        KeySequence::single(chord)
    };
    KeyBinding {
        id: owned(id),
        sequence,
        action: KeyAction::Command(owned(command)),
        context: owned(context),
        description: owned(description),
        enabled: true,
        group: owned(group),
        when: None,
    }
}

fn modifiers_of(i: usize) -> (m: Vec<Modifier>)
    requires i < 15,
    ensures m@ == default_binding(i as int).2,
{
    if i == 12 {
        let v: Vec<Modifier> = Vec::new();
        assert(v@ =~= Seq::<Modifier>::empty());
        v
    } else if i == 13 {
        let v = vec![Modifier::Shift];
        assert(v@ =~= seq![Modifier::Shift]);
        v
    } else if i == 14 {
        let v = vec![Modifier::Ctrl, Modifier::Shift];
        assert(v@ =~= seq![Modifier::Ctrl, Modifier::Shift]);
        v
    } else {
        let v = vec![Modifier::Ctrl];
        assert(v@ =~= seq![Modifier::Ctrl]);
        v
    }
}

/// The default bindings.
fn create_default_bindings() -> (v: Vec<KeyBinding>)
    ensures
        v@.len() == 15,
        forall|i: int| 0 <= i < 15 ==> #[trigger] is_default_binding(v@[i], i),
{
    let table: [(&str, &str, &str, &str, &str, &str); 15] = [
        ("file.save", "s", "workbench.action.files.save", "editor", "Save file", "File"),
        ("file.open", "o", "workbench.action.files.open", "global", "Open file", "File"),
        ("file.new", "n", "workbench.action.files.new", "global", "New file", "File"),
        ("edit.copy", "c", "editor.action.clipboardCopy", "editor", "Copy", "Edit"),
        ("edit.cut", "x", "editor.action.clipboardCut", "editor", "Cut", "Edit"),
        ("edit.paste", "v", "editor.action.clipboardPaste", "editor", "Paste", "Edit"),
        ("edit.undo", "z", "undo", "editor", "Undo", "Edit"),
        ("edit.redo", "y", "redo", "editor", "Redo", "Edit"),
        ("view.toggleSidebar", "b", "workbench.action.toggleSidebar", "global", "Toggle sidebar", "View"),
        ("view.toggleTerminal", "`", "workbench.action.terminal.toggle", "global", "Toggle terminal", "View"),
        ("search.find", "f", "actions.find", "editor", "Find", "Search"),
        ("search.replace", "h", "editor.action.startFindReplace", "editor", "Replace", "Search"),
        ("debug.start", "F5", "workbench.action.debug.start", "debug", "Start debugging", "Debug"),
        ("debug.stop", "F5", "workbench.action.debug.stop", "debug", "Stop debugging", "Debug"),
        ("terminal.new", "n", "workbench.action.terminal.new", "terminal", "New terminal", "Terminal"),
    ];
    let mut v: Vec<KeyBinding> = Vec::new();
    let mut i: usize = 0;
    while i < 15
        invariant
            i <= 15,
            v@.len() == i,
            forall|t: int| 0 <= t < 15 ==> {
                let d = default_binding(t);
                &&& (#[trigger] table@[t]).0@ == d.0 && table@[t].1@ == d.1 && table@[t].2@ == d.3
                &&& table@[t].3@ == d.4 && table@[t].4@ == d.5 && table@[t].5@ == d.6
            },
            forall|t: int| 0 <= t < i ==> #[trigger] is_default_binding(v@[t], t),
        decreases 15 - i,
    {
        let (id, key, command, context, description, group) = table[i];
        let b = command_binding(id, key, modifiers_of(i), command, context, description, group, i == 7);
        v.push(b);
        i = i + 1;
    }
    v
}

/// The ids of the bindings in context `ctx`, in order.
pub open spec fn context_ids(b: Seq<KeyBinding>, ctx: Seq<char>) -> Seq<Seq<char>>
    decreases b.len(),
{
    if b.len() == 0 {
        Seq::empty()
    } else {
        let r = context_ids(b.drop_last(), ctx);
        if b.last().context@ == ctx { r.push(b.last().id@) } else { r }
    }
}

/// Some binding is in context `ctx`.
pub open spec fn has_context(b: Seq<KeyBinding>, ctx: Seq<char>) -> bool {
    exists|i: int| 0 <= i < b.len() && (#[trigger] b[i]).context@ == ctx
}

/// The index of a keymap's bindings by context.
pub open spec fn context_index_of(m: Map<Seq<char>, Vec<String>>, b: Seq<KeyBinding>) -> bool {
    &&& forall|ctx: Seq<char>| #[trigger] m.contains_key(ctx) <==> has_context(b, ctx)
    &&& forall|ctx: Seq<char>| #[trigger] m.contains_key(ctx) ==> views(m[ctx]@) == context_ids(b, ctx)
}

/// Index of the first enabled single-chord binding whose chord is `chord`.
pub open spec fn first_binding_for(b: Seq<KeyBinding>, chord: (Seq<char>, Seq<Modifier>)) -> Option<int> {
    if exists|i: int| 0 <= i < b.len() && binding_fires(#[trigger] b[i], chord)
        && forall|j: int| 0 <= j < i ==> !binding_fires(#[trigger] b[j], chord) {
        Some(choose|i: int| 0 <= i < b.len() && binding_fires(#[trigger] b[i], chord)
            && forall|j: int| 0 <= j < i ==> !binding_fires(#[trigger] b[j], chord))
    } else {
        None
    }
}

/// An enabled binding of the single chord `chord`.
pub open spec fn binding_fires(b: KeyBinding, chord: (Seq<char>, Seq<Modifier>)) -> bool {
    b.enabled && b.sequence.keys@.len() == 1 && chord_view(b.sequence.keys@[0]) == chord
}

/// `b` is enabled and its key sequence is the single chord `key` with `mods`.
pub open spec fn enabled_single_chord(b: KeyBinding, key: Seq<char>, mods: Seq<Modifier>) -> bool {
    &&& b.enabled
    &&& b.sequence.keys@.len() == 1
    &&& b.sequence.keys@[0].key@ == key
    &&& b.sequence.keys@[0].modifiers@ == mods
}

/// The binding a chord selects in a keymap is the first one that is enabled
/// and bound to that single chord: a disabled binding is never selected, and
/// nothing is selected only when no enabled binding has the chord.
pub proof fn law_selected_binding_is_first_enabled(b: Seq<KeyBinding>, key: Seq<char>, mods: Seq<Modifier>)
    ensures
        first_binding_for(b, (key, mods)) matches Some(i) ==> ({
            &&& 0 <= i < b.len()
            &&& b[i].enabled
            &&& enabled_single_chord(b[i], key, mods)
            &&& forall|j: int| 0 <= j < i ==> !enabled_single_chord(#[trigger] b[j], key, mods)
        }),
        first_binding_for(b, (key, mods)) is None
            ==> forall|j: int| 0 <= j < b.len() ==> !enabled_single_chord(#[trigger] b[j], key, mods),
{
    let chord = (key, mods);
    if first_binding_for(b, chord) is None {
        assert forall|j: int| 0 <= j < b.len() implies !enabled_single_chord(#[trigger] b[j], key, mods) by {
            if enabled_single_chord(b[j], key, mods) {
                assert(binding_fires(b[j], chord));
                // the least such index witnesses the existential of `first_binding_for`
                let k = lemma_least_firing(b, chord, j);
                assert(false);
            }
        }
    } else {
        let i = first_binding_for(b, chord)->0;
        assert forall|j: int| 0 <= j < i implies !enabled_single_chord(#[trigger] b[j], key, mods) by {
            assert(!binding_fires(b[j], chord));
        }
    }
}

proof fn lemma_least_firing(b: Seq<KeyBinding>, chord: (Seq<char>, Seq<Modifier>), j: int) -> (k: int)
    requires 0 <= j < b.len(), binding_fires(b[j], chord),
    ensures
        0 <= k <= j,
        binding_fires(b[k], chord),
        forall|t: int| 0 <= t < k ==> !binding_fires(#[trigger] b[t], chord),
        first_binding_for(b, chord) is Some,
    decreases j,
{
    if exists|t: int| 0 <= t < j && binding_fires(#[trigger] b[t], chord) {
        let t = choose|t: int| 0 <= t < j && binding_fires(#[trigger] b[t], chord);
        lemma_least_firing(b, chord, t)
    } else {
        j
    }
}

/// The modifiers held in a modifier set, in the order Ctrl, Alt, Shift, Meta,
/// Super, Hyper.
pub open spec fn held_modifiers(mods: u32) -> Seq<Modifier> {
    let a = if mods & MOD_CONTROL != 0 { seq![Modifier::Ctrl] } else { Seq::empty() };
    let b = if mods & MOD_ALT != 0 { a.push(Modifier::Alt) } else { a };
    let c = if mods & MOD_SHIFT != 0 { b.push(Modifier::Shift) } else { b };
    let d = if mods & MOD_META != 0 { c.push(Modifier::Meta) } else { c };
    let e = if mods & MOD_SUPER != 0 { d.push(Modifier::Super) } else { d };
    if mods & MOD_HYPER != 0 { e.push(Modifier::Hyper) } else { e }
}

fn held_modifiers_exec(mods: u32) -> (v: Vec<Modifier>)
    ensures v@ == held_modifiers(mods),
{
    let mut v: Vec<Modifier> = Vec::new();
    if mods & MOD_CONTROL != 0 { v.push(Modifier::Ctrl); }
    if mods & MOD_ALT != 0 { v.push(Modifier::Alt); }
    if mods & MOD_SHIFT != 0 { v.push(Modifier::Shift); }
    if mods & MOD_META != 0 { v.push(Modifier::Meta); }
    if mods & MOD_SUPER != 0 { v.push(Modifier::Super); }
    if mods & MOD_HYPER != 0 { v.push(Modifier::Hyper); }
    assert(v@ =~= held_modifiers(mods));
    v
}

/// The conflicting pairs of bindings `i < j < m` for a fixed `i`, in order of `j`.
pub open spec fn conflicts_row(b: Seq<KeyBinding>, i: int, m: int) -> Seq<(int, int)>
    decreases m - i,
{
    if m <= i + 1 {
        Seq::empty()
    } else {
        let r = conflicts_row(b, i, m - 1);
        if sequence_view(b[i].sequence) == sequence_view(b[m - 1].sequence) { r.push((i, m - 1)) } else { r }
    }
}

/// All conflicting pairs `(i, j)`, `i < j`, of bindings `0..k` as first member,
/// ordered by `i` and then `j`.
pub open spec fn conflicts_upto(b: Seq<KeyBinding>, k: int) -> Seq<(int, int)>
    decreases k,
{
    if k <= 0 {
        Seq::empty()
    } else {
        conflicts_upto(b, k - 1) + conflicts_row(b, k - 1, b.len() as int)
    }
}

/// Bindings `i` and `j` have the same key sequence.
pub open spec fn same_sequence(b: Seq<KeyBinding>, i: int, j: int) -> bool {
    sequence_view(b[i].sequence) == sequence_view(b[j].sequence)
}

/// Pair `p` comes before pair `q`: by first member, then by second.
pub open spec fn pair_before(p: (int, int), q: (int, int)) -> bool {
    p.0 < q.0 || (p.0 == q.0 && p.1 < q.1)
}

proof fn lemma_conflicts_row(b: Seq<KeyBinding>, i: int, m: int)
    requires 0 <= i, m <= b.len(),
    ensures
        forall|t: int| 0 <= t < conflicts_row(b, i, m).len() ==> (#[trigger] conflicts_row(b, i, m)[t]).0 == i
            && i < conflicts_row(b, i, m)[t].1 < m && same_sequence(b, i, conflicts_row(b, i, m)[t].1),
        forall|j: int| i < j < m && #[trigger] same_sequence(b, i, j)
            ==> exists|t: int| 0 <= t < conflicts_row(b, i, m).len() && #[trigger] conflicts_row(b, i, m)[t] == (i, j),
        forall|t1: int, t2: int| 0 <= t1 < t2 < conflicts_row(b, i, m).len()
            ==> (#[trigger] conflicts_row(b, i, m)[t1]).1 < (#[trigger] conflicts_row(b, i, m)[t2]).1,
    decreases m - i,
{
    if m > i + 1 {
        lemma_conflicts_row(b, i, m - 1);
        let r = conflicts_row(b, i, m - 1);
        if same_sequence(b, i, m - 1) {
            assert(conflicts_row(b, i, m) == r.push((i, m - 1)));
            assert(conflicts_row(b, i, m)[r.len() as int] == (i, m - 1));
            assert forall|j: int| i < j < m && #[trigger] same_sequence(b, i, j)
                implies exists|t: int| 0 <= t < conflicts_row(b, i, m).len() && #[trigger] conflicts_row(b, i, m)[t] == (i, j) by {
                if j < m - 1 {
                    let t = choose|t: int| 0 <= t < r.len() && #[trigger] r[t] == (i, j);
                    assert(conflicts_row(b, i, m)[t] == (i, j));
                } else {
                    assert(conflicts_row(b, i, m)[r.len() as int] == (i, j));
                }
            }
        } else {
            assert(conflicts_row(b, i, m) == r);
        }
    }
}

/// The conflicts of a keymap, as `check_conflicts` states them over
/// `conflicts_upto`, are exactly the pairs of bindings `i < j` with the same
/// key sequence, each once, ordered by `i` and then by `j`.
pub proof fn law_conflicts_are_equal_pairs(b: Seq<KeyBinding>, k: int)
    requires 0 <= k <= b.len(),
    ensures
        forall|t: int| 0 <= t < conflicts_upto(b, k).len() ==> 0 <= (#[trigger] conflicts_upto(b, k)[t]).0 < k
            && conflicts_upto(b, k)[t].0 < conflicts_upto(b, k)[t].1 < b.len()
            && same_sequence(b, conflicts_upto(b, k)[t].0, conflicts_upto(b, k)[t].1),
        forall|i: int, j: int| 0 <= i < k && i < j < b.len() && #[trigger] same_sequence(b, i, j)
            ==> exists|t: int| 0 <= t < conflicts_upto(b, k).len() && #[trigger] conflicts_upto(b, k)[t] == (i, j),
        forall|t1: int, t2: int| 0 <= t1 < t2 < conflicts_upto(b, k).len()
            ==> pair_before(#[trigger] conflicts_upto(b, k)[t1], #[trigger] conflicts_upto(b, k)[t2]),
    decreases k,
{
    if k > 0 {
        law_conflicts_are_equal_pairs(b, k - 1);
        lemma_conflicts_row(b, k - 1, b.len() as int);
        let a = conflicts_upto(b, k - 1);
        let r = conflicts_row(b, k - 1, b.len() as int);
        let s = conflicts_upto(b, k);
        assert(s == a + r);
        assert forall|t: int| 0 <= t < s.len() implies 0 <= (#[trigger] s[t]).0 < k && s[t].0 < s[t].1 < b.len()
            && same_sequence(b, s[t].0, s[t].1) by {
            if t < a.len() {
                assert(s[t] == a[t]);
            } else {
                assert(s[t] == r[t - a.len()]);
            }
        }
        assert forall|i: int, j: int| 0 <= i < k && i < j < b.len() && #[trigger] same_sequence(b, i, j)
            implies exists|t: int| 0 <= t < s.len() && #[trigger] s[t] == (i, j) by {
            if i < k - 1 {
                let t = choose|t: int| 0 <= t < a.len() && #[trigger] a[t] == (i, j);
                assert(s[t] == (i, j));
            } else {
                let t = choose|t: int| 0 <= t < r.len() && #[trigger] r[t] == (i, j);
                assert(s[a.len() + t] == (i, j));
            }
        }
        assert forall|t1: int, t2: int| 0 <= t1 < t2 < s.len()
            implies pair_before(#[trigger] s[t1], #[trigger] s[t2]) by {
            if t2 < a.len() {
                assert(s[t1] == a[t1] && s[t2] == a[t2]);
            } else if t1 >= a.len() {
                assert(s[t1] == r[t1 - a.len()] && s[t2] == r[t2 - a.len()]);
            } else {
                assert(s[t1] == a[t1] && s[t2] == r[t2 - a.len()]);
            }
        }
    }
}

/// A conflict reports the ids and the sequence of the pair it stands for.
pub open spec fn conflict_reports(c: Conflict, b: Seq<KeyBinding>, p: (int, int)) -> bool {
    &&& c.binding1@ == b[p.0].id@
    &&& c.binding2@ == b[p.1].id@
    &&& sequence_view(c.sequence) == sequence_view(b[p.0].sequence)
}

/// The keybinding manager: keymaps and profiles by name, which of each is
/// active, and the active keymap's bindings indexed by context.
pub struct KeybindingManager {
    keymaps: StrMap<Keymap>,
    active_keymap: String,
    profiles: StrMap<KeymapProfile>,
    active_profile: String,
    context_bindings: StrMap<Vec<String>>,
    sequence_timeout_ms: u64,
}

impl KeybindingManager {
    pub closed spec fn wf(&self) -> bool {
        self.keymaps.wf() && self.profiles.wf() && self.context_bindings.wf()
    }

    pub closed spec fn keymaps_view(&self) -> Map<Seq<char>, Keymap> {
        self.keymaps@
    }

    pub closed spec fn profiles_view(&self) -> Map<Seq<char>, KeymapProfile> {
        self.profiles@
    }

    pub closed spec fn active_keymap_name(&self) -> Seq<char> {
        self.active_keymap@
    }

    pub closed spec fn active_profile_name(&self) -> Seq<char> {
        self.active_profile@
    }

    pub closed spec fn context_index(&self) -> Map<Seq<char>, Vec<String>> {
        self.context_bindings@
    }

    pub closed spec fn timeout_ms(&self) -> u64 {
        self.sequence_timeout_ms
    }

    /// Create the manager with the "default" keymap of the default bindings
    /// (further keymaps come from the keymaps directory), `default_keymap` active,
    /// the "default" profile active and a 500 ms sequence timeout.
    pub fn new(default_keymap: &str, version: &str) -> (m: Self)
        ensures
            m.wf(),
            m.keymaps_view().dom() == set!["default"@],
            m.keymaps_view()["default"@].name@ == "default"@,
            m.keymaps_view()["default"@].version@ == version@,
            m.keymaps_view()["default"@].bindings@.len() == 15,
            forall|i: int| 0 <= i < 15 ==> #[trigger] is_default_binding(m.keymaps_view()["default"@].bindings@[i], i),
            m.active_keymap_name() == default_keymap@,
            m.active_profile_name() == "default"@,
            m.profiles_view() == Map::<Seq<char>, KeymapProfile>::empty(),
            m.context_index() == Map::<Seq<char>, Vec<String>>::empty(),
            m.timeout_ms() == 500,
    {
        let now = now_millis();
        let keymap = Keymap {
            name: owned("default"),
            description: Some(owned("Default keymap for Parsec IDE")),
            version: owned(version),
            author: Some(owned("Parsec Team")),
            bindings: create_default_bindings(),
            parent: None,
            created_at: now,
            updated_at: now,
        };
        let mut keymaps: StrMap<Keymap> = StrMap::new();
        keymaps.insert(owned("default"), keymap);
        assert(keymaps@.dom() =~= set!["default"@]);
        KeybindingManager {
            keymaps,
            active_keymap: owned(default_keymap),
            profiles: StrMap::new(),
            active_profile: owned("default"),
            context_bindings: StrMap::new(),
            sequence_timeout_ms: 500,
        }
    }

    /// Add or replace a keymap under its name (saving it to disk is the caller's).
    pub fn add_keymap(&mut self, keymap: Keymap)
        requires old(self).wf(),
        ensures
            final(self).wf(),
            final(self).keymaps_view() == old(self).keymaps_view().insert(keymap.name@, keymap),
            final(self).active_keymap_name() == old(self).active_keymap_name(),
            final(self).profiles_view() == old(self).profiles_view(),
            final(self).context_index() == old(self).context_index(),
    {
        let name = keymap.name.clone();
        self.keymaps.insert(name, keymap);
    }

    /// Import a keymap: add it.
    pub fn import_keymap(&mut self, keymap: Keymap)
        requires old(self).wf(),
        ensures
            final(self).wf(),
            final(self).keymaps_view() == old(self).keymaps_view().insert(keymap.name@, keymap),
            final(self).active_keymap_name() == old(self).active_keymap_name(),
            final(self).profiles_view() == old(self).profiles_view(),
    {
        self.add_keymap(keymap);
    }

    /// Remove a keymap.
    pub fn remove_keymap(&mut self, name: &str)
        requires old(self).wf(),
        ensures
            final(self).wf(),
            final(self).keymaps_view() == old(self).keymaps_view().remove(name@),
            final(self).active_keymap_name() == old(self).active_keymap_name(),
            final(self).profiles_view() == old(self).profiles_view(),
            final(self).context_index() == old(self).context_index(),
    {
        self.keymaps.remove(name);
    }

    /// Make a keymap active and index its bindings by context; unknown names are
    /// refused.
    pub fn set_active_keymap(&mut self, name: &str) -> (r: Result<(), CustomizationError>)
        requires old(self).wf(),
        ensures
            final(self).wf(),
            final(self).keymaps_view() == old(self).keymaps_view(),
            final(self).profiles_view() == old(self).profiles_view(),
            final(self).active_profile_name() == old(self).active_profile_name(),
            old(self).keymaps_view().contains_key(name@) ==> {
                &&& r is Ok
                &&& final(self).active_keymap_name() == name@
                &&& context_index_of(final(self).context_index(), old(self).keymaps_view()[name@].bindings@)
            },
            !old(self).keymaps_view().contains_key(name@) ==> {
                &&& r matches Err(CustomizationError::KeybindingError(m)) && m@ == "Keymap not found: "@ + name@
                &&& final(self).active_keymap_name() == old(self).active_keymap_name()
                &&& final(self).context_index() == old(self).context_index()
            },
    {
        if !self.keymaps.contains_key(name) {
            return Err(CustomizationError::KeybindingError(concat2("Keymap not found: ", name)));
        }
        self.active_keymap = owned(name);
        self.build_context_index();
        Ok(())
    }

    /// The active keymap, if it exists.
    pub fn active_keymap(&self) -> (r: Option<&Keymap>)
        requires self.wf(),
        ensures
            match r {
                Some(k) => self.keymaps_view().contains_key(self.active_keymap_name())
                    && *k == self.keymaps_view()[self.active_keymap_name()],
                None => !self.keymaps_view().contains_key(self.active_keymap_name()),
            },
    {
        self.keymaps.get(self.active_keymap.as_str())
    }

    /// The keymaps, in the order their names were first added.
    pub fn list_keymaps(&self) -> (r: Vec<&Keymap>)
        requires self.wf(),
        ensures
            r@.len() == self.keymap_names().len(),
            self.keymap_names().no_duplicates(),
            forall|k: Seq<char>| #[trigger] self.keymaps_view().contains_key(k) <==> self.keymap_names().contains(k),
            forall|i: int| 0 <= i < r@.len() ==> *r@[i] == #[trigger] self.keymaps_view()[self.keymap_names()[i]],
    {
        let r = self.keymaps.values();
        proof { self.keymaps.lemma_key_seq(); }
        r
    }

    /// Names of the keymaps, in the order they were first added.
    pub closed spec fn keymap_names(&self) -> Seq<Seq<char>> {
        self.keymaps.key_seq()
    }

    /// A keymap by name.
    pub fn get_keymap(&self, name: &str) -> (r: Option<&Keymap>)
        requires self.wf(),
        ensures
            match r {
                Some(k) => self.keymaps_view().contains_key(name@) && *k == self.keymaps_view()[name@],
                None => !self.keymaps_view().contains_key(name@),
            },
    {
        self.keymaps.get(name)
    }

    fn build_context_index(&mut self)
        requires old(self).wf(),
        ensures
            final(self).wf(),
            final(self).keymaps_view() == old(self).keymaps_view(),
            final(self).profiles_view() == old(self).profiles_view(),
            final(self).active_keymap_name() == old(self).active_keymap_name(),
            final(self).active_profile_name() == old(self).active_profile_name(),
            old(self).keymaps_view().contains_key(old(self).active_keymap_name()) ==>
                context_index_of(final(self).context_index(), old(self).keymaps_view()[old(self).active_keymap_name()].bindings@),
            !old(self).keymaps_view().contains_key(old(self).active_keymap_name()) ==>
                final(self).context_index() == Map::<Seq<char>, Vec<String>>::empty(),
    {
        let mut index: StrMap<Vec<String>> = StrMap::new();
        match self.keymaps.get(self.active_keymap.as_str()) {
            Some(keymap) => {
                let bs = &keymap.bindings;
                let mut i: usize = 0;
                while i < bs.len()
                    invariant
                        i <= bs@.len(),
                        index.wf(),
                        context_index_of(index@, bs@.subrange(0, i as int)),
                    decreases bs.len() - i,
                {
                    let ghost pre = bs@.subrange(0, i as int);
                    let ghost post = bs@.subrange(0, i + 1);
                    let ghost old_index = index@;
                    let b = &bs[i];
                    proof {
                        assert(post.drop_last() =~= pre);
                        assert(post.last() == *b);
                    }
                    let id = b.id.clone();
                    match index.find(b.context.as_str()) {
                        Some(p) => {
                            let ghost before = index;
                            proof { index.lemma_index_of(p as int); }
                            let ids = index.value_at_mut(p);
                            ids.push(id);
                            proof {
                                StrMap::lemma_update_value(before, index, p as int, index.entries()[p as int].1);
                            }
                        },
                        None => {
                            let mut ids: Vec<String> = Vec::new();
                            ids.push(id);
                            index.insert(b.context.clone(), ids);
                        },
                    }
                    proof {
                        assert forall|ctx: Seq<char>| #[trigger] index@.contains_key(ctx) <==> has_context(post, ctx) by {
                            if has_context(pre, ctx) {
                                let j = choose|j: int| 0 <= j < pre.len() && (#[trigger] pre[j]).context@ == ctx;
                                assert(post[j] == pre[j]);
                            }
                            if has_context(post, ctx) && ctx != b.context@ {
                                let j = choose|j: int| 0 <= j < post.len() && (#[trigger] post[j]).context@ == ctx;
                                assert(j < pre.len());
                                assert(pre[j] == post[j]);
                            }
                            if ctx == b.context@ {
                                assert(post[i as int].context@ == ctx);
                            }
                        }
                        assert forall|ctx: Seq<char>| #[trigger] index@.contains_key(ctx)
                            implies views(index@[ctx]@) == context_ids(post, ctx) by {
                            if ctx == b.context@ {
                                if old_index.contains_key(ctx) {
                                    assert(views(index@[ctx]@) =~= views(old_index[ctx]@).push(b.id@));
                                } else {
                                    assert(!has_context(pre, ctx));
                                    lemma_context_ids_empty(pre, ctx);
                                    assert(views(index@[ctx]@) =~= seq![b.id@]);
                                }
                            }
                        }
                    }
                    i = i + 1;
                }
                assert(bs@.subrange(0, bs@.len() as int) =~= bs@);
            },
            None => {},
        }
        self.context_bindings = index;
    }

    /// The enabled single-chord binding of the active keymap for a key event:
    /// the chord is the key's text with the held modifiers in the order Ctrl,
    /// Alt, Shift, Meta, Super, Hyper; the first such binding is found.
    pub fn get_binding(&self, key: &KeyPress, modifiers: u32) -> (r: Option<&KeyBinding>)
        requires self.wf(),
        ensures
            match r {
                Some(b) => {
                    &&& self.keymaps_view().contains_key(self.active_keymap_name())
                    &&& key_text(*key) is Some
                    &&& first_binding_for(self.keymaps_view()[self.active_keymap_name()].bindings@,
                            (key_text(*key)->0, held_modifiers(modifiers))) matches Some(i)
                        && *b == self.keymaps_view()[self.active_keymap_name()].bindings@[i]
                    &&& b.enabled
                    &&& enabled_single_chord(*b, key_text(*key)->0, held_modifiers(modifiers))
                },
                None => !self.keymaps_view().contains_key(self.active_keymap_name())
                    || key_text(*key) is None
                    || first_binding_for(self.keymaps_view()[self.active_keymap_name()].bindings@,
                            (key_text(*key)->0, held_modifiers(modifiers))) is None,
            },
    {
        let keymap = match self.keymaps.get(self.active_keymap.as_str()) {
            Some(k) => k,
            None => return None,
        };
        proof { reveal_strlit(" "); reveal_strlit("Space"); }
        let key_str = match key {
            KeyPress::Character(c) => {
                if str_eq(c.as_str(), " ") { owned("Space") } else { c.clone() }
            },
            _ => match named_key_exec(key) {
                Some(n) => owned(n),
                None => return None,
            },
        };
        let chord = Chord::new(key_str, held_modifiers_exec(modifiers));
        let ghost cv = chord_view(chord);
        assert(cv == (key_text(*key)->0, held_modifiers(modifiers)));
        let bs = &keymap.bindings;
        let mut i: usize = 0;
        while i < bs.len()
            invariant
                i <= bs@.len(),
                cv == chord_view(chord),
                cv == (key_text(*key)->0, held_modifiers(modifiers)),
                key_text(*key) is Some,
                self.keymaps_view().contains_key(self.active_keymap_name()),
                bs@ == self.keymaps_view()[self.active_keymap_name()].bindings@,
                forall|j: int| 0 <= j < i ==> !binding_fires(#[trigger] bs@[j], cv),
            decreases bs.len() - i,
        {
            let b = &bs[i];
            if b.enabled && b.sequence.keys.len() == 1 {
                if chord_eq(&b.sequence.keys[0], &chord) {
                    proof {
                        assert(*b == bs@[i as int]);
                        assert(b.sequence.keys@[0] == bs@[i as int].sequence.keys@[0]);
                        assert(binding_fires(bs@[i as int], cv));
                        let k = choose|k: int| 0 <= k < bs@.len() && binding_fires(#[trigger] bs@[k], cv)
                            && forall|j: int| 0 <= j < k ==> !binding_fires(#[trigger] bs@[j], cv);
                        if k < i { assert(false); }
                        if k > i { assert(!binding_fires(bs@[i as int], cv)); }
                    }
                    return Some(b);
                }
            }
            i = i + 1;
        }
        None
    }

    /// Create a profile that uses a keymap, with no overrides, and store it.
    pub fn create_profile(&mut self, name: &str, keymap_name: &str) -> (r: Result<KeymapProfile, CustomizationError>)
        requires old(self).wf(),
        ensures
            final(self).wf(),
            r matches Ok(p) && {
                let q = final(self).profiles_view()[name@];
                &&& p.name@ == name@
                &&& p.active_keymap@ == keymap_name@
                &&& p.overrides@.len() == 0
                &&& p.disabled_bindings@.len() == 0
                &&& final(self).profiles_view().dom() == old(self).profiles_view().dom().insert(name@)
                &&& q.name@ == p.name@ && q.active_keymap@ == p.active_keymap@ && q.created_at == p.created_at
                &&& q.overrides@.len() == 0 && q.disabled_bindings@.len() == 0
                &&& forall|k: Seq<char>| #[trigger] final(self).profiles_view().contains_key(k) && k != name@
                    ==> final(self).profiles_view()[k] == old(self).profiles_view()[k]
            },
            final(self).keymaps_view() == old(self).keymaps_view(),
            final(self).active_keymap_name() == old(self).active_keymap_name(),
            final(self).active_profile_name() == old(self).active_profile_name(),
    {
        let now = now_millis();
        let stored = KeymapProfile {
            name: owned(name),
            active_keymap: owned(keymap_name),
            overrides: Vec::new(),
            disabled_bindings: Vec::new(),
            created_at: now,
        };
        let copy = KeymapProfile {
            name: stored.name.clone(),
            active_keymap: stored.active_keymap.clone(),
            overrides: Vec::new(),
            disabled_bindings: Vec::new(),
            created_at: now,
        };
        self.profiles.insert(owned(name), stored);
        Ok(copy)
    }

    /// Make a profile active: its keymap becomes the active keymap. Unknown
    /// profiles, and profiles whose keymap is unknown, are refused.
    pub fn set_active_profile(&mut self, name: &str) -> (r: Result<(), CustomizationError>)
        requires old(self).wf(),
        ensures
            final(self).wf(),
            final(self).keymaps_view() == old(self).keymaps_view(),
            final(self).profiles_view() == old(self).profiles_view(),
            !old(self).profiles_view().contains_key(name@) ==> {
                &&& r matches Err(CustomizationError::KeybindingError(m)) && m@ == "Profile not found: "@ + name@
                &&& final(self).active_profile_name() == old(self).active_profile_name()
                &&& final(self).active_keymap_name() == old(self).active_keymap_name()
            },
            old(self).profiles_view().contains_key(name@) ==> {
                let k = old(self).profiles_view()[name@].active_keymap@;
                &&& old(self).keymaps_view().contains_key(k) ==> {
                    &&& r is Ok
                    &&& final(self).active_profile_name() == name@
                    &&& final(self).active_keymap_name() == k
                    &&& context_index_of(final(self).context_index(), old(self).keymaps_view()[k].bindings@)
                }
                &&& !old(self).keymaps_view().contains_key(k) ==> {
                    &&& r matches Err(CustomizationError::KeybindingError(m)) && m@ == "Keymap not found: "@ + k
                    &&& final(self).active_profile_name() == old(self).active_profile_name()
                    &&& final(self).active_keymap_name() == old(self).active_keymap_name()
                }
            },
    {
        let keymap_name = match self.profiles.get(name) {
            Some(p) => p.active_keymap.clone(),
            None => return Err(CustomizationError::KeybindingError(concat2("Profile not found: ", name))),
        };
        match self.set_active_keymap(keymap_name.as_str()) {
            Ok(()) => {},
            Err(e) => return Err(e),
        }
        self.active_profile = owned(name);
        Ok(())
    }

    /// Add a binding to the active profile's overrides, if that profile exists.
    pub fn override_binding(&mut self, binding: KeyBinding) -> (r: Result<(), CustomizationError>)
        requires old(self).wf(),
        ensures
            final(self).wf(),
            r is Ok,
            final(self).keymaps_view() == old(self).keymaps_view(),
            final(self).active_profile_name() == old(self).active_profile_name(),
            final(self).active_keymap_name() == old(self).active_keymap_name(),
            old(self).profiles_view().contains_key(old(self).active_profile_name()) ==> {
                let p = old(self).profiles_view()[old(self).active_profile_name()];
                let q = final(self).profiles_view()[old(self).active_profile_name()];
                &&& final(self).profiles_view().dom() == old(self).profiles_view().dom()
                &&& q.overrides@ == p.overrides@.push(binding)
                &&& q.disabled_bindings == p.disabled_bindings
                &&& q.name == p.name && q.active_keymap == p.active_keymap && q.created_at == p.created_at
                &&& forall|k: Seq<char>| #[trigger] final(self).profiles_view().contains_key(k) && k != old(self).active_profile_name()
                    ==> final(self).profiles_view()[k] == old(self).profiles_view()[k]
            },
            !old(self).profiles_view().contains_key(old(self).active_profile_name()) ==>
                final(self).profiles_view() == old(self).profiles_view(),
    {
        match self.profiles.find(self.active_profile.as_str()) {
            Some(p) => {
                let ghost before = self.profiles;
                proof { self.profiles.lemma_index_of(p as int); }
                let profile = self.profiles.value_at_mut(p);
                profile.overrides.push(binding);
                proof {
                    StrMap::lemma_update_value(before, self.profiles, p as int, self.profiles.entries()[p as int].1);
                }
            },
            None => {},
        }
        Ok(())
    }

    /// Disable a binding in the active profile (once), if that profile exists.
    pub fn disable_binding(&mut self, binding_id: &str) -> (r: Result<(), CustomizationError>)
        requires old(self).wf(),
        ensures
            final(self).wf(),
            r is Ok,
            final(self).keymaps_view() == old(self).keymaps_view(),
            final(self).active_profile_name() == old(self).active_profile_name(),
            old(self).profiles_view().contains_key(old(self).active_profile_name()) ==> {
                let p = old(self).profiles_view()[old(self).active_profile_name()];
                let q = final(self).profiles_view()[old(self).active_profile_name()];
                &&& final(self).profiles_view().dom() == old(self).profiles_view().dom()
                &&& views(q.disabled_bindings@) == (if views(p.disabled_bindings@).contains(binding_id@) {
                        views(p.disabled_bindings@)
                    } else {
                        views(p.disabled_bindings@).push(binding_id@)
                    })
                &&& q.overrides == p.overrides
                &&& q.name == p.name && q.active_keymap == p.active_keymap && q.created_at == p.created_at
                &&& forall|k: Seq<char>| #[trigger] final(self).profiles_view().contains_key(k) && k != old(self).active_profile_name()
                    ==> final(self).profiles_view()[k] == old(self).profiles_view()[k]
            },
            !old(self).profiles_view().contains_key(old(self).active_profile_name()) ==>
                final(self).profiles_view() == old(self).profiles_view(),
    {
        match self.profiles.find(self.active_profile.as_str()) {
            Some(p) => {
                let ghost before = self.profiles;
                proof { self.profiles.lemma_index_of(p as int); }
                let profile = self.profiles.value_at_mut(p);
                let ghost d0 = views(profile.disabled_bindings@);
                let mut present = false;
                let mut i: usize = 0;
                while i < profile.disabled_bindings.len()
                    invariant
                        i <= profile.disabled_bindings@.len(),
                        d0 == views(profile.disabled_bindings@),
                        present == exists|j: int| 0 <= j < i && profile.disabled_bindings@[j]@ == binding_id@,
                    decreases profile.disabled_bindings.len() - i,
                {
                    if str_eq(profile.disabled_bindings[i].as_str(), binding_id) {
                        present = true;
                    }
                    i = i + 1;
                }
                proof {
                    if present {
                        let j = choose|j: int| 0 <= j < i && profile.disabled_bindings@[j]@ == binding_id@;
                        assert(d0[j] == binding_id@);
                    } else {
                        assert forall|j: int| 0 <= j < d0.len() implies d0[j] != binding_id@ by {
                            assert(d0[j] == profile.disabled_bindings@[j]@);
                        }
                    }
                }
                if !present {
                    profile.disabled_bindings.push(owned(binding_id));
                    assert(views(profile.disabled_bindings@) =~= d0.push(binding_id@));
                }
                proof {
                    StrMap::lemma_update_value(before, self.profiles, p as int, self.profiles.entries()[p as int].1);
                }
            },
            None => {},
        }
        Ok(())
    }

    /// Enable a binding in the active profile again: every entry naming it is
    /// dropped from the disabled list.
    pub fn enable_binding(&mut self, binding_id: &str) -> (r: Result<(), CustomizationError>)
        requires old(self).wf(),
        ensures
            final(self).wf(),
            r is Ok,
            final(self).keymaps_view() == old(self).keymaps_view(),
            final(self).active_profile_name() == old(self).active_profile_name(),
            old(self).profiles_view().contains_key(old(self).active_profile_name()) ==> {
                let p = old(self).profiles_view()[old(self).active_profile_name()];
                let q = final(self).profiles_view()[old(self).active_profile_name()];
                &&& final(self).profiles_view().dom() == old(self).profiles_view().dom()
                &&& views(q.disabled_bindings@) == views(p.disabled_bindings@).filter(|d: Seq<char>| d != binding_id@)
                &&& q.overrides == p.overrides
                &&& q.name == p.name && q.active_keymap == p.active_keymap && q.created_at == p.created_at
                &&& forall|k: Seq<char>| #[trigger] final(self).profiles_view().contains_key(k) && k != old(self).active_profile_name()
                    ==> final(self).profiles_view()[k] == old(self).profiles_view()[k]
            },
            !old(self).profiles_view().contains_key(old(self).active_profile_name()) ==>
                final(self).profiles_view() == old(self).profiles_view(),
    {
        match self.profiles.find(self.active_profile.as_str()) {
            Some(p) => {
                let ghost before = self.profiles;
                proof { self.profiles.lemma_index_of(p as int); }
                let profile = self.profiles.value_at_mut(p);
                let ghost d0 = views(profile.disabled_bindings@);
                let mut kept: Vec<String> = Vec::new();
                let mut i: usize = 0;
                while i < profile.disabled_bindings.len()
                    invariant
                        i <= profile.disabled_bindings@.len(),
                        d0 == views(profile.disabled_bindings@),
                        views(kept@) == d0.subrange(0, i as int).filter(|d: Seq<char>| d != binding_id@),
                    decreases profile.disabled_bindings.len() - i,
                {
                    proof {
                        assert(d0.subrange(0, i + 1).drop_last() =~= d0.subrange(0, i as int));
                        reveal(Seq::filter);
                    }
                    if !str_eq(profile.disabled_bindings[i].as_str(), binding_id) {
                        kept.push(profile.disabled_bindings[i].clone());
                        assert(views(kept@) =~= d0.subrange(0, i + 1).filter(|d: Seq<char>| d != binding_id@));
                    } else {
                        assert(views(kept@) =~= d0.subrange(0, i + 1).filter(|d: Seq<char>| d != binding_id@));
                    }
                    i = i + 1;
                }
                assert(d0.subrange(0, d0.len() as int) =~= d0);
                profile.disabled_bindings = kept;
                proof {
                    StrMap::lemma_update_value(before, self.profiles, p as int, self.profiles.entries()[p as int].1);
                }
            },
            None => {},
        }
        Ok(())
    }

    /// The conflicts of a keymap: each pair of bindings with the same sequence,
    /// earlier binding first, ordered by the first and then the second binding.
    /// Unknown keymaps are refused.
    pub fn check_conflicts(&self, keymap_name: &str) -> (r: Result<Vec<Conflict>, CustomizationError>)
        requires self.wf(),
        ensures
            !self.keymaps_view().contains_key(keymap_name@) ==>
                (r matches Err(CustomizationError::KeybindingError(m)) && m@ == "Keymap not found: "@ + keymap_name@),
            self.keymaps_view().contains_key(keymap_name@) ==> (r matches Ok(cs) && {
                let b = self.keymaps_view()[keymap_name@].bindings@;
                let pairs = conflicts_upto(b, b.len() as int);
                &&& cs@.len() == pairs.len()
                &&& forall|k: int| 0 <= k < cs@.len() ==> #[trigger] conflict_reports(cs@[k], b, pairs[k])
            }),
    {
        let keymap = match self.keymaps.get(keymap_name) {
            Some(k) => k,
            None => return Err(CustomizationError::KeybindingError(concat2("Keymap not found: ", keymap_name))),
        };
        let bs = &keymap.bindings;
        let ghost b = bs@;
        let mut conflicts: Vec<Conflict> = Vec::new();
        let mut i: usize = 0;
        while i < bs.len()
            invariant
                b == bs@,
                i <= b.len(),
                conflicts@.len() == conflicts_upto(b, i as int).len(),
                forall|k: int| 0 <= k < conflicts@.len() ==>
                    #[trigger] conflict_reports(conflicts@[k], b, conflicts_upto(b, i as int)[k]),
            decreases bs.len() - i,
        {
            let ghost base = conflicts_upto(b, i as int);
            let mut j: usize = i + 1;
            while j < bs.len()
                invariant
                    b == bs@,
                    i < b.len(),
                    i + 1 <= j <= b.len(),
                    base == conflicts_upto(b, i as int),
                    conflicts@.len() == base.len() + conflicts_row(b, i as int, j as int).len(),
                    forall|k: int| 0 <= k < conflicts@.len() ==>
                        #[trigger] conflict_reports(conflicts@[k], b, (base + conflicts_row(b, i as int, j as int))[k]),
                decreases bs.len() - j,
            {
                let ghost prev = conflicts_row(b, i as int, j as int);
                if sequence_eq(&bs[i].sequence, &bs[j].sequence) {
                    let c = Conflict {
                        binding1: bs[i].id.clone(),
                        binding2: bs[j].id.clone(),
                        sequence: bs[i].sequence.duplicate(),
                    };
                    conflicts.push(c);
                    proof {
                        assert(conflicts_row(b, i as int, j + 1) == prev.push((i as int, j as int)));
                        assert((base + prev.push((i as int, j as int))) =~= (base + prev).push((i as int, j as int)));
                        assert forall|k: int| 0 <= k < conflicts@.len() implies
                            #[trigger] conflict_reports(conflicts@[k], b, (base + conflicts_row(b, i as int, j + 1))[k]) by {
                            if k < conflicts@.len() - 1 {
                                assert(conflicts@[k] == old_conflicts_at(conflicts@, k));
                            }
                        }
                    }
                } else {
                    proof {
                        assert(conflicts_row(b, i as int, j + 1) == prev);
                    }
                }
                j = j + 1;
            }
            proof {
                assert(conflicts_upto(b, i + 1) == base + conflicts_row(b, i as int, b.len() as int));
            }
            i = i + 1;
        }
        Ok(conflicts)
    }
}

spec fn old_conflicts_at(s: Seq<Conflict>, k: int) -> Conflict {
    s[k]
}

proof fn lemma_context_ids_empty(b: Seq<KeyBinding>, ctx: Seq<char>)
    requires !has_context(b, ctx),
    ensures context_ids(b, ctx) == Seq::<Seq<char>>::empty(),
    decreases b.len(),
{
    if b.len() > 0 {
        let t = b.drop_last();
        assert(!has_context(t, ctx)) by {
            if has_context(t, ctx) {
                let j = choose|j: int| 0 <= j < t.len() && (#[trigger] t[j]).context@ == ctx;
                assert(b[j] == t[j]);
            }
        }
        assert(b[b.len() - 1].context@ != ctx);
        lemma_context_ids_empty(t, ctx);
    }
}

} // verus!
