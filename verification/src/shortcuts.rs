//! Global shortcut strings: modifiers, numpad variants, and the quick-paste and
//! favourite-paste slots with their settings keys and defaults.
//!
//! A shortcut is written as parts joined with `+`, such as `Ctrl+Alt+1`.
use vstd::prelude::*;
use crate::numbers::{parse_usize_chars, parse_usize_spec};
use crate::text::{
    append_chars, char_views, chars_eq, chars_of, decimal, decimal_chars, lemma_char_views_push,
    lemma_string_views_push, split_chars, split_on, string_of, string_views, trim, trim_chars,
    unicode_to_uppercase,
};

verus! {

/// The names that count as modifier keys, upper-cased.
pub open spec fn modifier_names() -> Seq<Seq<char>> {
    seq![
        seq!['C', 'T', 'R', 'L'],
        seq!['C', 'O', 'N', 'T', 'R', 'O', 'L'],
        seq!['A', 'L', 'T'],
        seq!['W', 'I', 'N'],
        seq!['S', 'U', 'P', 'E', 'R'],
        seq!['M', 'E', 'T', 'A'],
        seq!['C', 'M', 'D'],
    ]
}

/// A part of a shortcut names a modifier once trimmed and upper-cased.
pub open spec fn is_modifier_part(part: Seq<char>) -> bool {
    modifier_names().contains(unicode_to_uppercase(trim(part)))
}

/// Some part of the shortcut names a modifier.
pub open spec fn has_modifier(s: Seq<char>) -> bool {
    exists|i: int| 0 <= i < split_on(s, '+').len() && is_modifier_part(#[trigger] split_on(s, '+')[i])
}

fn modifier_name_list() -> (v: Vec<Vec<char>>)
    ensures
        char_views(v@) == modifier_names(),
{
    let v = vec![
        vec!['C', 'T', 'R', 'L'],
        vec!['C', 'O', 'N', 'T', 'R', 'O', 'L'],
        vec!['A', 'L', 'T'],
        vec!['W', 'I', 'N'],
        vec!['S', 'U', 'P', 'E', 'R'],
        vec!['M', 'E', 'T', 'A'],
        vec!['C', 'M', 'D'],
    ];
    assert(char_views(v@) =~= modifier_names());
    v
}

fn names_contain(list: &Vec<Vec<char>>, e: &[char]) -> (b: bool)
    ensures
        b == char_views(list@).contains(e@),
{
    let mut i: usize = 0;
    while i < list.len()
        invariant
            i <= list.len(),
            forall|j: int| 0 <= j < i ==> char_views(list@)[j] != e@,
        decreases list.len() - i,
    {
        if chars_eq(&list[i], e) {
            assert(char_views(list@)[i as int] == e@);
            return true;
        }
        i += 1;
    }
    false
}

/// Whether some `+`-separated part of the shortcut is a modifier key (Ctrl, Control,
/// Alt, Win, Super, Meta or Cmd, in any case, spaces around it ignored).
pub fn shortcut_has_modifier(shortcut: &str) -> (r: bool)
    ensures
        r == has_modifier(shortcut@),
{
    let s = chars_of(shortcut);
    let parts = split_chars(s.as_slice(), '+');
    let names = modifier_name_list();
    let mut i: usize = 0;
    while i < parts.len()
        invariant
            i <= parts@.len(),
            s@ == shortcut@,
            char_views(parts@) == split_on(s@, '+'),
            char_views(names@) == modifier_names(),
            forall|j: int| 0 <= j < i ==> !is_modifier_part(#[trigger] split_on(s@, '+')[j]),
        decreases parts.len() - i,
    {
        let part = trim_chars(parts[i].as_slice());
        let upper_text = string_of(part.as_slice()).to_uppercase();
        let upper = chars_of(upper_text.as_str());
        assert(split_on(s@, '+')[i as int] == parts@[i as int]@);
        if names_contain(&names, upper.as_slice()) {
            return true;
        }
        i += 1;
    }
    false
}

/// The part of a shortcut after its last `+`, trimmed, and the parts before it.
pub open spec fn trimmed_parts(s: Seq<char>) -> Seq<Seq<char>> {
    split_on(s, '+').map_values(|p: Seq<char>| trim(p))
}

/// `parts` joined with `+`.
pub open spec fn join_plus(parts: Seq<Seq<char>>) -> Seq<char>
    decreases parts.len(),
{
    if parts.len() == 0 {
        seq![]
    } else if parts.len() == 1 {
        parts[0]
    } else {
        join_plus(parts.drop_last()) + seq!['+'] + parts.last()
    }
}

pub open spec fn numpad() -> Seq<char> {
    seq!['N', 'u', 'm', 'p', 'a', 'd']
}

/// The numpad form of a shortcut whose key is a digit: `Alt+1` becomes `Alt+Numpad1`
/// (parts trimmed); none for any other key.
pub open spec fn numpad_variant(s: Seq<char>) -> Option<Seq<char>> {
    let parts = trimmed_parts(s);
    let last = parts.last();
    if last.len() == 1 && '0' <= last[0] <= '9' {
        let head = join_plus(parts.drop_last());
        Some(
            (if head.len() > 0 {
                head + seq!['+']
            } else {
                head
            }) + numpad() + last,
        )
    } else {
        None
    }
}

proof fn lemma_split_on_nonempty(s: Seq<char>, sep: char)
    ensures
        split_on(s, sep).len() >= 1,
    decreases s.len(),
{
    if s.len() > 0 {
        lemma_split_on_nonempty(s.drop_last(), sep);
    }
}

/// The numpad variant of a shortcut whose key is a digit.
pub fn numpad_variant_str(shortcut_str: &str) -> (r: Option<String>)
    ensures
        match numpad_variant(shortcut_str@) {
            Some(v) => r is Some && r->0@ == v,
            None => r is None,
        },
{
    let s = chars_of(shortcut_str);
    let raw = split_chars(s.as_slice(), '+');
    proof {
        lemma_split_on_nonempty(s@, '+');
    }
    let ghost parts = trimmed_parts(s@);
    let mut trimmed: Vec<Vec<char>> = Vec::new();
    let mut i: usize = 0;
    while i < raw.len()
        invariant
            i <= raw@.len(),
            char_views(raw@) == split_on(s@, '+'),
            parts == trimmed_parts(s@),
            char_views(trimmed@) == parts.take(i as int),
        decreases raw.len() - i,
    {
        let t = trim_chars(raw[i].as_slice());
        let ghost before = trimmed@;
        trimmed.push(t);
        proof {
            lemma_char_views_push(before, t);
            assert(parts.take(i + 1) =~= parts.take(i as int).push(trim(raw@[i as int]@)));
        }
        i += 1;
    }
    assert(parts.take(i as int) =~= parts);
    let n = trimmed.len();
    let last = &trimmed[n - 1];
    assert(last@ == parts.last());
    if !(last.len() == 1 && last[0] >= '0' && last[0] <= '9') {
        return None;
    }
    let mut out: Vec<char> = Vec::new();
    let mut k: usize = 0;
    while k < n - 1
        invariant
            n == trimmed@.len() >= 1,
            k <= n - 1,
            char_views(trimmed@) == parts,
            out@ == join_plus(parts.take(k as int)),
        decreases n - 1 - k,
    {
        let ghost prev = out@;
        if k > 0 {
            out.push('+');
        }
        append_chars(&mut out, trimmed[k].as_slice());
        assert(parts.take(k + 1).drop_last() =~= parts.take(k as int));
        assert(parts.take(k + 1).last() == parts[k as int]);
        if k == 0 {
            assert(out@ =~= join_plus(parts.take(1)));
        } else {
            assert(out@ =~= prev + seq!['+'] + parts[k as int]);
        }
        k += 1;
    }
    assert(parts.take((n - 1) as int) =~= parts.drop_last());
    if out.len() > 0 {
        out.push('+');
    }
    let pad = ['N', 'u', 'm', 'p', 'a', 'd'];
    assert(pad@ =~= numpad());
    append_chars(&mut out, &pad);
    append_chars(&mut out, last.as_slice());
    Some(string_of(out.as_slice()))
}

/// A stored shortcut, with spaces around it removed.
pub fn normalize_shortcut_value(value: &str) -> (r: String)
    ensures
        r@ == trim(value@),
{
    let v = chars_of(value);
    let t = trim_chars(v.as_slice());
    string_of(t.as_slice())
}

// ------------------------------------------------------------------ paste slots

/// The number of quick-paste and favourite-paste slots.
pub const SLOT_COUNT: usize = 10;

/// Which row of paste shortcuts: the recent items or the favourites.
#[derive(Debug, Clone, Copy, PartialEq, Eq)]
pub enum PasteKind {
    Quick,
    Favorite,
}

/// The digit of slot `i` (counted from zero): `1` to `9`, then `0`.
pub open spec fn slot_digit(i: int) -> char {
    crate::text::digit_char(((i + 1) % 10) as nat)
}

/// `Alt+1` ... `Alt+9`, `Alt+0`.
pub open spec fn quick_defaults() -> Seq<Seq<char>> {
    Seq::new(10, |i: int| seq!['A', 'l', 't', '+', slot_digit(i)])
}

/// `Ctrl+Alt+1` to `Ctrl+Alt+3` for the first three slots, the others empty.
pub open spec fn favorite_defaults() -> Seq<Seq<char>> {
    Seq::new(
        10,
        |i: int|
            if i < 3 {
                seq!['C', 't', 'r', 'l', '+', 'A', 'l', 't', '+', slot_digit(i)]
            } else {
                seq![]
            },
    )
}

pub open spec fn quick_key_prefix() -> Seq<char> {
    seq![
        'q', 'u', 'i', 'c', 'k', '_', 'p', 'a', 's', 't', 'e', '_', 's', 'h', 'o', 'r', 't',
        'c', 'u', 't', '_',
    ]
}

pub open spec fn favorite_key_prefix() -> Seq<char> {
    seq![
        'f', 'a', 'v', 'o', 'r', 'i', 't', 'e', '_', 'p', 'a', 's', 't', 'e', '_', 's', 'h',
        'o', 'r', 't', 'c', 'u', 't', '_',
    ]
}

fn digit_of_slot(i: usize) -> (c: char)
    requires
        i < 10,
    ensures
        c == slot_digit(i as int),
{
    let d = decimal_chars(((i + 1) % 10) as u64);
    assert(d@ == seq![crate::text::digit_char(((i + 1) % 10) as nat)]);
    d[0]
}

/// The default quick-paste shortcuts: `Alt+1` to `Alt+9`, then `Alt+0`.
pub fn default_quick_paste_shortcuts() -> (v: Vec<String>)
    ensures
        string_views(v@) == quick_defaults(),
{
    let mut v: Vec<String> = Vec::new();
    let mut i: usize = 0;
    while i < 10
        invariant
            i <= 10,
            string_views(v@) == quick_defaults().take(i as int),
        decreases 10 - i,
    {
        let s = string_of(&['A', 'l', 't', '+', digit_of_slot(i)]);
        let ghost before = v@;
        v.push(s);
        proof {
            lemma_string_views_push(before, s);
            assert(quick_defaults().take(i + 1) =~= quick_defaults().take(i as int).push(s@));
        }
        i += 1;
    }
    assert(quick_defaults().take(10) =~= quick_defaults());
    v
}

/// The default favourite-paste shortcuts: `Ctrl+Alt+1` to `Ctrl+Alt+3`, the other
/// seven slots empty.
pub fn default_favorite_paste_shortcuts() -> (v: Vec<String>)
    ensures
        string_views(v@) == favorite_defaults(),
{
    let mut v: Vec<String> = Vec::new();
    let mut i: usize = 0;
    while i < 10
        invariant
            i <= 10,
            string_views(v@) == favorite_defaults().take(i as int),
        decreases 10 - i,
    {
        let s = if i < 3 {
            string_of(&['C', 't', 'r', 'l', '+', 'A', 'l', 't', '+', digit_of_slot(i)])
        } else {
            String::new()
        };
        let ghost before = v@;
        v.push(s);
        proof {
            lemma_string_views_push(before, s);
            assert(favorite_defaults().take(i + 1) =~= favorite_defaults().take(i as int).push(
                s@,
            ));
        }
        i += 1;
    }
    assert(favorite_defaults().take(10) =~= favorite_defaults());
    v
}

fn key_with_prefix(prefix: &[char], slot: u8) -> (k: String)
    ensures
        k@ == prefix@ + decimal(slot as nat),
{
    let mut out: Vec<char> = Vec::new();
    append_chars(&mut out, prefix);
    let d = decimal_chars(slot as u64);
    append_chars(&mut out, d.as_slice());
    string_of(out.as_slice())
}

/// The settings key of quick-paste slot `slot`: `quick_paste_shortcut_<slot>`.
pub fn quick_paste_setting_key(slot: u8) -> (k: String)
    ensures
        k@ == quick_key_prefix() + decimal(slot as nat),
{
    let p = [
        'q', 'u', 'i', 'c', 'k', '_', 'p', 'a', 's', 't', 'e', '_', 's', 'h', 'o', 'r', 't',
        'c', 'u', 't', '_',
    ];
    assert(p@ =~= quick_key_prefix());
    key_with_prefix(&p, slot)
}

/// The settings key of favourite-paste slot `slot`: `favorite_paste_shortcut_<slot>`.
pub fn favorite_paste_setting_key(slot: u8) -> (k: String)
    ensures
        k@ == favorite_key_prefix() + decimal(slot as nat),
{
    let p = [
        'f', 'a', 'v', 'o', 'r', 'i', 't', 'e', '_', 'p', 'a', 's', 't', 'e', '_', 's', 'h',
        'o', 'r', 't', 'c', 'u', 't', '_',
    ];
    assert(p@ =~= favorite_key_prefix());
    key_with_prefix(&p, slot)
}

impl PasteKind {
    pub open spec fn label_spec(self) -> Seq<char> {
        match self {
            PasteKind::Quick => seq!['槽', '位'],
            PasteKind::Favorite => seq!['收', '藏', '槽', '位'],
        }
    }

    pub open spec fn defaults_spec(self) -> Seq<Seq<char>> {
        match self {
            PasteKind::Quick => quick_defaults(),
            PasteKind::Favorite => favorite_defaults(),
        }
    }

    pub open spec fn key_spec(self, slot: u8) -> Seq<char> {
        match self {
            PasteKind::Quick => quick_key_prefix() + decimal(slot as nat),
            PasteKind::Favorite => favorite_key_prefix() + decimal(slot as nat),
        }
    }

    /// How messages name a slot of this row.
    pub fn label(self) -> (s: String)
        ensures
            s@ == self.label_spec(),
    {
        match self {
            PasteKind::Quick => {
                let c = ['槽', '位'];
                assert(c@ =~= seq!['槽', '位']);
                string_of(&c)
            },
            PasteKind::Favorite => {
                let c = ['收', '藏', '槽', '位'];
                assert(c@ =~= seq!['收', '藏', '槽', '位']);
                string_of(&c)
            },
        }
    }

    /// The default shortcuts of this row.
    pub fn defaults(self) -> (v: Vec<String>)
        ensures
            string_views(v@) == self.defaults_spec(),
    {
        match self {
            PasteKind::Quick => default_quick_paste_shortcuts(),
            PasteKind::Favorite => default_favorite_paste_shortcuts(),
        }
    }

    /// The settings key of slot `slot` of this row.
    pub fn setting_key(self, slot: u8) -> (k: String)
        ensures
            k@ == self.key_spec(slot),
    {
        match self {
            PasteKind::Quick => quick_paste_setting_key(slot),
            PasteKind::Favorite => favorite_paste_setting_key(slot),
        }
    }

    /// The shortcuts in force: the current list when it has one per slot, else the
    /// defaults.
    pub fn current_or_defaults(self, current: Vec<String>) -> (v: Vec<String>)
        ensures
            current@.len() == SLOT_COUNT ==> v@ == current@,
            current@.len() != SLOT_COUNT ==> string_views(v@) == self.defaults_spec(),
    {
        if current.len() == SLOT_COUNT {
            current
        } else {
            self.defaults()
        }
    }

    /// The shortcuts of this row as loaded from the settings: `stored[i]` is the value
    /// saved for slot `i + 1`, if any; a saved value (trimmed) replaces the default.
    pub fn load_shortcuts(self, stored: &[Option<String>]) -> (v: Vec<String>)
        requires
            stored@.len() == SLOT_COUNT,
        ensures
            v@.len() == SLOT_COUNT,
            forall|i: int|
                0 <= i < SLOT_COUNT ==> (#[trigger] v@[i])@ == match stored@[i] {
                    Some(s) => trim(s@),
                    None => self.defaults_spec()[i],
                },
    {
        let defaults = self.defaults();
        let mut v: Vec<String> = Vec::new();
        let mut i: usize = 0;
        while i < SLOT_COUNT
            invariant
                i <= SLOT_COUNT,
                stored@.len() == SLOT_COUNT,
                string_views(defaults@) == self.defaults_spec(),
                self.defaults_spec().len() == SLOT_COUNT,
                v@.len() == i,
                forall|j: int|
                    0 <= j < i ==> (#[trigger] v@[j])@ == match stored@[j] {
                        Some(s) => trim(s@),
                        None => self.defaults_spec()[j],
                    },
            decreases SLOT_COUNT - i,
        {
            let s = match &stored[i] {
                Some(value) => normalize_shortcut_value(value.as_str()),
                None => {
                    assert(string_views(defaults@)[i as int] == defaults@[i as int]@);
                    defaults[i].clone()
                },
            };
            v.push(s);
            i += 1;
        }
        v
    }
}

// ------------------------------------------------------------------ parsing

/// A key that a global shortcut can be bound to.
#[derive(Debug, Clone, Copy, PartialEq, Eq, Structural)]
pub enum KeyCode {
    /// `A` to `Z`, by position in the alphabet (0 for `A`).
    Letter(u8),
    /// `0` to `9` on the main keyboard.
    Digit(u8),
    /// `F1` to `F12`.
    Function(u8),
    /// `0` to `9` on the numeric keypad.
    Numpad(u8),
    Space,
    Tab,
    Enter,
    Backspace,
    Delete,
    Escape,
    Home,
    End,
    PageUp,
    PageDown,
    ArrowUp,
    ArrowDown,
    ArrowLeft,
    ArrowRight,
    Backquote,
}

/// The modifier keys held with a shortcut.
#[derive(Debug, Clone, Copy, PartialEq, Eq, Structural)]
pub struct ModifierSet {
    pub control: bool,
    pub alt: bool,
    pub shift: bool,
    pub super_key: bool,
}

/// A parsed shortcut: its modifiers (none when no modifier is held) and its key.
#[derive(Debug, Clone, Copy, PartialEq, Eq, Structural)]
pub struct ParsedShortcut {
    pub mods: Option<ModifierSet>,
    pub key: KeyCode,
}

pub open spec fn lit_numpad_upper() -> Seq<char> {
    seq!['N', 'U', 'M', 'P', 'A', 'D']
}

/// The named keys, upper-cased, with the key each stands for.
pub open spec fn named_key(k: Seq<char>) -> Option<KeyCode> {
    if k == seq!['S', 'P', 'A', 'C', 'E'] {
        Some(KeyCode::Space)
    } else if k == seq!['T', 'A', 'B'] {
        Some(KeyCode::Tab)
    } else if k == seq!['E', 'N', 'T', 'E', 'R'] || k == seq!['R', 'E', 'T', 'U', 'R', 'N'] {
        Some(KeyCode::Enter)
    } else if k == seq!['B', 'A', 'C', 'K', 'S', 'P', 'A', 'C', 'E'] {
        Some(KeyCode::Backspace)
    } else if k == seq!['D', 'E', 'L', 'E', 'T', 'E'] || k == seq!['D', 'E', 'L'] {
        Some(KeyCode::Delete)
    } else if k == seq!['E', 'S', 'C', 'A', 'P', 'E'] || k == seq!['E', 'S', 'C'] {
        Some(KeyCode::Escape)
    } else if k == seq!['H', 'O', 'M', 'E'] {
        Some(KeyCode::Home)
    } else if k == seq!['E', 'N', 'D'] {
        Some(KeyCode::End)
    } else if k == seq!['P', 'A', 'G', 'E', 'U', 'P'] {
        Some(KeyCode::PageUp)
    } else if k == seq!['P', 'A', 'G', 'E', 'D', 'O', 'W', 'N'] {
        Some(KeyCode::PageDown)
    } else if k == seq!['U', 'P'] || k == seq!['A', 'R', 'R', 'O', 'W', 'U', 'P'] {
        Some(KeyCode::ArrowUp)
    } else if k == seq!['D', 'O', 'W', 'N'] || k == seq!['A', 'R', 'R', 'O', 'W', 'D', 'O', 'W', 'N'] {
        Some(KeyCode::ArrowDown)
    } else if k == seq!['L', 'E', 'F', 'T'] || k == seq!['A', 'R', 'R', 'O', 'W', 'L', 'E', 'F', 'T'] {
        Some(KeyCode::ArrowLeft)
    } else if k == seq!['R', 'I', 'G', 'H', 'T'] || k == seq![
        'A',
        'R',
        'R',
        'O',
        'W',
        'R',
        'I',
        'G',
        'H',
        'T',
    ] {
        Some(KeyCode::ArrowRight)
    } else if k == seq!['`'] || k == seq!['B', 'A', 'C', 'K', 'Q', 'U', 'O', 'T', 'E'] {
        Some(KeyCode::Backquote)
    } else {
        None
    }
}

/// The upper-case names written for each named key.
pub open spec fn key_names(c: KeyCode) -> Set<Seq<char>> {
    match c {
        KeyCode::Space => set!["SPACE"@],
        KeyCode::Tab => set!["TAB"@],
        KeyCode::Enter => set!["ENTER"@, "RETURN"@],
        KeyCode::Backspace => set!["BACKSPACE"@],
        KeyCode::Delete => set!["DELETE"@, "DEL"@],
        KeyCode::Escape => set!["ESCAPE"@, "ESC"@],
        KeyCode::Home => set!["HOME"@],
        KeyCode::End => set!["END"@],
        KeyCode::PageUp => set!["PAGEUP"@],
        KeyCode::PageDown => set!["PAGEDOWN"@],
        KeyCode::ArrowUp => set!["UP"@, "ARROWUP"@],
        KeyCode::ArrowDown => set!["DOWN"@, "ARROWDOWN"@],
        KeyCode::ArrowLeft => set!["LEFT"@, "ARROWLEFT"@],
        KeyCode::ArrowRight => set!["RIGHT"@, "ARROWRIGHT"@],
        KeyCode::Backquote => set!["`"@, "BACKQUOTE"@],
        _ => Set::empty(),
    }
}

/// A named key stands for the key it names: a name is read as key `c` exactly when it
/// is one of the names of `c`. So no two different keys share a name (SPACE is never
/// read as TAB), and every name of a key is understood.
pub proof fn lemma_named_keys_mean_their_key(k: Seq<char>, c: KeyCode)
    ensures
        named_key(k) == Some(c) <==> key_names(c).contains(k),
{
    reveal_strlit("SPACE");
    reveal_strlit("TAB");
    reveal_strlit("ENTER");
    reveal_strlit("RETURN");
    reveal_strlit("BACKSPACE");
    reveal_strlit("DELETE");
    reveal_strlit("DEL");
    reveal_strlit("ESCAPE");
    reveal_strlit("ESC");
    reveal_strlit("HOME");
    reveal_strlit("END");
    reveal_strlit("PAGEUP");
    reveal_strlit("PAGEDOWN");
    reveal_strlit("UP");
    reveal_strlit("ARROWUP");
    reveal_strlit("DOWN");
    reveal_strlit("ARROWDOWN");
    reveal_strlit("LEFT");
    reveal_strlit("ARROWLEFT");
    reveal_strlit("RIGHT");
    reveal_strlit("ARROWRIGHT");
    reveal_strlit("`");
    reveal_strlit("BACKQUOTE");
    assert("SPACE"@ =~= seq!['S', 'P', 'A', 'C', 'E']);
    assert("TAB"@ =~= seq!['T', 'A', 'B']);
    assert("ENTER"@ =~= seq!['E', 'N', 'T', 'E', 'R']);
    assert("RETURN"@ =~= seq!['R', 'E', 'T', 'U', 'R', 'N']);
    assert("BACKSPACE"@ =~= seq!['B', 'A', 'C', 'K', 'S', 'P', 'A', 'C', 'E']);
    assert("DELETE"@ =~= seq!['D', 'E', 'L', 'E', 'T', 'E']);
    assert("DEL"@ =~= seq!['D', 'E', 'L']);
    assert("ESCAPE"@ =~= seq!['E', 'S', 'C', 'A', 'P', 'E']);
    assert("ESC"@ =~= seq!['E', 'S', 'C']);
    assert("HOME"@ =~= seq!['H', 'O', 'M', 'E']);
    assert("END"@ =~= seq!['E', 'N', 'D']);
    assert("PAGEUP"@ =~= seq!['P', 'A', 'G', 'E', 'U', 'P']);
    assert("PAGEDOWN"@ =~= seq!['P', 'A', 'G', 'E', 'D', 'O', 'W', 'N']);
    assert("UP"@ =~= seq!['U', 'P']);
    assert("ARROWUP"@ =~= seq!['A', 'R', 'R', 'O', 'W', 'U', 'P']);
    assert("DOWN"@ =~= seq!['D', 'O', 'W', 'N']);
    assert("ARROWDOWN"@ =~= seq!['A', 'R', 'R', 'O', 'W', 'D', 'O', 'W', 'N']);
    assert("LEFT"@ =~= seq!['L', 'E', 'F', 'T']);
    assert("ARROWLEFT"@ =~= seq!['A', 'R', 'R', 'O', 'W', 'L', 'E', 'F', 'T']);
    assert("RIGHT"@ =~= seq!['R', 'I', 'G', 'H', 'T']);
    assert("ARROWRIGHT"@ =~= seq!['A', 'R', 'R', 'O', 'W', 'R', 'I', 'G', 'H', 'T']);
    assert("`"@ =~= seq!['`']);
    assert("BACKQUOTE"@ =~= seq!['B', 'A', 'C', 'K', 'Q', 'U', 'O', 'T', 'E']);
}

/// The key that an upper-cased key name stands for: one letter or digit, `F1` to
/// `F12`, `NUMPAD0` to `NUMPAD9` (numbers read as `str::parse` reads them), or a
/// named key.
pub open spec fn key_code_spec(k: Seq<char>) -> Option<KeyCode> {
    if k.len() == 1 && 'A' <= k[0] <= 'Z' {
        Some(KeyCode::Letter((k[0] as u32 - 'A' as u32) as u8))
    } else if k.len() == 1 && '0' <= k[0] <= '9' {
        Some(KeyCode::Digit((k[0] as u32 - '0' as u32) as u8))
    } else if k.len() > 0 && k[0] == 'F' && k.len() <= 3 && parse_usize_spec(k.skip(1)) is Some
        && 1 <= parse_usize_spec(k.skip(1))->0 <= 12 {
        Some(KeyCode::Function(parse_usize_spec(k.skip(1))->0 as u8))
    } else if k.len() >= 6 && k.take(6) == lit_numpad_upper() && parse_usize_spec(k.skip(6)) is Some
        && parse_usize_spec(k.skip(6))->0 <= 9 {
        Some(KeyCode::Numpad(parse_usize_spec(k.skip(6))->0 as u8))
    } else {
        named_key(k)
    }
}

fn lit_eq(a: &[char], lit: &[char]) -> (r: bool)
    ensures
        r == (a@ == lit@),
{
    chars_eq(a, lit)
}

fn named_key_of(k: &[char]) -> (r: Option<KeyCode>)
    ensures
        r == named_key(k@),
{
    let space = ['S', 'P', 'A', 'C', 'E'];
    let tab = ['T', 'A', 'B'];
    let enter = ['E', 'N', 'T', 'E', 'R'];
    let ret = ['R', 'E', 'T', 'U', 'R', 'N'];
    let backspace = ['B', 'A', 'C', 'K', 'S', 'P', 'A', 'C', 'E'];
    let delete = ['D', 'E', 'L', 'E', 'T', 'E'];
    let del = ['D', 'E', 'L'];
    let escape = ['E', 'S', 'C', 'A', 'P', 'E'];
    let esc = ['E', 'S', 'C'];
    let home = ['H', 'O', 'M', 'E'];
    let end = ['E', 'N', 'D'];
    let page_up = ['P', 'A', 'G', 'E', 'U', 'P'];
    let page_down = ['P', 'A', 'G', 'E', 'D', 'O', 'W', 'N'];
    let up = ['U', 'P'];
    let arrow_up = ['A', 'R', 'R', 'O', 'W', 'U', 'P'];
    let down = ['D', 'O', 'W', 'N'];
    let arrow_down = ['A', 'R', 'R', 'O', 'W', 'D', 'O', 'W', 'N'];
    let left = ['L', 'E', 'F', 'T'];
    let arrow_left = ['A', 'R', 'R', 'O', 'W', 'L', 'E', 'F', 'T'];
    let right = ['R', 'I', 'G', 'H', 'T'];
    let arrow_right = ['A', 'R', 'R', 'O', 'W', 'R', 'I', 'G', 'H', 'T'];
    let backquote = ['`'];
    let backquote_name = ['B', 'A', 'C', 'K', 'Q', 'U', 'O', 'T', 'E'];
    assert(space@ =~= seq!['S', 'P', 'A', 'C', 'E']);
    assert(tab@ =~= seq!['T', 'A', 'B']);
    assert(enter@ =~= seq!['E', 'N', 'T', 'E', 'R']);
    assert(ret@ =~= seq!['R', 'E', 'T', 'U', 'R', 'N']);
    assert(backspace@ =~= seq!['B', 'A', 'C', 'K', 'S', 'P', 'A', 'C', 'E']);
    assert(delete@ =~= seq!['D', 'E', 'L', 'E', 'T', 'E']);
    assert(del@ =~= seq!['D', 'E', 'L']);
    assert(escape@ =~= seq!['E', 'S', 'C', 'A', 'P', 'E']);
    assert(esc@ =~= seq!['E', 'S', 'C']);
    assert(home@ =~= seq!['H', 'O', 'M', 'E']);
    assert(end@ =~= seq!['E', 'N', 'D']);
    assert(page_up@ =~= seq!['P', 'A', 'G', 'E', 'U', 'P']);
    assert(page_down@ =~= seq!['P', 'A', 'G', 'E', 'D', 'O', 'W', 'N']);
    assert(up@ =~= seq!['U', 'P']);
    assert(arrow_up@ =~= seq!['A', 'R', 'R', 'O', 'W', 'U', 'P']);
    assert(down@ =~= seq!['D', 'O', 'W', 'N']);
    assert(arrow_down@ =~= seq!['A', 'R', 'R', 'O', 'W', 'D', 'O', 'W', 'N']);
    assert(left@ =~= seq!['L', 'E', 'F', 'T']);
    assert(arrow_left@ =~= seq!['A', 'R', 'R', 'O', 'W', 'L', 'E', 'F', 'T']);
    assert(right@ =~= seq!['R', 'I', 'G', 'H', 'T']);
    assert(arrow_right@ =~= seq!['A', 'R', 'R', 'O', 'W', 'R', 'I', 'G', 'H', 'T']);
    assert(backquote@ =~= seq!['`']);
    assert(backquote_name@ =~= seq!['B', 'A', 'C', 'K', 'Q', 'U', 'O', 'T', 'E']);
    if lit_eq(k, &space) {
        Some(KeyCode::Space)
    } else if lit_eq(k, &tab) {
        Some(KeyCode::Tab)
    } else if lit_eq(k, &enter) || lit_eq(k, &ret) {
        Some(KeyCode::Enter)
    } else if lit_eq(k, &backspace) {
        Some(KeyCode::Backspace)
    } else if lit_eq(k, &delete) || lit_eq(k, &del) {
        Some(KeyCode::Delete)
    } else if lit_eq(k, &escape) || lit_eq(k, &esc) {
        Some(KeyCode::Escape)
    } else if lit_eq(k, &home) {
        Some(KeyCode::Home)
    } else if lit_eq(k, &end) {
        Some(KeyCode::End)
    } else if lit_eq(k, &page_up) {
        Some(KeyCode::PageUp)
    } else if lit_eq(k, &page_down) {
        Some(KeyCode::PageDown)
    } else if lit_eq(k, &up) || lit_eq(k, &arrow_up) {
        Some(KeyCode::ArrowUp)
    } else if lit_eq(k, &down) || lit_eq(k, &arrow_down) {
        Some(KeyCode::ArrowDown)
    } else if lit_eq(k, &left) || lit_eq(k, &arrow_left) {
        Some(KeyCode::ArrowLeft)
    } else if lit_eq(k, &right) || lit_eq(k, &arrow_right) {
        Some(KeyCode::ArrowRight)
    } else if lit_eq(k, &backquote) || lit_eq(k, &backquote_name) {
        Some(KeyCode::Backquote)
    } else {
        None
    }
}

/// The key that an upper-cased key name stands for.
pub fn parse_key_code(key: &[char]) -> (r: Option<KeyCode>)
    ensures
        r == key_code_spec(key@),
{
    let n = key.len();
    if n == 1 && key[0] >= 'A' && key[0] <= 'Z' {
        return Some(KeyCode::Letter((key[0] as u32 - 'A' as u32) as u8));
    }
    if n == 1 && key[0] >= '0' && key[0] <= '9' {
        return Some(KeyCode::Digit((key[0] as u32 - '0' as u32) as u8));
    }
    if n > 0 && key[0] == 'F' && n <= 3 {
        let rest = crate::text::copy_chars(&key[1..n]);
        assert(rest@ =~= key@.skip(1));
        match parse_usize_chars(rest.as_slice()) {
            Some(f) => {
                if f >= 1 && f <= 12 {
                    return Some(KeyCode::Function(f as u8));
                }
            },
            None => {},
        }
    }
    if n >= 6 {
        let head = ['N', 'U', 'M', 'P', 'A', 'D'];
        assert(head@ =~= lit_numpad_upper());
        let first = crate::text::copy_chars(&key[0..6]);
        assert(first@ =~= key@.take(6));
        if lit_eq(first.as_slice(), &head) {
            let rest = crate::text::copy_chars(&key[6..n]);
            assert(rest@ =~= key@.skip(6));
            match parse_usize_chars(rest.as_slice()) {
                Some(d) => {
                    if d <= 9 {
                        return Some(KeyCode::Numpad(d as u8));
                    }
                },
                None => {},
            }
        }
    }
    named_key_of(key)
}

/// The parts of a shortcut, trimmed and upper-cased.
pub open spec fn upper_parts(s: Seq<char>) -> Seq<Seq<char>> {
    split_on(s, '+').map_values(|p: Seq<char>| unicode_to_uppercase(trim(p)))
}

pub open spec fn is_control_word(u: Seq<char>) -> bool {
    u == seq!['C', 'T', 'R', 'L'] || u == seq!['C', 'O', 'N', 'T', 'R', 'O', 'L']
}

pub open spec fn is_alt_word(u: Seq<char>) -> bool {
    u == seq!['A', 'L', 'T']
}

pub open spec fn is_shift_word(u: Seq<char>) -> bool {
    u == seq!['S', 'H', 'I', 'F', 'T']
}

pub open spec fn is_super_word(u: Seq<char>) -> bool {
    u == seq!['W', 'I', 'N'] || u == seq!['S', 'U', 'P', 'E', 'R'] || u == seq!['M', 'E', 'T', 'A']
        || u == seq!['C', 'M', 'D']
}

pub open spec fn is_modifier_word(u: Seq<char>) -> bool {
    is_control_word(u) || is_alt_word(u) || is_shift_word(u) || is_super_word(u)
}

/// The last of the first `i` parts that is not a modifier.
pub open spec fn last_key_part(us: Seq<Seq<char>>, i: int) -> Option<int>
    decreases i,
{
    if i <= 0 {
        None
    } else if !is_modifier_word(us[i - 1]) {
        Some(i - 1)
    } else {
        last_key_part(us, i - 1)
    }
}

/// The modifiers named among the first `i` parts.
pub open spec fn mods_among(us: Seq<Seq<char>>, i: int) -> ModifierSet {
    ModifierSet {
        control: exists|j: int| 0 <= j < i && is_control_word(#[trigger] us[j]),
        alt: exists|j: int| 0 <= j < i && is_alt_word(#[trigger] us[j]),
        shift: exists|j: int| 0 <= j < i && is_shift_word(#[trigger] us[j]),
        super_key: exists|j: int| 0 <= j < i && is_super_word(#[trigger] us[j]),
    }
}

pub open spec fn no_modifiers() -> ModifierSet {
    ModifierSet { control: false, alt: false, shift: false, super_key: false }
}

/// The shortcut that `s` describes: every part that names a modifier adds it; the
/// key is read from the last part that is not a modifier, and there is no shortcut
/// when there is no such part or it names no key.
pub open spec fn shortcut_spec(s: Seq<char>) -> Option<ParsedShortcut> {
    let us = upper_parts(s);
    let m = mods_among(us, us.len() as int);
    match last_key_part(us, us.len() as int) {
        None => None,
        Some(j) => match key_code_spec(us[j]) {
            None => None,
            Some(k) => Some(
                ParsedShortcut { mods: if m == no_modifiers() {
                    None
                } else {
                    Some(m)
                }, key: k },
            ),
        },
    }
}

/// Reads a shortcut such as `CTRL+SHIFT+V` (any case, spaces around parts ignored).
pub fn parse_shortcut(shortcut_str: &str) -> (r: Option<ParsedShortcut>)
    ensures
        r == shortcut_spec(shortcut_str@),
{
    let s = chars_of(shortcut_str);
    let parts = split_chars(s.as_slice(), '+');
    let ghost us = upper_parts(s@);
    let ctrl = ['C', 'T', 'R', 'L'];
    let control = ['C', 'O', 'N', 'T', 'R', 'O', 'L'];
    let alt = ['A', 'L', 'T'];
    let shift = ['S', 'H', 'I', 'F', 'T'];
    let win = ['W', 'I', 'N'];
    let sup = ['S', 'U', 'P', 'E', 'R'];
    let meta = ['M', 'E', 'T', 'A'];
    let cmd = ['C', 'M', 'D'];
    assert(ctrl@ =~= seq!['C', 'T', 'R', 'L']);
    assert(control@ =~= seq!['C', 'O', 'N', 'T', 'R', 'O', 'L']);
    assert(alt@ =~= seq!['A', 'L', 'T']);
    assert(shift@ =~= seq!['S', 'H', 'I', 'F', 'T']);
    assert(win@ =~= seq!['W', 'I', 'N']);
    assert(sup@ =~= seq!['S', 'U', 'P', 'E', 'R']);
    assert(meta@ =~= seq!['M', 'E', 'T', 'A']);
    assert(cmd@ =~= seq!['C', 'M', 'D']);
    let mut m = ModifierSet { control: false, alt: false, shift: false, super_key: false };
    let mut key: Option<KeyCode> = None;
    let mut i: usize = 0;
    while i < parts.len()
        invariant
            i <= parts@.len(),
            char_views(parts@) == split_on(s@, '+'),
            us == upper_parts(s@),
            us.len() == parts@.len(),
            ctrl@ == seq!['C', 'T', 'R', 'L'],
            control@ == seq!['C', 'O', 'N', 'T', 'R', 'O', 'L'],
            alt@ == seq!['A', 'L', 'T'],
            shift@ == seq!['S', 'H', 'I', 'F', 'T'],
            win@ == seq!['W', 'I', 'N'],
            sup@ == seq!['S', 'U', 'P', 'E', 'R'],
            meta@ == seq!['M', 'E', 'T', 'A'],
            cmd@ == seq!['C', 'M', 'D'],
            m == mods_among(us, i as int),
            key == match last_key_part(us, i as int) {
                None => None,
                Some(j) => key_code_spec(us[j]),
            },
        decreases parts.len() - i,
    {
        let part = trim_chars(parts[i].as_slice());
        let upper_text = string_of(part.as_slice()).to_uppercase();
        let u = chars_of(upper_text.as_str());
        assert(split_on(s@, '+')[i as int] == parts@[i as int]@);
        assert(u@ == us[i as int]);
        let ghost before = m;
        if lit_eq(&u, &ctrl) || lit_eq(&u, &control) {
            m.control = true;
        } else if lit_eq(&u, &alt) {
            m.alt = true;
        } else if lit_eq(&u, &shift) {
            m.shift = true;
        } else if lit_eq(&u, &win) || lit_eq(&u, &sup) || lit_eq(&u, &meta) || lit_eq(&u, &cmd) {
            m.super_key = true;
        } else {
            key = parse_key_code(u.as_slice());
        }
        proof {
            let next = mods_among(us, i + 1);
            assert(next.control == (before.control || is_control_word(us[i as int])));
            assert(next.alt == (before.alt || is_alt_word(us[i as int])));
            assert(next.shift == (before.shift || is_shift_word(us[i as int])));
            assert(next.super_key == (before.super_key || is_super_word(us[i as int])));
        }
        i += 1;
    }
    match key {
        None => None,
        Some(k) => {
            let mods = if !m.control && !m.alt && !m.shift && !m.super_key {
                None
            } else {
                Some(m)
            };
            Some(ParsedShortcut { mods, key: k })
        },
    }
}

/// The numpad variant of a digit shortcut keeps the modifiers and names the same
/// digit on the numeric keypad.
pub proof fn lemma_numpad_variant_keeps_digit(s: Seq<char>)
    requires
        numpad_variant(s) is Some,
    ensures
        numpad_variant(s)->0.len() >= numpad().len() + 1,
        numpad_variant(s)->0.last() == trimmed_parts(s).last()[0],
        '0' <= numpad_variant(s)->0.last() <= '9',
{
}

// ------------------------------------------------------------------ the main shortcut

/// `Win+V`: the main shortcut while the system's own Win+V is switched off.
pub open spec fn win_v_shortcut() -> ParsedShortcut {
    ParsedShortcut {
        mods: Some(ModifierSet { control: false, alt: false, shift: false, super_key: true }),
        key: KeyCode::Letter(21),
    }
}

/// `Alt+C`: the default main shortcut.
pub open spec fn alt_c_shortcut() -> ParsedShortcut {
    ParsedShortcut {
        mods: Some(ModifierSet { control: false, alt: true, shift: false, super_key: false }),
        key: KeyCode::Letter(2),
    }
}

/// The main shortcut registered at start-up, and the text shown for it: `Win+V` when
/// the system's Win+V is switched off; else the saved shortcut (`Alt+C` when none is
/// saved), registered as `Alt+C` when it does not parse.
pub fn startup_toggle_shortcut(win_v_disabled: bool, saved: Option<&str>) -> (r: (
    ParsedShortcut,
    String,
))
    ensures
        ({
            let shown = match saved {
                Some(t) => t@,
                None => "Alt+C"@,
            };
            &&& r.0 == if win_v_disabled {
                win_v_shortcut()
            } else {
                match shortcut_spec(shown) {
                    Some(p) => p,
                    None => alt_c_shortcut(),
                }
            }
            &&& r.1@ == if win_v_disabled {
                "Win+V"@
            } else {
                shown
            }
        }),
{
    let saved_shortcut: String = match saved {
        Some(t) => string_of(chars_of(t).as_slice()),
        None => string_of(chars_of("Alt+C").as_slice()),
    };
    if win_v_disabled {
        let p = ParsedShortcut {
            mods: Some(ModifierSet { control: false, alt: false, shift: false, super_key: true }),
            key: KeyCode::Letter(21),
        };
        return (p, string_of(chars_of("Win+V").as_slice()));
    }
    let p = match parse_shortcut(saved_shortcut.as_str()) {
        Some(p) => p,
        None => ParsedShortcut {
            mods: Some(ModifierSet { control: false, alt: true, shift: false, super_key: false }),
            key: KeyCode::Letter(2),
        },
    };
    (p, saved_shortcut)
}

} // verus!
