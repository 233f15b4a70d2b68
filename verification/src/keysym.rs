//! Keysym names: the aliases a config may use, and the resolution of a
//! name into a keysym through a table of names resolved by XKB.
use crate::text::{chars_of, str_eq, to_owned_string};
use vstd::prelude::*;

verus! {

/// Keysyms resolved by name, as XKB's case-insensitive `keysym_from_name`
/// gives them (0 for "no symbol"). The program fills it from libxkbcommon
/// for the names a configuration uses, so that the library itself does not
/// link against libxkbcommon.
#[derive(Debug, Clone)]
pub struct KeysymTable {
    pub entries: Vec<(String, u32)>,
}

/// The keysym of the first entry named `name`, or 0.
pub open spec fn spec_lookup_in(entries: Seq<(String, u32)>, name: Seq<char>) -> u32
    decreases entries.len(),
{
    if entries.len() == 0 {
        0
    } else if entries[0].0@ == name {
        entries[0].1
    } else {
        spec_lookup_in(entries.drop_first(), name)
    }
}

impl KeysymTable {
    /// The keysym recorded for `name`, or 0.
    pub open spec fn spec_lookup(self, name: Seq<char>) -> u32 {
        spec_lookup_in(self.entries@, name)
    }

    /// An empty table.
    pub fn new() -> (r: KeysymTable)
        ensures
            r.entries@.len() == 0,
    {
        KeysymTable { entries: Vec::new() }
    }

    /// Record the keysym of `name`; an earlier entry for the same name wins.
    pub fn insert(&mut self, name: &str, keysym: u32)
        ensures
            final(self).entries@.len() == old(self).entries@.len() + 1,
            final(self).entries@.drop_last() == old(self).entries@,
            final(self).entries@.last().0@ == name@,
            final(self).entries@.last().1 == keysym,
    {
        let entry = (to_owned_string(name), keysym);
        self.entries.push(entry);
    }

    /// The keysym recorded for `name`, or 0.
    pub fn lookup(&self, name: &str) -> (r: u32)
        ensures
            r == self.spec_lookup(name@),
    {
        let mut i: usize = 0;
        assert(self.entries@.skip(0) =~= self.entries@);
        while i < self.entries.len()
            invariant
                i <= self.entries.len(),
                self.spec_lookup(name@) == spec_lookup_in(self.entries@.skip(i as int), name@),
            decreases self.entries.len() - i,
        {
            assert(self.entries@.skip(i as int).drop_first() =~= self.entries@.skip(i + 1));
            if str_eq(self.entries[i].0.as_str(), name) {
                return self.entries[i].1;
            }
            i = i + 1;
        }
        0
    }
}

/// Canonical XKB name for the abbreviations and literal characters a config
/// may use; every other name is passed through.
pub open spec fn spec_keysym_alias(name: Seq<char>) -> Seq<char> {
    if name == " "@ {
        "Space"@
    } else if name == "\t"@ {
        "Tab"@
    } else if name == "enter"@ {
        "Return"@
    } else if name == "esc"@ {
        "Escape"@
    } else if name == "del"@ {
        "Delete"@
    } else if name == "ins"@ {
        "Insert"@
    } else if name == "pgup"@ {
        "Page_Up"@
    } else if name == "pageup"@ {
        "Page_Up"@
    } else if name == "pgdn"@ {
        "Page_Down"@
    } else if name == "pagedown"@ {
        "Page_Down"@
    } else if name == "caps"@ {
        "Caps_Lock"@
    } else if name == "prtsc"@ {
        "Print"@
    } else if name == "sysrq"@ {
        "Sys_Req"@
    } else if name == "scrolllock"@ {
        "Scroll_Lock"@
    } else if name == "numlock"@ {
        "Num_Lock"@
    } else if name == "menu"@ {
        "Menu"@
    } else if name == "/"@ {
        "slash"@
    } else if name == "\\"@ {
        "backslash"@
    } else if name == "'"@ {
        "apostrophe"@
    } else if name == "\""@ {
        "quotedbl"@
    } else if name == "`"@ {
        "grave"@
    } else if name == "~"@ {
        "asciitilde"@
    } else if name == "-"@ {
        "minus"@
    } else if name == "="@ {
        "equal"@
    } else if name == "+"@ {
        "plus"@
    } else if name == ";"@ {
        "semicolon"@
    } else if name == ":"@ {
        "colon"@
    } else if name == "*"@ {
        "asterisk"@
    } else if name == "&"@ {
        "ampersand"@
    } else if name == "#"@ {
        "numbersign"@
    } else if name == "@"@ {
        "at"@
    } else if name == "$"@ {
        "dollar"@
    } else if name == "^"@ {
        "asciicircum"@
    } else if name == "|"@ {
        "bar"@
    } else if name == "_"@ {
        "underscore"@
    } else if name == "!"@ {
        "exclam"@
    } else if name == "?"@ {
        "question"@
    } else if name == "["@ {
        "bracketleft"@
    } else if name == "]"@ {
        "bracketright"@
    } else if name == "."@ {
        "period"@
    } else if name == ","@ {
        "comma"@
    } else if name == "volup"@ {
        "XF86AudioRaiseVolume"@
    } else if name == "volumeup"@ {
        "XF86AudioRaiseVolume"@
    } else if name == "voldown"@ {
        "XF86AudioLowerVolume"@
    } else if name == "volumedown"@ {
        "XF86AudioLowerVolume"@
    } else if name == "mute"@ {
        "XF86AudioMute"@
    } else if name == "playpause"@ {
        "XF86AudioPlay"@
    } else if name == "brightup"@ {
        "XF86MonBrightnessUp"@
    } else if name == "brightnessup"@ {
        "XF86MonBrightnessUp"@
    } else if name == "brightdown"@ {
        "XF86MonBrightnessDown"@
    } else if name == "brightnessdown"@ {
        "XF86MonBrightnessDown"@
    } else if name == "touchpad"@ {
        "XF86TouchpadToggle"@
    } else {
        name
    }
}

/// Whether `v` holds exactly the characters of `lit`.
fn eq_lit(v: &Vec<char>, lit: &str) -> (r: bool)
    ensures
        r == (v@ == lit@),
{
    let w = chars_of(lit);
    crate::text::chars_eq(v, &w)
}

/// The alias table of [`spec_keysym_alias`].
pub fn keysym_alias(name: &str) -> (r: &str)
    ensures
        r@ == spec_keysym_alias(name@),
{
    let v = chars_of(name);
    if eq_lit(&v, " ") {
        return "Space";
    }
    if eq_lit(&v, "\t") {
        return "Tab";
    }
    if eq_lit(&v, "enter") {
        return "Return";
    }
    if eq_lit(&v, "esc") {
        return "Escape";
    }
    if eq_lit(&v, "del") {
        return "Delete";
    }
    if eq_lit(&v, "ins") {
        return "Insert";
    }
    if eq_lit(&v, "pgup") {
        return "Page_Up";
    }
    if eq_lit(&v, "pageup") {
        return "Page_Up";
    }
    if eq_lit(&v, "pgdn") {
        return "Page_Down";
    }
    if eq_lit(&v, "pagedown") {
        return "Page_Down";
    }
    if eq_lit(&v, "caps") {
        return "Caps_Lock";
    }
    if eq_lit(&v, "prtsc") {
        return "Print";
    }
    if eq_lit(&v, "sysrq") {
        return "Sys_Req";
    }
    if eq_lit(&v, "scrolllock") {
        return "Scroll_Lock";
    }
    if eq_lit(&v, "numlock") {
        return "Num_Lock";
    }
    if eq_lit(&v, "menu") {
        return "Menu";
    }
    if eq_lit(&v, "/") {
        return "slash";
    }
    if eq_lit(&v, "\\") {
        return "backslash";
    }
    if eq_lit(&v, "'") {
        return "apostrophe";
    }
    if eq_lit(&v, "\"") {
        return "quotedbl";
    }
    if eq_lit(&v, "`") {
        return "grave";
    }
    if eq_lit(&v, "~") {
        return "asciitilde";
    }
    if eq_lit(&v, "-") {
        return "minus";
    }
    if eq_lit(&v, "=") {
        return "equal";
    }
    if eq_lit(&v, "+") {
        return "plus";
    }
    if eq_lit(&v, ";") {
        return "semicolon";
    }
    if eq_lit(&v, ":") {
        return "colon";
    }
    if eq_lit(&v, "*") {
        return "asterisk";
    }
    if eq_lit(&v, "&") {
        return "ampersand";
    }
    if eq_lit(&v, "#") {
        return "numbersign";
    }
    if eq_lit(&v, "@") {
        return "at";
    }
    if eq_lit(&v, "$") {
        return "dollar";
    }
    if eq_lit(&v, "^") {
        return "asciicircum";
    }
    if eq_lit(&v, "|") {
        return "bar";
    }
    if eq_lit(&v, "_") {
        return "underscore";
    }
    if eq_lit(&v, "!") {
        return "exclam";
    }
    if eq_lit(&v, "?") {
        return "question";
    }
    if eq_lit(&v, "[") {
        return "bracketleft";
    }
    if eq_lit(&v, "]") {
        return "bracketright";
    }
    if eq_lit(&v, ".") {
        return "period";
    }
    if eq_lit(&v, ",") {
        return "comma";
    }
    if eq_lit(&v, "volup") {
        return "XF86AudioRaiseVolume";
    }
    if eq_lit(&v, "volumeup") {
        return "XF86AudioRaiseVolume";
    }
    if eq_lit(&v, "voldown") {
        return "XF86AudioLowerVolume";
    }
    if eq_lit(&v, "volumedown") {
        return "XF86AudioLowerVolume";
    }
    if eq_lit(&v, "mute") {
        return "XF86AudioMute";
    }
    if eq_lit(&v, "playpause") {
        return "XF86AudioPlay";
    }
    if eq_lit(&v, "brightup") {
        return "XF86MonBrightnessUp";
    }
    if eq_lit(&v, "brightnessup") {
        return "XF86MonBrightnessUp";
    }
    if eq_lit(&v, "brightdown") {
        return "XF86MonBrightnessDown";
    }
    if eq_lit(&v, "brightnessdown") {
        return "XF86MonBrightnessDown";
    }
    if eq_lit(&v, "touchpad") {
        return "XF86TouchpadToggle";
    }
    name
}

/// The name to resolve for `name`: its canonical XKB name (see
/// [`spec_keysym_alias`]); none for the empty name and names holding a NUL,
/// which XKB cannot take.
pub open spec fn spec_keysym_lookup_name(name: Seq<char>) -> Option<Seq<char>> {
    if name.contains('\0') || name.len() == 0 {
        None
    } else {
        Some(spec_keysym_alias(name))
    }
}

/// Parse a keysym name (or an alias) into a keysym: the resolved keysym of
/// its lookup name, `None` when there is no lookup name or it resolves to
/// no symbol.
pub open spec fn spec_parse_keysym(name: Seq<char>, keysyms: KeysymTable) -> Option<u32> {
    match spec_keysym_lookup_name(name) {
        Some(n) => {
            let k = keysyms.spec_lookup(n);
            if k == 0 {
                None
            } else {
                Some(k)
            }
        },
        None => None,
    }
}

/// The name under which to resolve `name` (see [`spec_keysym_lookup_name`]).
pub fn keysym_lookup_name(name: &str) -> (r: Option<&str>)
    ensures
        match r {
            Some(n) => spec_keysym_lookup_name(name@) == Some(n@),
            None => spec_keysym_lookup_name(name@).is_none(),
        },
{
    let v = chars_of(name);
    let mut i: usize = 0;
    while i < v.len()
        invariant
            v@ == name@,
            i <= v.len(),
            forall|j: int| 0 <= j < i ==> v@[j] != '\0',
        decreases v.len() - i,
    {
        if v[i] == '\0' {
            assert(name@[i as int] == '\0');
            return None;
        }
        i = i + 1;
    }
    assert(!name@.contains('\0'));
    if v.len() == 0 {
        return None;
    }
    Some(keysym_alias(name))
}

/// Parse a keysym name into a keysym (see [`spec_parse_keysym`]).
pub fn parse_keysym(name: &str, keysyms: &KeysymTable) -> (r: Option<u32>)
    ensures
        r == spec_parse_keysym(name@, *keysyms),
{
    match keysym_lookup_name(name) {
        Some(n) => {
            let k = keysyms.lookup(n);
            if k == 0 {
                None
            } else {
                Some(k)
            }
        },
        None => None,
    }
}

} // verus!
