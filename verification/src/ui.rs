//! What the settings window shows and what it turns input into: the pages,
//! the text of the monitor, the names that a recorded key press stands for,
//! and the rows of mapping text that are edited.

use vstd::prelude::*;

use crate::config::{
    Config, KeymapConfig, KeymapErrorView, KeymapView, lemma_keymap_roundtrip, parse_keymap_spec, config_value_spec, schemas_values_spec, texts_of, uniform_schema,
};
use crate::driver::{control_of, control_of_spec};
use crate::keys::{Key, is_named, key_name_spec, key_of_name, keyboard_code_spec, lemma_key_names};
use crate::protocol::{Button, PenEvent};
use crate::text::join;

verus! {

/// The views of some string slices.
pub open spec fn str_views(parts: Seq<&str>) -> Seq<Seq<char>> {
    parts.map_values(|s: &str| s@)
}

/// The slices concatenated with `sep` between neighbours.
pub fn join_strs(parts: &Vec<&str>, sep: &str) -> (r: String)
    ensures
        r@ == join(str_views(parts@), sep@),
{
    let ghost views = str_views(parts@);
    let mut text = String::new();
    assert(views.take(0) =~= Seq::<Seq<char>>::empty());
    for i in 0..parts.len()
        invariant
            views == str_views(parts@),
            text@ == join(views.take(i as int), sep@),
    {
        if i > 0 {
            text.append(sep);
        }
        text.append(parts[i]);
        proof {
            let t = views.take(i + 1);
            assert(t.drop_last() =~= views.take(i as int));
            assert(t.last() == parts@[i as int]@);
            if i == 0 {
                assert(Seq::<char>::empty() + parts@[0]@ =~= parts@[0]@);
            }
        }
    }
    assert(views.take(parts.len() as int) =~= views);
    text
}


/// The words that describe a pen event on the monitor page.
pub open spec fn pen_state_parts(pen: PenEvent) -> Seq<Seq<char>> {
    seq!["在感应区内"@]
        + (if pen.tip_pressed { seq!["笔尖"@] } else { Seq::empty() })
        + (if pen.button0_pressed { seq!["下侧键"@] } else { Seq::empty() })
        + (if pen.button1_pressed { seq!["上侧键"@] } else { Seq::empty() })
}

/// The line that describes a pen event: out of range, or in range with what
/// is pressed, the words two spaces apart.
pub open spec fn pen_state_spec(pen: PenEvent) -> Seq<char> {
    if !pen.in_area {
        "已离开感应区"@
    } else {
        join(pen_state_parts(pen), "  "@)
    }
}

/// The line that describes a pen event on the monitor page.
pub fn pen_state(pen: &PenEvent) -> (r: String)
    ensures
        r@ == pen_state_spec(*pen),
{
    if !pen.in_area {
        return String::from_str("已离开感应区");
    }
    let mut parts: Vec<&str> = Vec::new();
    parts.push("在感应区内");
    if pen.tip_pressed {
        parts.push("笔尖");
    }
    if pen.button0_pressed {
        parts.push("下侧键");
    }
    if pen.button1_pressed {
        parts.push("上侧键");
    }
    assert(str_views(parts@) =~= pen_state_parts(*pen));
    join_strs(&parts, "  ")
}

/// The label of the control that a button is; a release has none.
pub open spec fn button_label_spec(button: Button) -> Option<Seq<char>> {
    match control_of_spec(button) {
        Some(control) => Some(control.label_spec()),
        None => None,
    }
}

/// The label of the control that a button is; a release has none.
pub fn button_label(button: Button) -> (r: Option<&'static str>)
    ensures
        match r {
            Some(label) => button_label_spec(button) == Some(label@),
            None => button_label_spec(button) is None,
        },
{
    match control_of(button) {
        Some(control) => Some(control.label()),
        None => None,
    }
}

/// The labels of the buttons, the latest first, releases left out.
pub open spec fn recent_labels(buttons: Seq<Button>) -> Seq<Seq<char>>
    decreases buttons.len(),
{
    if buttons.len() == 0 {
        Seq::empty()
    } else {
        let rest = recent_labels(buttons.drop_last());
        match button_label_spec(buttons.last()) {
            Some(label) => seq![label] + rest,
            None => rest,
        }
    }
}

/// The line that lists the recent buttons on the monitor page.
pub open spec fn recent_buttons_spec(buttons: Seq<Button>) -> Seq<char> {
    if recent_labels(buttons).len() == 0 {
        "尚未收到按键事件"@
    } else {
        join(recent_labels(buttons), "、"@)
    }
}

/// The line that lists the recent buttons, the latest first.
pub fn recent_buttons_text(buttons: &Vec<Button>) -> (r: String)
    ensures
        r@ == recent_buttons_spec(buttons@),
{
    let mut labels: Vec<&str> = Vec::new();
    assert(buttons@.take(0) =~= Seq::<Button>::empty());
    for i in 0..buttons.len()
        invariant
            str_views(labels@) == recent_labels(buttons@.take(i as int)),
    {
        let ghost before = labels@;
        let ghost now = buttons@.take(i + 1);
        assert(now.drop_last() =~= buttons@.take(i as int));
        if let Some(label) = button_label(buttons[i]) {
            labels.insert(0, label);
            assert(str_views(labels@) =~= seq![label@] + str_views(before));
        }
    }
    assert(buttons@.take(buttons@.len() as int) =~= buttons@);
    if labels.len() == 0 {
        return String::from_str("尚未收到按键事件");
    }
    join_strs(&labels, "、")
}

/// The character with an ASCII capital turned into its small letter.
pub open spec fn ascii_lower(c: char) -> char {
    if 'A' <= c && c <= 'Z' {
        ((c as u32) + 32) as char
    } else {
        c
    }
}

/// The character with an ASCII capital turned into its small letter.
pub fn to_ascii_lower(c: char) -> (r: char)
    ensures
        r == ascii_lower(c),
{
    if 'A' <= c && c <= 'Z' {
        let code: u8 = (c as u8) + 32;
        code as char
    } else {
        c
    }
}

/// The name of a key that the window reports by a private-use character or
/// a control character rather than by the character it types.
pub open spec fn special_key_spec(c: char) -> Option<Seq<char>> {
    match c {
        '\u{F700}' => Some("up"@),
        '\u{F701}' => Some("down"@),
        '\u{F702}' => Some("left"@),
        '\u{F703}' => Some("right"@),
        '\u{F704}' => Some("f1"@),
        '\u{F705}' => Some("f2"@),
        '\u{F706}' => Some("f3"@),
        '\u{F707}' => Some("f4"@),
        '\u{F708}' => Some("f5"@),
        '\u{F709}' => Some("f6"@),
        '\u{F70A}' => Some("f7"@),
        '\u{F70B}' => Some("f8"@),
        '\u{F70C}' => Some("f9"@),
        '\u{F70D}' => Some("f10"@),
        '\u{F70E}' => Some("f11"@),
        '\u{F70F}' => Some("f12"@),
        '\u{F727}' => Some("insert"@),
        '\u{F729}' => Some("home"@),
        '\u{F72B}' => Some("end"@),
        '\u{F72C}' => Some("pageup"@),
        '\u{F72D}' => Some("pagedown"@),
        '\u{0008}' => Some("backspace"@),
        '\u{0009}' => Some("tab"@),
        '\u{000A}' => Some("enter"@),
        '\u{000D}' => Some("enter"@),
        '\u{001B}' => Some("esc"@),
        '\u{0020}' => Some("space"@),
        '\u{007F}' => Some("delete"@),
        _ => None,
    }
}

fn special_key(c: char) -> (r: Option<&'static str>)
    ensures
        match r {
            Some(name) => special_key_spec(c) == Some(name@),
            None => special_key_spec(c) is None,
        },
{
    match c {
        '\u{F700}' => Some("up"),
        '\u{F701}' => Some("down"),
        '\u{F702}' => Some("left"),
        '\u{F703}' => Some("right"),
        '\u{F704}' => Some("f1"),
        '\u{F705}' => Some("f2"),
        '\u{F706}' => Some("f3"),
        '\u{F707}' => Some("f4"),
        '\u{F708}' => Some("f5"),
        '\u{F709}' => Some("f6"),
        '\u{F70A}' => Some("f7"),
        '\u{F70B}' => Some("f8"),
        '\u{F70C}' => Some("f9"),
        '\u{F70D}' => Some("f10"),
        '\u{F70E}' => Some("f11"),
        '\u{F70F}' => Some("f12"),
        '\u{F727}' => Some("insert"),
        '\u{F729}' => Some("home"),
        '\u{F72B}' => Some("end"),
        '\u{F72C}' => Some("pageup"),
        '\u{F72D}' => Some("pagedown"),
        '\u{0008}' => Some("backspace"),
        '\u{0009}' => Some("tab"),
        '\u{000A}' => Some("enter"),
        '\u{000D}' => Some("enter"),
        '\u{001B}' => Some("esc"),
        '\u{0020}' => Some("space"),
        '\u{007F}' => Some("delete"),
        _ => None,
    }
}

/// The configuration name of the key that the window reports as `text`: a
/// single character that, made small, is a key's name, or one of the
/// characters that stand for special keys. Anything else (a modifier alone,
/// several characters) names no key.
pub open spec fn key_name_of_text(text: Seq<char>) -> Option<Seq<char>> {
    if text.len() != 1 {
        None
    } else if keyboard_code_spec(seq![ascii_lower(text[0])]) is Some {
        Some(seq![ascii_lower(text[0])])
    } else {
        special_key_spec(text[0])
    }
}

/// The configuration name of the key that the window reports as `text`.
pub fn key_name(text: &str) -> (r: Option<&'static str>)
    ensures
        match r {
            Some(name) => key_name_of_text(text@) == Some(name@),
            None => key_name_of_text(text@) is None,
        },
{
    let chars = crate::text::chars_of(text);
    if chars.len() != 1 {
        return None;
    }
    let c = chars[0];
    if let Some(name) = Key::config_name(to_ascii_lower(c)) {
        return Some(name);
    }
    special_key(c)
}

/// The modifier words that are held, in the order ctrl, shift, alt, meta.
pub open spec fn modifier_words(ctrl: bool, shift: bool, alt: bool, meta: bool) -> Seq<Seq<char>> {
    (if ctrl { seq!["ctrl"@] } else { Seq::empty() })
        + (if shift { seq!["shift"@] } else { Seq::empty() })
        + (if alt { seq!["alt"@] } else { Seq::empty() })
        + (if meta { seq!["meta"@] } else { Seq::empty() })
}

/// The mapping text of a recorded key press: the held modifiers, then the key,
/// joined with `+`.
pub fn shortcut_value(ctrl: bool, shift: bool, alt: bool, meta: bool, name: &str) -> (r: String)
    ensures
        r@ == join(modifier_words(ctrl, shift, alt, meta).push(name@), "+"@),
{
    let mut parts: Vec<&str> = Vec::new();
    if ctrl {
        parts.push("ctrl");
    }
    if shift {
        parts.push("shift");
    }
    if alt {
        parts.push("alt");
    }
    if meta {
        parts.push("meta");
    }
    parts.push(name);
    assert(str_views(parts@) =~= modifier_words(ctrl, shift, alt, meta).push(name@));
    join_strs(&parts, "+")
}

/// The pages of the settings window, in the order of their tabs.
#[derive(Clone, Copy, Debug, PartialEq, Eq, Structural)]
pub enum Page {
    Keymap,
    Area,
    Pressure,
    Monitor,
    Log,
}

impl Page {
    pub open spec fn label_spec(self) -> Seq<char> {
        match self {
            Page::Keymap => "按键映射"@,
            Page::Area => "映射区域"@,
            Page::Pressure => "压感曲线"@,
            Page::Monitor => "原始数据"@,
            Page::Log => "日志"@,
        }
    }

    /// Every page, in the order of the tabs.
    pub fn all() -> (r: [Page; 5])
        ensures
            r@ == seq![Page::Keymap, Page::Area, Page::Pressure, Page::Monitor, Page::Log],
    {
        let r = [Page::Keymap, Page::Area, Page::Pressure, Page::Monitor, Page::Log];
        assert(r@ =~= seq![Page::Keymap, Page::Area, Page::Pressure, Page::Monitor, Page::Log]);
        r
    }

    /// The title of the page's tab.
    pub fn label(&self) -> (r: &'static str)
        ensures
            r@ == self.label_spec(),
    {
        match self {
            Page::Keymap => "按键映射",
            Page::Area => "映射区域",
            Page::Pressure => "压感曲线",
            Page::Monitor => "原始数据",
            Page::Log => "日志",
        }
    }
}

/// What the tray menu asks of the application.
#[derive(Clone, Copy, Debug, PartialEq, Eq, Structural)]
pub enum TrayCommand {
    Show,
    Quit,
}

/// The schemas that the mapping editor shows: those of the configuration, or
/// one in which every control is disabled when it has none.
pub open spec fn editing_schemas(schemas: Seq<Seq<KeymapView>>) -> Seq<Seq<KeymapView>> {
    if schemas.len() == 0 {
        seq![uniform_schema(KeymapView::Disabled)]
    } else {
        schemas
    }
}

/// The text of every mapping that the editor starts from, schema by schema.
pub fn editing_from_config(config: &Config) -> (r: Vec<Vec<String>>)
    ensures
        texts_of(r@) == schemas_values_spec(editing_schemas(config.schemas())),
{
    if config.keymaps.len() == 0 {
        let mut rows: Vec<Vec<String>> = Vec::new();
        let none = KeymapConfig::none();
        rows.push(none.to_values());
        assert(texts_of(rows@) =~= schemas_values_spec(editing_schemas(config.schemas())));
        rows
    } else {
        config.to_values()
    }
}

/// The schema whose mappings the editor lists for schema `index`: that
/// schema, or all disabled where there is none such.
pub open spec fn listed_schema(schemas: Seq<Seq<KeymapView>>, index: int) -> Seq<KeymapView> {
    if 0 <= index < schemas.len() {
        schemas[index]
    } else {
        uniform_schema(KeymapView::Disabled)
    }
}

/// The text of each control's mapping in schema `index`, in the order of the controls.
pub fn entry_values(config: &Config, index: usize) -> (r: Vec<String>)
    ensures
        r@.map_values(|v: String| v@) == listed_schema(config.schemas(), index as int).map_values(
            |k: KeymapView| config_value_spec(k),
        ),
{
    if index < config.keymaps.len() {
        config.keymaps[index].to_values()
    } else {
        KeymapConfig::none().to_values()
    }
}

/// The schema that a click on tab `index` selects, where there is such a schema.
pub fn selected_schema(index: i32, count: usize) -> (r: Option<usize>)
    ensures
        r == if 0 <= index < count { Some(index as usize) } else { None::<usize> },
{
    if index >= 0 {
        let i: usize = index as usize;
        if i < count {
            return Some(i);
        }
    }
    None
}

/// The names of the special keys name keys, and none of them is a modifier.
proof fn lemma_special_named(c: char)
    requires
        special_key_spec(c) is Some,
    ensures
        key_of_name(special_key_spec(c)->0) is Some,
        !modifier_names().contains(special_key_spec(c)->0),
{
    lemma_key_names();
    reveal_strlit("up");
    reveal_strlit("down");
    reveal_strlit("left");
    reveal_strlit("right");
    reveal_strlit("f1");
    reveal_strlit("f2");
    reveal_strlit("f3");
    reveal_strlit("f4");
    reveal_strlit("f5");
    reveal_strlit("f6");
    reveal_strlit("f7");
    reveal_strlit("f8");
    reveal_strlit("f9");
    reveal_strlit("f10");
    reveal_strlit("f11");
    reveal_strlit("f12");
    reveal_strlit("insert");
    reveal_strlit("home");
    reveal_strlit("end");
    reveal_strlit("pageup");
    reveal_strlit("pagedown");
    reveal_strlit("backspace");
    reveal_strlit("tab");
    reveal_strlit("enter");
    reveal_strlit("esc");
    reveal_strlit("space");
    reveal_strlit("delete");
    reveal_strlit("ctrl");
    reveal_strlit("shift");
    reveal_strlit("alt");
    reveal_strlit("meta");
    assert(is_named(Key::Keyboard(0x26)) && is_named(Key::Keyboard(0x28)) && is_named(Key::Keyboard(0x25)) && is_named(Key::Keyboard(0x27)) && is_named(Key::Keyboard(0x70)) && is_named(Key::Keyboard(0x71)) && is_named(Key::Keyboard(0x72)) && is_named(Key::Keyboard(0x73)) && is_named(Key::Keyboard(0x74)) && is_named(Key::Keyboard(0x75)) && is_named(Key::Keyboard(0x76)) && is_named(Key::Keyboard(0x77)) && is_named(Key::Keyboard(0x78)) && is_named(Key::Keyboard(0x79)) && is_named(Key::Keyboard(0x7a)) && is_named(Key::Keyboard(0x7b)) && is_named(Key::Keyboard(0x2d)) && is_named(Key::Keyboard(0x24)) && is_named(Key::Keyboard(0x23)) && is_named(Key::Keyboard(0x21)) && is_named(Key::Keyboard(0x22)) && is_named(Key::Keyboard(0x08)) && is_named(Key::Keyboard(0x09)) && is_named(Key::Keyboard(0x0d)) && is_named(Key::Keyboard(0x1b)) && is_named(Key::Keyboard(0x20)) && is_named(Key::Keyboard(0x2e)));
    let name = special_key_spec(c)->0;
    assert(!modifier_names().contains(name)) by {
        if modifier_names().contains(name) {
            let i = choose|i: int| 0 <= i < 4 && modifier_names()[i] == name;
            assert(modifier_names()[i] == name);
        }
    }
}

/// The four modifier words.
pub open spec fn modifier_names() -> Seq<Seq<char>> {
    seq!["ctrl"@, "shift"@, "alt"@, "meta"@]
}

/// The modifier words name the left control, shift and alt keys and the
/// Windows key, and are four different words.
proof fn lemma_modifier_keys()
    ensures
        key_of_name("ctrl"@) == Some(Key::Keyboard(0xa2)),
        key_of_name("shift"@) == Some(Key::Keyboard(0xa0)),
        key_of_name("alt"@) == Some(Key::Keyboard(0xa4)),
        key_of_name("meta"@) == Some(Key::Keyboard(0x5b)),
        "ctrl"@.len() == 4 && "shift"@.len() == 5 && "alt"@.len() == 3 && "meta"@.len() == 4,
        "ctrl"@ != "meta"@,
{
    lemma_key_names();
    reveal_strlit("ctrl");
    reveal_strlit("shift");
    reveal_strlit("alt");
    reveal_strlit("meta");
    assert(is_named(Key::Keyboard(0xa2)) && is_named(Key::Keyboard(0xa0)) && is_named(
        Key::Keyboard(0xa4),
    ) && is_named(Key::Keyboard(0x5b)));
    assert("ctrl"@[0] != "meta"@[0]);
}

/// The held modifiers are modifier words, each at most once.
proof fn lemma_modifier_words(ctrl: bool, shift: bool, alt: bool, meta: bool)
    ensures
        forall|i: int|
            0 <= i < modifier_words(ctrl, shift, alt, meta).len() ==> modifier_names().contains(
                #[trigger] modifier_words(ctrl, shift, alt, meta)[i],
            ),
        forall|i: int, j: int|
            0 <= i < j < modifier_words(ctrl, shift, alt, meta).len() ==> modifier_words(
                ctrl,
                shift,
                alt,
                meta,
            )[i] != modifier_words(ctrl, shift, alt, meta)[j],
{
    lemma_modifier_keys();
    let m = modifier_names();
    assert(m[0] == "ctrl"@ && m[1] == "shift"@ && m[2] == "alt"@ && m[3] == "meta"@);
    let w = modifier_words(ctrl, shift, alt, meta);
    let a = if ctrl { seq!["ctrl"@] } else { Seq::<Seq<char>>::empty() };
    let b = if shift { seq!["shift"@] } else { Seq::<Seq<char>>::empty() };
    let c = if alt { seq!["alt"@] } else { Seq::<Seq<char>>::empty() };
    let d = if meta { seq!["meta"@] } else { Seq::<Seq<char>>::empty() };
    assert(w == a + b + c + d);
    assert forall|i: int| 0 <= i < w.len() implies m.contains(#[trigger] w[i]) by {
        if w[i] == "ctrl"@ {
            assert(m[0] == w[i]);
        } else if w[i] == "shift"@ {
            assert(m[1] == w[i]);
        } else if w[i] == "alt"@ {
            assert(m[2] == w[i]);
        } else {
            assert(m[3] == w[i]);
        }
    }
}

/// The words of a recorded shortcut: the held modifiers, then the key.
pub open spec fn shortcut_words(ctrl: bool, shift: bool, alt: bool, meta: bool, name: Seq<char>) -> Seq<
    Seq<char>,
> {
    modifier_words(ctrl, shift, alt, meta).push(name)
}

/// Whatever key press the recorder names, the shortcut it writes is a mapping
/// that the parser accepts: it presses the held modifiers, then the key.
pub proof fn lemma_recorded_shortcut_parses(ctrl: bool, shift: bool, alt: bool, meta: bool, text: Seq<char>)
    requires
        key_name_of_text(text) is Some,
    ensures
        ({
            let words = shortcut_words(ctrl, shift, alt, meta, key_name_of_text(text)->0);
            parse_keymap_spec(join(words, "+"@)) == Ok::<KeymapView, KeymapErrorView>(
                KeymapView::Press(words.map_values(|w: Seq<char>| key_of_name(w)->0)),
            )
        }),
{
    let name = key_name_of_text(text)->0;
    let mods = modifier_words(ctrl, shift, alt, meta);
    let words = shortcut_words(ctrl, shift, alt, meta, name);
    lemma_key_names();
    lemma_modifier_keys();
    lemma_modifier_words(ctrl, shift, alt, meta);
    let m = modifier_names();
    assert(m[0] == "ctrl"@ && m[1] == "shift"@ && m[2] == "alt"@ && m[3] == "meta"@);
    if special_key_spec(text[0]) is Some && name == special_key_spec(text[0])->0 {
        lemma_special_named(text[0]);
    }
    assert(key_of_name(name) is Some);
    assert(!m.contains(name)) by {
        if m.contains(name) {
            let i = choose|i: int| 0 <= i < 4 && m[i] == name;
            if name.len() == 1 {
                assert(m[i].len() >= 3);
            } else {
                lemma_special_named(text[0]);
            }
        }
    }
    assert forall|i: int| 0 <= i < words.len() implies key_of_name(#[trigger] words[i]) is Some by {
        if i < mods.len() {
            assert(m.contains(mods[i]));
            let k = choose|k: int| 0 <= k < 4 && m[k] == mods[i];
            assert(words[i] == mods[i]);
        }
    }
    let keys = words.map_values(|w: Seq<char>| key_of_name(w)->0);
    assert forall|i: int| 0 <= i < keys.len() implies is_named(#[trigger] keys[i]) && key_name_spec(
        keys[i],
    ) == words[i] by {
        assert(key_of_name(words[i]) is Some);
    }
    assert forall|i: int, j: int| 0 <= i < j < keys.len() implies keys[i] != keys[j] by {
        assert(key_name_spec(keys[i]) == words[i]);
        assert(key_name_spec(keys[j]) == words[j]);
        if j == words.len() - 1 {
            assert(m.contains(words[i]));
        }
    }
    reveal_strlit("+");
    assert("+"@ =~= seq!['+']);
    assert(keys.map_values(|k: Key| key_name_spec(k)) =~= words);
    lemma_keymap_roundtrip(KeymapView::Press(keys));
}

} // verus!
