//! The button mappings: what each control of the tablet does, how a mapping
//! is written in the configuration, and how schemas fall back on each other.

use vstd::prelude::*;

use crate::keys::{Key, is_named, key_name_spec, key_of_name, key_of_range, lemma_key_names, plain_name};
use crate::text::{
    chars_of, dedup, join, range_eq_str, range_views, ranges_eq, ranges_within, split, split_ranges,
    trim, trim_range, all_distinct, lemma_dedup_distinct, lemma_dedup_props, lemma_split_join,
    lemma_split_len, lemma_trim_plain,
};

verus! {

/// Every control of the tablet that a mapping can be given to; the index of a
/// control is also its place on screen.
#[derive(Clone, Copy, Debug, PartialEq, Eq, Structural)]
pub enum Control {
    Button0,
    Button1,
    Button2,
    Button3,
    Button4,
    Button5,
    Button6,
    Button7,
    Ring0,
    Ring1,
    RingButton,
    StylusButton0,
    StylusButton1,
}

/// How many controls there are.
pub const CONTROL_COUNT: usize = 13;

impl Control {
    /// The place of the control among all controls.
    pub open spec fn index_spec(self) -> int {
        match self {
            Control::Button0 => 0,
            Control::Button1 => 1,
            Control::Button2 => 2,
            Control::Button3 => 3,
            Control::Button4 => 4,
            Control::Button5 => 5,
            Control::Button6 => 6,
            Control::Button7 => 7,
            Control::Ring0 => 8,
            Control::Ring1 => 9,
            Control::RingButton => 10,
            Control::StylusButton0 => 11,
            Control::StylusButton1 => 12,
        }
    }

    /// The control at a place, for places below `CONTROL_COUNT`.
    pub open spec fn at_spec(index: int) -> Option<Control> {
        if index == 0 {
            Some(Control::Button0)
        } else if index == 1 {
            Some(Control::Button1)
        } else if index == 2 {
            Some(Control::Button2)
        } else if index == 3 {
            Some(Control::Button3)
        } else if index == 4 {
            Some(Control::Button4)
        } else if index == 5 {
            Some(Control::Button5)
        } else if index == 6 {
            Some(Control::Button6)
        } else if index == 7 {
            Some(Control::Button7)
        } else if index == 8 {
            Some(Control::Ring0)
        } else if index == 9 {
            Some(Control::Ring1)
        } else if index == 10 {
            Some(Control::RingButton)
        } else if index == 11 {
            Some(Control::StylusButton0)
        } else if index == 12 {
            Some(Control::StylusButton1)
        } else {
            None
        }
    }

    pub open spec fn label_spec(self) -> Seq<char> {
        match self {
            Control::Button0 => "按键0"@,
            Control::Button1 => "按键1"@,
            Control::Button2 => "按键2"@,
            Control::Button3 => "按键3"@,
            Control::Button4 => "按键4"@,
            Control::Button5 => "按键5"@,
            Control::Button6 => "按键6"@,
            Control::Button7 => "按键7"@,
            Control::Ring0 => "转环逆时针"@,
            Control::Ring1 => "转环顺时针"@,
            Control::RingButton => "转环中键"@,
            Control::StylusButton0 => "笔下侧键"@,
            Control::StylusButton1 => "笔上侧键"@,
        }
    }

    /// The place of the control among all controls.
    pub fn index(self) -> (r: usize)
        ensures
            r == self.index_spec(),
            r < CONTROL_COUNT,
            Control::at_spec(r as int) == Some(self),
    {
        match self {
            Control::Button0 => 0,
            Control::Button1 => 1,
            Control::Button2 => 2,
            Control::Button3 => 3,
            Control::Button4 => 4,
            Control::Button5 => 5,
            Control::Button6 => 6,
            Control::Button7 => 7,
            Control::Ring0 => 8,
            Control::Ring1 => 9,
            Control::RingButton => 10,
            Control::StylusButton0 => 11,
            Control::StylusButton1 => 12,
        }
    }

    /// The control at a place; none past the last control.
    pub fn from_index(index: usize) -> (r: Option<Control>)
        ensures
            r == Control::at_spec(index as int),
            r is Some <==> index < CONTROL_COUNT,
            r matches Some(c) ==> c.index_spec() == index,
    {
        match index {
            0 => Some(Control::Button0),
            1 => Some(Control::Button1),
            2 => Some(Control::Button2),
            3 => Some(Control::Button3),
            4 => Some(Control::Button4),
            5 => Some(Control::Button5),
            6 => Some(Control::Button6),
            7 => Some(Control::Button7),
            8 => Some(Control::Ring0),
            9 => Some(Control::Ring1),
            10 => Some(Control::RingButton),
            11 => Some(Control::StylusButton0),
            12 => Some(Control::StylusButton1),
            _ => None,
        }
    }

    /// All controls, in the order of their places.
    pub fn all() -> (r: [Control; 13])
        ensures
            forall|i: int| 0 <= i < 13 ==> Control::at_spec(i) == Some(#[trigger] r@[i]),
    {
        [
            Control::Button0,
            Control::Button1,
            Control::Button2,
            Control::Button3,
            Control::Button4,
            Control::Button5,
            Control::Button6,
            Control::Button7,
            Control::Ring0,
            Control::Ring1,
            Control::RingButton,
            Control::StylusButton0,
            Control::StylusButton1,
        ]
    }

    /// The text that names the control on screen.
    pub fn label(&self) -> (r: &'static str)
        ensures
            r@ == self.label_spec(),
    {
        match self {
            Control::Button0 => "按键0",
            Control::Button1 => "按键1",
            Control::Button2 => "按键2",
            Control::Button3 => "按键3",
            Control::Button4 => "按键4",
            Control::Button5 => "按键5",
            Control::Button6 => "按键6",
            Control::Button7 => "按键7",
            Control::Ring0 => "转环逆时针",
            Control::Ring1 => "转环顺时针",
            Control::RingButton => "转环中键",
            Control::StylusButton0 => "笔下侧键",
            Control::StylusButton1 => "笔上侧键",
        }
    }
}

/// What a control does.
#[derive(Clone, Debug, PartialEq, Eq)]
pub enum Keymap {
    /// Nothing happens.
    Disabled,
    /// These keys are pressed together, in this order, and let go in reverse.
    Press(Vec<Key>),
    /// The next schema becomes the current one.
    SwitchSchema,
    /// The mapping of the schema before this one applies; in the first schema
    /// this is the same as `Disabled`.
    Fallback,
}

/// A mapping as the contracts see it.
pub enum KeymapView {
    Disabled,
    Press(Seq<Key>),
    SwitchSchema,
    Fallback,
}

impl View for Keymap {
    type V = KeymapView;

    open spec fn view(&self) -> KeymapView {
        match self {
            Keymap::Disabled => KeymapView::Disabled,
            Keymap::Press(keys) => KeymapView::Press(keys@),
            Keymap::SwitchSchema => KeymapView::SwitchSchema,
            Keymap::Fallback => KeymapView::Fallback,
        }
    }
}

impl Default for Keymap {
    fn default() -> (r: Keymap)
        ensures
            r@ == KeymapView::Fallback,
    {
        Keymap::Fallback
    }
}

/// One of the words that must stand alone in a mapping.
#[derive(Clone, Copy, Debug, PartialEq, Eq, Structural)]
pub enum StandaloneWord {
    SwitchSchema,
    Fallback,
    Disabled,
}

/// Why a mapping text was refused.
#[derive(Clone, Debug, PartialEq, Eq)]
pub enum KeymapError {
    /// A standalone word was combined with other parts.
    NotCombinable(StandaloneWord),
    /// A part names no key; the part is given.
    UnknownKey(String),
}

/// A refusal as the contracts see it.
pub enum KeymapErrorView {
    NotCombinable(StandaloneWord),
    UnknownKey(Seq<char>),
}

impl View for KeymapError {
    type V = KeymapErrorView;

    open spec fn view(&self) -> KeymapErrorView {
        match self {
            KeymapError::NotCombinable(word) => KeymapErrorView::NotCombinable(*word),
            KeymapError::UnknownKey(part) => KeymapErrorView::UnknownKey(part@),
        }
    }
}

pub open spec fn keymap_result_view(r: Result<Keymap, KeymapError>) -> Result<
    KeymapView,
    KeymapErrorView,
> {
    match r {
        Ok(k) => Ok(k@),
        Err(e) => Err(e@),
    }
}

/// The parts of a mapping text: split at `+`, trimmed, each kept once.
pub open spec fn keymap_parts(text: Seq<char>) -> Seq<Seq<char>> {
    dedup(split(text, '+').map_values(|p: Seq<char>| trim(p)))
}

/// The keys that the parts name, or the first part that names none.
pub open spec fn parse_keys(parts: Seq<Seq<char>>) -> Result<Seq<Key>, Seq<char>>
    decreases parts.len(),
{
    if parts.len() == 0 {
        Ok(Seq::<Key>::empty())
    } else {
        match parse_keys(parts.drop_last()) {
            Err(part) => Err(part),
            Ok(keys) => match key_of_name(parts.last()) {
                Some(key) => Ok(keys.push(key)),
                None => Err(parts.last()),
            },
        }
    }
}

/// A standalone word: the mapping it stands for if it is the only part,
/// a refusal if there are others.
pub open spec fn standalone(parts: Seq<Seq<char>>, word: StandaloneWord, keymap: KeymapView) -> Result<
    KeymapView,
    KeymapErrorView,
> {
    if parts.len() > 1 {
        Err(KeymapErrorView::NotCombinable(word))
    } else {
        Ok(keymap)
    }
}

/// What a mapping text means. `switchSchema`, `fallback` and `none` are
/// looked for in that order and must stand alone; otherwise every part must
/// name a key.
pub open spec fn parse_keymap_spec(text: Seq<char>) -> Result<KeymapView, KeymapErrorView> {
    let parts = keymap_parts(text);
    if parts.contains("switchSchema"@) {
        standalone(parts, StandaloneWord::SwitchSchema, KeymapView::SwitchSchema)
    } else if parts.contains("fallback"@) {
        standalone(parts, StandaloneWord::Fallback, KeymapView::Fallback)
    } else if parts.contains("none"@) {
        standalone(parts, StandaloneWord::Disabled, KeymapView::Disabled)
    } else {
        match parse_keys(parts) {
            Ok(keys) => Ok(KeymapView::Press(keys)),
            Err(part) => Err(KeymapErrorView::UnknownKey(part)),
        }
    }
}

/// How a mapping is written: key names joined with `+`.
pub open spec fn config_value_spec(keymap: KeymapView) -> Seq<char> {
    match keymap {
        KeymapView::Disabled => "none"@,
        KeymapView::SwitchSchema => "switchSchema"@,
        KeymapView::Fallback => "fallback"@,
        KeymapView::Press(keys) => join(keys.map_values(|k: Key| key_name_spec(k)), seq!['+']),
    }
}

/// A mapping that its written form gives back: pressed keys are at least
/// one, all named, and all different.
pub open spec fn formattable(keymap: KeymapView) -> bool {
    match keymap {
        KeymapView::Press(keys) => {
            &&& keys.len() > 0
            &&& forall|i: int| 0 <= i < keys.len() ==> is_named(#[trigger] keys[i])
            &&& forall|i: int, j: int| 0 <= i < j < keys.len() ==> keys[i] != keys[j]
        },
        _ => true,
    }
}

impl Keymap {
    /// A copy of the mapping.
    pub fn duplicate(&self) -> (r: Keymap)
        ensures
            r@ == self@,
    {
        match self {
            Keymap::Disabled => Keymap::Disabled,
            Keymap::Press(keys) => {
                let mut copy: Vec<Key> = Vec::new();
                for i in 0..keys.len()
                    invariant
                        copy@ == keys@.take(i as int),
                {
                    copy.push(keys[i]);
                    assert(copy@ =~= keys@.take(i + 1));
                }
                assert(copy@ =~= keys@);
                Keymap::Press(copy)
            },
            Keymap::SwitchSchema => Keymap::SwitchSchema,
            Keymap::Fallback => Keymap::Fallback,
        }
    }

    /// The text under which the mapping is written in the configuration.
    pub fn to_config_value(&self) -> (r: String)
        ensures
            r@ == config_value_spec(self@),
    {
        match self {
            Keymap::Disabled => String::from_str("none"),
            Keymap::SwitchSchema => String::from_str("switchSchema"),
            Keymap::Fallback => String::from_str("fallback"),
            Keymap::Press(keys) => {
                let ghost names = keys@.map_values(|k: Key| key_name_spec(k));
                let mut text = String::new();
                proof {
                    reveal_strlit("+");
                    assert("+"@ =~= seq!['+']);
                    assert(names.take(0) =~= Seq::<Seq<char>>::empty());
                }
                for i in 0..keys.len()
                    invariant
                        names == keys@.map_values(|k: Key| key_name_spec(k)),
                        "+"@ == seq!['+'],
                        text@ == join(names.take(i as int), seq!['+']),
                {
                    let name = keys[i].name();
                    if i > 0 {
                        text.append("+");
                    }
                    text.append(name);
                    proof {
                        let t = names.take(i + 1);
                        assert(t.drop_last() =~= names.take(i as int));
                        assert(t.last() == name@);
                        if i == 0 {
                            assert(Seq::<char>::empty() + name@ =~= name@);
                        }
                    }
                }
                assert(names.take(keys.len() as int) =~= names);
                text
            },
        }
    }

    /// Reads a mapping from its text, as `parse_keymap_spec` says.
    pub fn parse(value: &str) -> (r: Result<Keymap, KeymapError>)
        ensures
            keymap_result_view(r) == parse_keymap_spec(value@),
    {
        let chars = chars_of(value);
        let pieces = split_ranges(&chars, '+');
        let ghost trimmed = split(value@, '+').map_values(|p: Seq<char>| trim(p));
        let mut parts: Vec<(usize, usize)> = Vec::new();
        assert(trimmed.take(0) =~= Seq::<Seq<char>>::empty());
        for idx in 0..pieces.len()
            invariant
                chars@ == value@,
                ranges_within(pieces@, chars@.len()),
                range_views(chars@, pieces@) == split(value@, '+'),
                trimmed == split(value@, '+').map_values(|p: Seq<char>| trim(p)),
                ranges_within(parts@, chars@.len()),
                range_views(chars@, parts@) == dedup(trimmed.take(idx as int)),
        {
            let (from, to) = pieces[idx];
            let (f, t) = trim_range(&chars, from, to);
            assert(chars@.subrange(f as int, t as int) == trimmed[idx as int]);
            let ghost seen = range_views(chars@, parts@);
            let mut found = false;
            let mut j: usize = 0;
            while j < parts.len()
                invariant
                    0 <= j <= parts@.len(),
                    ranges_within(parts@, chars@.len()),
                    f <= t <= chars@.len(),
                    seen == range_views(chars@, parts@),
                    found <==> exists|k: int| 0 <= k < j && seen[k] == chars@.subrange(f as int, t as int),
                decreases parts@.len() - j,
            {
                let (pf, pt) = parts[j];
                assert(seen[j as int] == chars@.subrange(pf as int, pt as int));
                if ranges_eq(&chars, pf, pt, f, t) {
                    found = true;
                }
                j = j + 1;
            }
            proof {
                let x = chars@.subrange(f as int, t as int);
                let tk = trimmed.take(idx + 1);
                assert(tk.drop_last() =~= trimmed.take(idx as int));
                assert(tk.last() == x);
                if found {
                    let k = choose|k: int| 0 <= k < parts@.len() && seen[k] == x;
                    assert(seen.contains(x));
                } else {
                    assert(!seen.contains(x));
                }
            }
            if !found {
                let ghost old_parts = parts@;
                parts.push((f, t));
                assert(range_views(chars@, parts@) =~= range_views(chars@, old_parts).push(
                    chars@.subrange(f as int, t as int),
                ));
            }
        }
        assert(trimmed.take(pieces.len() as int) =~= trimmed);
        let ghost part_views = range_views(chars@, parts@);
        assert(part_views == keymap_parts(value@));
        if contains_word(&chars, &parts, "switchSchema") {
            return if parts.len() > 1 {
                Err(KeymapError::NotCombinable(StandaloneWord::SwitchSchema))
            } else {
                Ok(Keymap::SwitchSchema)
            };
        }
        if contains_word(&chars, &parts, "fallback") {
            return if parts.len() > 1 {
                Err(KeymapError::NotCombinable(StandaloneWord::Fallback))
            } else {
                Ok(Keymap::Fallback)
            };
        }
        if contains_word(&chars, &parts, "none") {
            return if parts.len() > 1 {
                Err(KeymapError::NotCombinable(StandaloneWord::Disabled))
            } else {
                Ok(Keymap::Disabled)
            };
        }
        let mut keys: Vec<Key> = Vec::new();
        assert(part_views.take(0) =~= Seq::<Seq<char>>::empty());
        for i in 0..parts.len()
            invariant
                chars@ == value@,
                ranges_within(parts@, chars@.len()),
                part_views == range_views(chars@, parts@),
                part_views == keymap_parts(value@),
                !part_views.contains("switchSchema"@),
                !part_views.contains("fallback"@),
                !part_views.contains("none"@),
                parse_keys(part_views.take(i as int)) == Ok::<Seq<Key>, Seq<char>>(keys@),
        {
            let (f, t) = parts[i];
            let tk = Ghost(part_views.take(i + 1));
            assert(tk@.drop_last() =~= part_views.take(i as int));
            assert(tk@.last() == chars@.subrange(f as int, t as int));
            match key_of_range(&chars, f, t) {
                Some(key) => {
                    keys.push(key);
                },
                None => {
                    proof {
                        assert(parse_keys(tk@) == Err::<Seq<Key>, Seq<char>>(tk@.last()));
                        assert(tk@ == part_views.take(i + 1));
                        lemma_parse_keys_prefix_err(part_views, i + 1);
                        assert(parse_keys(part_views) == Err::<Seq<Key>, Seq<char>>(
                            chars@.subrange(f as int, t as int),
                        ));
                    }
                    let part = value.substring_char(f, t);
                    return Err(KeymapError::UnknownKey(String::from_str(part)));
                },
            }
        }
        assert(part_views.take(parts.len() as int) =~= part_views);
        Ok(Keymap::Press(keys))
    }
}

/// Whether one of the parts `a[r.0..r.1]` spells `word`.
fn contains_word(a: &Vec<char>, parts: &Vec<(usize, usize)>, word: &str) -> (r: bool)
    requires
        ranges_within(parts@, a@.len()),
    ensures
        r == range_views(a@, parts@).contains(word@),
{
    let ghost views = range_views(a@, parts@);
    let mut i: usize = 0;
    while i < parts.len()
        invariant
            0 <= i <= parts@.len(),
            ranges_within(parts@, a@.len()),
            views == range_views(a@, parts@),
            forall|k: int| 0 <= k < i ==> #[trigger] views[k] != word@,
        decreases parts@.len() - i,
    {
        let (f, t) = parts[i];
        if range_eq_str(a, f, t, word) {
            assert(views[i as int] == word@);
            return true;
        }
        i = i + 1;
    }
    proof {
        if views.contains(word@) {
            let k = choose|k: int| 0 <= k < views.len() && views[k] == word@;
            assert(views[k] != word@);
        }
    }
    false
}

/// A failure in a prefix of the parts is the failure of all of them.
proof fn lemma_parse_keys_prefix_err(parts: Seq<Seq<char>>, n: int)
    requires
        0 <= n <= parts.len(),
        parse_keys(parts.take(n)) is Err,
    ensures
        parse_keys(parts) == parse_keys(parts.take(n)),
    decreases parts.len() - n,
{
    if n < parts.len() {
        let t = parts.take(n + 1);
        assert(t.drop_last() =~= parts.take(n));
        lemma_parse_keys_prefix_err(parts, n + 1);
    } else {
        assert(parts.take(n) =~= parts);
    }
}

/// The keys named by their own names.
proof fn lemma_parse_keys_names(keys: Seq<Key>)
    requires
        forall|i: int| 0 <= i < keys.len() ==> is_named(#[trigger] keys[i]),
    ensures
        parse_keys(keys.map_values(|k: Key| key_name_spec(k))) == Ok::<Seq<Key>, Seq<char>>(keys),
    decreases keys.len(),
{
    lemma_key_names();
    if keys.len() > 0 {
        let init = keys.drop_last();
        assert forall|i: int| 0 <= i < init.len() implies is_named(#[trigger] init[i]) by {
            assert(init[i] == keys[i]);
        }
        lemma_parse_keys_names(init);
        assert(keys.map_values(|k: Key| key_name_spec(k)).drop_last() =~= init.map_values(
            |k: Key| key_name_spec(k),
        ));
        let names = keys.map_values(|k: Key| key_name_spec(k));
        assert(is_named(keys[keys.len() - 1]));
        assert(names[keys.len() - 1] == key_name_spec(keys[keys.len() - 1]));
        assert(names.last() == names[keys.len() - 1]);
        assert(keys.last() == keys[keys.len() - 1]);
        assert(key_of_name(names.last()) == Some(keys.last()));
        assert(names.drop_last() == init.map_values(|k: Key| key_name_spec(k)));
        assert(parse_keys(names.drop_last()) == Ok::<Seq<Key>, Seq<char>>(init));
        assert(init.push(keys.last()) =~= keys);
        assert(parse_keys(names) == Ok::<Seq<Key>, Seq<char>>(init.push(keys.last())));
    } else {
        assert(keys =~= Seq::<Key>::empty());
    }
}

/// Reading the written form of a mapping gives the mapping back.
pub proof fn lemma_keymap_roundtrip(keymap: KeymapView)
    requires
        formattable(keymap),
    ensures
        parse_keymap_spec(config_value_spec(keymap)) == Ok::<KeymapView, KeymapErrorView>(keymap),
{
    lemma_key_names();
    reveal_strlit("none");
    reveal_strlit("switchSchema");
    reveal_strlit("fallback");
    assert("none"@.len() == 4 && "switchSchema"@.len() == 12 && "fallback"@.len() == 8);
    let words = seq!["none"@, "switchSchema"@, "fallback"@];
    assert forall|i: int| 0 <= i < 3 implies {
        let w = #[trigger] words[i];
        &&& !w.contains('+')
        &&& w.len() > 0
        &&& !crate::text::is_space(w[0])
        &&& !crate::text::is_space(w.last())
    } by {}
    match keymap {
        KeymapView::Press(keys) => {
            let names = keys.map_values(|k: Key| key_name_spec(k));
            assert forall|i: int| 0 <= i < names.len() implies plain_name(#[trigger] names[i]) by {
                assert(is_named(keys[i]));
            }
            lemma_split_join(names, '+');
            let pieces = split(join(names, seq!['+']), '+');
            assert(pieces.map_values(|p: Seq<char>| trim(p)) =~= names) by {
                assert forall|i: int| 0 <= i < names.len() implies trim(#[trigger] names[i])
                    == names[i] by {
                    assert(plain_name(names[i]));
                    lemma_trim_plain(names[i]);
                }
            }
            assert(all_distinct(names)) by {
                assert forall|i: int, j: int| 0 <= i < j < names.len() implies names[i]
                    != names[j] by {
                    assert(is_named(keys[i]) && is_named(keys[j]));
                    assert(keys[i] != keys[j]);
                }
            }
            lemma_dedup_distinct(names);
            assert(keymap_parts(config_value_spec(keymap)) == names);
            assert(!names.contains("switchSchema"@) && !names.contains("fallback"@)
                && !names.contains("none"@)) by {
                if names.contains("switchSchema"@) || names.contains("fallback"@)
                    || names.contains("none"@) {
                    let k = choose|k: int|
                        0 <= k < names.len() && (names[k] == "switchSchema"@ || names[k]
                            == "fallback"@ || names[k] == "none"@);
                    assert(plain_name(names[k]));
                }
            }
            lemma_parse_keys_names(keys);
        },
        _ => {
            let w = config_value_spec(keymap);
            assert(words.contains(w)) by {
                if w == "none"@ {
                    assert(words[0] == w);
                } else if w == "switchSchema"@ {
                    assert(words[1] == w);
                } else {
                    assert(words[2] == w);
                }
            }
            let k = choose|k: int| 0 <= k < 3 && words[k] == w;
            assert(!words[k].contains('+'));
            lemma_split_join(seq![w], '+');
            assert(join(seq![w], seq!['+']) == w);
            lemma_trim_plain(w);
            let ps = seq![w];
            assert(split(w, '+').map_values(|p: Seq<char>| trim(p)) =~= ps);
            assert(all_distinct(ps));
            lemma_dedup_distinct(ps);
            assert(keymap_parts(w) == ps);
            assert(ps[0] == w);
            assert(ps.contains(w));
            assert(ps.contains("switchSchema"@) ==> w == "switchSchema"@);
            assert(ps.contains("fallback"@) ==> w == "fallback"@);
        },
    }
}

/// What a mapping text gives, when it gives one, is written in a form that
/// reads back to the same mapping.
pub proof fn lemma_parsed_formattable(text: Seq<char>)
    requires
        parse_keymap_spec(text) is Ok,
    ensures
        formattable(parse_keymap_spec(text)->Ok_0),
        parse_keymap_spec(config_value_spec(parse_keymap_spec(text)->Ok_0)) == parse_keymap_spec(
            text,
        ),
{
    let parts = keymap_parts(text);
    lemma_dedup_props(split(text, '+').map_values(|p: Seq<char>| trim(p)));
    lemma_split_len(text, '+');
    lemma_key_names();
    if let KeymapView::Press(keys) = parse_keymap_spec(text)->Ok_0 {
        lemma_parse_keys_facts(parts);
        let m = split(text, '+').map_values(|p: Seq<char>| trim(p));
        assert(m[0] == trim(split(text, '+')[0]));
        assert(m.contains(m[0]));
        assert(parts.len() > 0);
    }
    lemma_keymap_roundtrip(parse_keymap_spec(text)->Ok_0);
}

/// Keys read from parts that differ are named, differ, and are as many as the parts.
proof fn lemma_parse_keys_facts(parts: Seq<Seq<char>>)
    requires
        all_distinct(parts),
        parse_keys(parts) is Ok,
    ensures
        parse_keys(parts)->Ok_0.len() == parts.len(),
        forall|i: int| 0 <= i < parts.len() ==> key_of_name(#[trigger] parts[i]) == Some(
            parse_keys(parts)->Ok_0[i],
        ),
        forall|i: int|
            0 <= i < parts.len() ==> is_named(#[trigger] parse_keys(parts)->Ok_0[i]),
        forall|i: int, j: int|
            0 <= i < j < parts.len() ==> parse_keys(parts)->Ok_0[i] != parse_keys(parts)->Ok_0[j],
    decreases parts.len(),
{
    lemma_key_names();
    if parts.len() > 0 {
        let init = parts.drop_last();
        assert(all_distinct(init)) by {
            assert forall|i: int, j: int| 0 <= i < j < init.len() implies init[i] != init[j] by {
                assert(init[i] == parts[i] && init[j] == parts[j]);
            }
        }
        lemma_parse_keys_facts(init);
        let keys = parse_keys(parts)->Ok_0;
        let ikeys = parse_keys(init)->Ok_0;
        assert(keys == ikeys.push(keys.last()));
        assert forall|i: int| 0 <= i < parts.len() implies key_of_name(#[trigger] parts[i])
            == Some(keys[i]) by {
            if i < init.len() {
                assert(init[i] == parts[i]);
            }
        }
        assert forall|i: int, j: int| 0 <= i < j < parts.len() implies keys[i] != keys[j] by {
            assert(key_of_name(parts[i]) == Some(keys[i]));
            assert(key_of_name(parts[j]) == Some(keys[j]));
            assert(parts[i] != parts[j]);
        }
    }
}

/// The mappings of one schema, one per control.
#[derive(Clone, Debug, PartialEq, Eq)]
pub struct KeymapConfig {
    keymaps: [Keymap; CONTROL_COUNT],
}

impl View for KeymapConfig {
    type V = Seq<KeymapView>;

    closed spec fn view(&self) -> Seq<KeymapView> {
        self.keymaps@.map_values(|k: Keymap| k@)
    }
}

/// A schema in which every control has the same mapping.
pub open spec fn uniform_schema(keymap: KeymapView) -> Seq<KeymapView> {
    Seq::new(CONTROL_COUNT as nat, |i: int| keymap)
}

impl KeymapConfig {
    fn uniform(keymap: &Keymap) -> (r: KeymapConfig)
        ensures
            r@ == uniform_schema(keymap@),
    {
        let r = KeymapConfig {
            keymaps: [
                keymap.duplicate(),
                keymap.duplicate(),
                keymap.duplicate(),
                keymap.duplicate(),
                keymap.duplicate(),
                keymap.duplicate(),
                keymap.duplicate(),
                keymap.duplicate(),
                keymap.duplicate(),
                keymap.duplicate(),
                keymap.duplicate(),
                keymap.duplicate(),
                keymap.duplicate(),
            ],
        };
        assert(r@ =~= uniform_schema(keymap@));
        r
    }

    /// A copy of the schema.
    pub fn clone_schema(&self) -> (r: KeymapConfig)
        ensures
            r@ == self@,
            r@.len() == CONTROL_COUNT,
    {
        let r = KeymapConfig {
            keymaps: [
                self.keymaps[0].duplicate(),
                self.keymaps[1].duplicate(),
                self.keymaps[2].duplicate(),
                self.keymaps[3].duplicate(),
                self.keymaps[4].duplicate(),
                self.keymaps[5].duplicate(),
                self.keymaps[6].duplicate(),
                self.keymaps[7].duplicate(),
                self.keymaps[8].duplicate(),
                self.keymaps[9].duplicate(),
                self.keymaps[10].duplicate(),
                self.keymaps[11].duplicate(),
                self.keymaps[12].duplicate(),
            ],
        };
        assert(r@ =~= self@);
        r
    }

    /// Every control disabled; the schema that a configuration without any starts from.
    pub fn none() -> (r: KeymapConfig)
        ensures
            r@ == uniform_schema(KeymapView::Disabled),
            r@.len() == CONTROL_COUNT,
    {
        KeymapConfig::uniform(&Keymap::Disabled)
    }

    /// The mapping of a control.
    pub fn get(&self, control: Control) -> (r: &Keymap)
        ensures
            self@.len() == CONTROL_COUNT,
            r@ == self@[control.index_spec()],
    {
        &self.keymaps[control.index()]
    }

    /// Gives a control a new mapping.
    pub fn set(&mut self, control: Control, keymap: Keymap)
        ensures
            old(self)@.len() == CONTROL_COUNT,
            final(self)@ == old(self)@.update(control.index_spec(), keymap@),
            final(self)@.len() == CONTROL_COUNT,
            final(self)@[control.index_spec()] == keymap@,
            forall|other: Control|
                other != control ==> final(self)@[#[trigger] other.index_spec()] == old(
                    self,
                )@[other.index_spec()],
    {
        let ghost k = keymap@;
        let i = control.index();
        self.keymaps[i] = keymap;
        assert(self@ =~= old(self)@.update(control.index_spec(), k));
    }

    /// The written form of every mapping, in the order of the controls.
    pub fn to_values(&self) -> (r: Vec<String>)
        ensures
            r@.len() == CONTROL_COUNT,
            self@.len() == CONTROL_COUNT,
            r@.map_values(|v: String| v@) == self@.map_values(|k: KeymapView| config_value_spec(k)),
    {
        let mut values: Vec<String> = Vec::new();
        for i in 0..CONTROL_COUNT
            invariant
                values@.len() == i,
                i <= self.keymaps@.len(),
                forall|j: int| 0 <= j < i ==> (#[trigger] values@[j])@ == config_value_spec(
                    self.keymaps@[j]@,
                ),
        {
            values.push(self.keymaps[i].to_config_value());
        }
        assert(values@.map_values(|v: String| v@) =~= self@.map_values(
            |k: KeymapView| config_value_spec(k),
        ));
        values
    }

    /// Reads a schema from the written form of every mapping, in the order of
    /// the controls; the first mapping that is refused is reported with its control.
    pub fn from_values(values: &Vec<String>) -> (r: Result<KeymapConfig, (Control, KeymapError)>)
        requires
            values@.len() == CONTROL_COUNT,
        ensures
            schema_result_view(r) == schema_from_values_spec(values@.map_values(|v: String| v@)),
            r matches Ok(c) ==> c@.len() == CONTROL_COUNT,
    {
        let ghost texts = values@.map_values(|v: String| v@);
        let mut config = KeymapConfig::default();
        assert(texts.take(0) =~= Seq::<Seq<char>>::empty());
        assert(config@.take(0) =~= Seq::<KeymapView>::empty());
        for i in 0..values.len()
            invariant
                values@.len() == CONTROL_COUNT,
                texts == values@.map_values(|v: String| v@),
                config@.len() == CONTROL_COUNT,
                schema_from_values_spec(texts.take(i as int)) == Ok::<
                    Seq<KeymapView>,
                    (Control, KeymapErrorView),
                >(config@.take(i as int)),
        {
            let t = Ghost(texts.take(i + 1));
            assert(t@.drop_last() =~= texts.take(i as int));
            assert(t@.last() == values@[i as int]@);
            let control = Control::from_index(i).unwrap();
            match Keymap::parse(values[i].as_str()) {
                Ok(keymap) => {
                    let ghost before = config@;
                    config.set(control, keymap);
                    assert(config@.take(i + 1) =~= before.take(i as int).push(config@[i as int]));
                },
                Err(e) => {
                    proof {
                        lemma_schema_prefix_err(texts, i + 1);
                    }
                    return Err((control, e));
                },
            }
        }
        assert(texts.take(values.len() as int) =~= texts);
        assert(config@.take(CONTROL_COUNT as int) =~= config@);
        Ok(config)
    }
}

impl Default for KeymapConfig {
    /// Every control falls back on the schema before.
    fn default() -> (r: KeymapConfig)
        ensures
            r@ == uniform_schema(KeymapView::Fallback),
            r@.len() == CONTROL_COUNT,
    {
        KeymapConfig::uniform(&Keymap::Fallback)
    }
}

/// Every schema has one mapping per control.
pub proof fn lemma_schema_len(schema: KeymapConfig)
    ensures
        schema@.len() == CONTROL_COUNT,
{
}

/// Giving a control a mapping: reading that control gives the mapping back,
/// and every other control keeps the mapping it had.
pub proof fn lemma_set_then_get(
    before: Seq<KeymapView>,
    control: Control,
    keymap: KeymapView,
    other: Control,
)
    requires
        before.len() == CONTROL_COUNT,
    ensures
        before.update(control.index_spec(), keymap)[control.index_spec()] == keymap,
        other != control ==> before.update(control.index_spec(), keymap)[other.index_spec()]
            == before[other.index_spec()],
        before.update(control.index_spec(), keymap).len() == CONTROL_COUNT,
{
}

pub open spec fn schema_result_view(r: Result<KeymapConfig, (Control, KeymapError)>) -> Result<
    Seq<KeymapView>,
    (Control, KeymapErrorView),
> {
    match r {
        Ok(c) => Ok(c@),
        Err((control, e)) => Err((control, e@)),
    }
}

/// The mappings that written forms stand for, or the first one refused with
/// the control at its place.
pub open spec fn schema_from_values_spec(texts: Seq<Seq<char>>) -> Result<
    Seq<KeymapView>,
    (Control, KeymapErrorView),
>
    decreases texts.len(),
{
    if texts.len() == 0 {
        Ok(Seq::<KeymapView>::empty())
    } else {
        match schema_from_values_spec(texts.drop_last()) {
            Err(e) => Err(e),
            Ok(keymaps) => match parse_keymap_spec(texts.last()) {
                Ok(k) => Ok(keymaps.push(k)),
                Err(e) => Err((Control::at_spec(texts.len() - 1)->0, e)),
            },
        }
    }
}

proof fn lemma_schema_prefix_err(texts: Seq<Seq<char>>, n: int)
    requires
        0 <= n <= texts.len(),
        schema_from_values_spec(texts.take(n)) is Err,
    ensures
        schema_from_values_spec(texts) == schema_from_values_spec(texts.take(n)),
    decreases texts.len() - n,
{
    if n < texts.len() {
        let t = texts.take(n + 1);
        assert(t.drop_last() =~= texts.take(n));
        lemma_schema_prefix_err(texts, n + 1);
    } else {
        assert(texts.take(n) =~= texts);
    }
}

/// Reading back the written form of a schema whose mappings are all
/// formattable gives the schema.
pub proof fn lemma_schema_roundtrip(keymaps: Seq<KeymapView>)
    requires
        forall|i: int| 0 <= i < keymaps.len() ==> formattable(#[trigger] keymaps[i]),
    ensures
        schema_from_values_spec(keymaps.map_values(|k: KeymapView| config_value_spec(k)))
            == Ok::<Seq<KeymapView>, (Control, KeymapErrorView)>(keymaps),
    decreases keymaps.len(),
{
    if keymaps.len() == 0 {
        assert(keymaps =~= Seq::<KeymapView>::empty());
    } else {
        let init = keymaps.drop_last();
        assert forall|i: int| 0 <= i < init.len() implies formattable(#[trigger] init[i]) by {
            assert(init[i] == keymaps[i]);
        }
        lemma_schema_roundtrip(init);
        let texts = keymaps.map_values(|k: KeymapView| config_value_spec(k));
        assert(texts.drop_last() =~= init.map_values(|k: KeymapView| config_value_spec(k)));
        assert(formattable(keymaps[keymaps.len() - 1]));
        assert(texts.last() == config_value_spec(keymaps.last()));
        lemma_keymap_roundtrip(keymaps.last());
        assert(init.push(keymaps.last()) =~= keymaps);
    }
}

/// The mapping schemas: each gives every control a mapping, and the one at
/// `keymap_index` was in use last.
#[derive(Clone, Debug, PartialEq, Eq)]
pub struct Config {
    pub keymaps: Vec<KeymapConfig>,
    pub keymap_index: usize,
}

/// Why a configuration was refused: the schema, the control, and the reason.
#[derive(Clone, Debug, PartialEq, Eq)]
pub struct ConfigError {
    pub schema: usize,
    pub control: Control,
    pub error: KeymapError,
}

impl Config {
    /// The schemas as the contracts see them.
    pub open spec fn schemas(self) -> Seq<Seq<KeymapView>> {
        self.keymaps@.map_values(|k: KeymapConfig| k@)
    }
}

impl Default for Config {
    /// One schema with every control disabled.
    fn default() -> (r: Config)
        ensures
            r.schemas() == seq![uniform_schema(KeymapView::Disabled)],
            r.keymap_index == 0,
    {
        let mut keymaps: Vec<KeymapConfig> = Vec::new();
        keymaps.push(KeymapConfig::none());
        let r = Config { keymaps, keymap_index: 0 };
        assert(r.schemas() =~= seq![uniform_schema(KeymapView::Disabled)]);
        r
    }
}

/// The mapping that applies to a control in schema `index`, looking at the
/// schemas before it for as long as the mapping is `Fallback`.
pub open spec fn resolve_from(schemas: Seq<Seq<KeymapView>>, index: int, control: Control) -> KeymapView
    decreases index,
{
    if index <= 0 {
        match schemas[0][control.index_spec()] {
            KeymapView::Fallback => KeymapView::Disabled,
            k => k,
        }
    } else {
        match schemas[index][control.index_spec()] {
            KeymapView::Fallback => resolve_from(schemas, index - 1, control),
            k => k,
        }
    }
}

/// `resolve_from` with the index taken no further than the last schema.
pub open spec fn resolve_spec(schemas: Seq<Seq<KeymapView>>, index: int, control: Control) -> KeymapView {
    resolve_from(schemas, if index < schemas.len() { index } else { schemas.len() - 1 }, control)
}

/// The schemas that the written forms stand for, or the first refusal.
pub open spec fn schemas_from_values_spec(texts: Seq<Seq<Seq<char>>>) -> Result<
    Seq<Seq<KeymapView>>,
    (int, Control, KeymapErrorView),
>
    decreases texts.len(),
{
    if texts.len() == 0 {
        Ok(Seq::<Seq<KeymapView>>::empty())
    } else {
        match schemas_from_values_spec(texts.drop_last()) {
            Err(e) => Err(e),
            Ok(schemas) => match schema_from_values_spec(texts.last()) {
                Ok(schema) => Ok(schemas.push(schema)),
                Err((control, e)) => Err((texts.len() - 1, control, e)),
            },
        }
    }
}

/// What reading a configuration gives: the schemas, where there are none a
/// disabled one, and the last index where it names a schema, else 0.
pub open spec fn config_from_values_spec(texts: Seq<Seq<Seq<char>>>, keymap_index: usize) -> Result<
    (Seq<Seq<KeymapView>>, usize),
    (int, Control, KeymapErrorView),
> {
    match schemas_from_values_spec(texts) {
        Err(e) => Err(e),
        Ok(schemas) => {
            let schemas = if schemas.len() == 0 {
                seq![uniform_schema(KeymapView::Disabled)]
            } else {
                schemas
            };
            Ok((schemas, if keymap_index < schemas.len() { keymap_index } else { 0 }))
        },
    }
}

pub open spec fn config_result_view(r: Result<Config, ConfigError>) -> Result<
    (Seq<Seq<KeymapView>>, usize),
    (int, Control, KeymapErrorView),
> {
    match r {
        Ok(c) => Ok((c.schemas(), c.keymap_index)),
        Err(e) => Err((e.schema as int, e.control, e.error@)),
    }
}

/// The texts of every schema as they are written.
pub open spec fn schemas_values_spec(schemas: Seq<Seq<KeymapView>>) -> Seq<Seq<Seq<char>>> {
    schemas.map_values(|s: Seq<KeymapView>| s.map_values(|k: KeymapView| config_value_spec(k)))
}

pub open spec fn texts_of(values: Seq<Vec<String>>) -> Seq<Seq<Seq<char>>> {
    values.map_values(|v: Vec<String>| v@.map_values(|s: String| s@))
}

proof fn lemma_schemas_prefix_err(texts: Seq<Seq<Seq<char>>>, n: int)
    requires
        0 <= n <= texts.len(),
        schemas_from_values_spec(texts.take(n)) is Err,
    ensures
        schemas_from_values_spec(texts) == schemas_from_values_spec(texts.take(n)),
    decreases texts.len() - n,
{
    if n < texts.len() {
        let t = texts.take(n + 1);
        assert(t.drop_last() =~= texts.take(n));
        lemma_schemas_prefix_err(texts, n + 1);
    } else {
        assert(texts.take(n) =~= texts);
    }
}

impl Config {
    /// The mapping that applies to a control in schema `index`: a `Fallback`
    /// mapping defers to the schema before, and in the first schema means
    /// nothing. An index past the last schema stands for the last.
    pub fn resolve(&self, index: usize, control: Control) -> (r: Keymap)
        requires
            self.keymaps@.len() > 0,
        ensures
            r@ == resolve_spec(self.schemas(), index as int, control),
    {
        let ghost schemas = self.schemas();
        let mut i = if index < self.keymaps.len() {
            index
        } else {
            self.keymaps.len() - 1
        };
        let ghost start = i;
        loop
            invariant
                schemas == self.schemas(),
                i < self.keymaps@.len(),
                resolve_spec(schemas, index as int, control) == resolve_from(
                    schemas,
                    i as int,
                    control,
                ),
            decreases i,
        {
            let keymap = self.keymaps[i].get(control);
            assert(schemas[i as int] == self.keymaps@[i as int]@);
            match keymap {
                Keymap::Fallback => {
                    if i == 0 {
                        return Keymap::Disabled;
                    }
                    i = i - 1;
                },
                _ => {
                    return keymap.duplicate();
                },
            }
        }
    }

    /// Reads the schemas from the written form of every mapping, schema by
    /// schema and control by control; the first refusal is reported.
    pub fn parse_schemas(values: &Vec<Vec<String>>) -> (r: Result<Vec<KeymapConfig>, ConfigError>)
        requires
            forall|i: int| 0 <= i < values@.len() ==> (#[trigger] values@[i])@.len() == CONTROL_COUNT,
        ensures
            match r {
                Ok(keymaps) => schemas_from_values_spec(texts_of(values@)) == Ok::<
                    Seq<Seq<KeymapView>>,
                    (int, Control, KeymapErrorView),
                >(keymaps@.map_values(|k: KeymapConfig| k@)),
                Err(e) => schemas_from_values_spec(texts_of(values@)) == Err::<
                    Seq<Seq<KeymapView>>,
                    (int, Control, KeymapErrorView),
                >((e.schema as int, e.control, e.error@)),
            },
    {
        let ghost texts = texts_of(values@);
        let mut keymaps: Vec<KeymapConfig> = Vec::new();
        assert(texts.take(0) =~= Seq::<Seq<Seq<char>>>::empty());
        assert(keymaps@.map_values(|k: KeymapConfig| k@) =~= Seq::<Seq<KeymapView>>::empty());
        for i in 0..values.len()
            invariant
                texts == texts_of(values@),
                forall|i: int| 0 <= i < values@.len() ==> (#[trigger] values@[i])@.len() == CONTROL_COUNT,
                schemas_from_values_spec(texts.take(i as int)) == Ok::<
                    Seq<Seq<KeymapView>>,
                    (int, Control, KeymapErrorView),
                >(keymaps@.map_values(|k: KeymapConfig| k@)),
        {
            let t = Ghost(texts.take(i + 1));
            assert(t@.drop_last() =~= texts.take(i as int));
            assert(t@.last() == values@[i as int]@.map_values(|s: String| s@));
            match KeymapConfig::from_values(&values[i]) {
                Ok(schema) => {
                    let ghost before = keymaps@;
                    keymaps.push(schema);
                    assert(keymaps@.map_values(|k: KeymapConfig| k@) =~= before.map_values(
                        |k: KeymapConfig| k@,
                    ).push(keymaps@.last()@));
                },
                Err((control, error)) => {
                    proof {
                        lemma_schemas_prefix_err(texts, i + 1);
                    }
                    return Err(ConfigError { schema: i, control, error });
                },
            }
        }
        assert(texts.take(values.len() as int) =~= texts);
        Ok(keymaps)
    }

    /// Reads a configuration from the written form of every mapping, as
    /// `config_from_values_spec` says.
    pub fn from_values(values: &Vec<Vec<String>>, keymap_index: usize) -> (r: Result<Config, ConfigError>)
        requires
            forall|i: int| 0 <= i < values@.len() ==> (#[trigger] values@[i])@.len() == CONTROL_COUNT,
        ensures
            config_result_view(r) == config_from_values_spec(texts_of(values@), keymap_index),
    {
        let mut keymaps = match Config::parse_schemas(values) {
            Ok(keymaps) => keymaps,
            Err(e) => return Err(e),
        };
        let ghost parsed = keymaps@.map_values(|k: KeymapConfig| k@);
        if keymaps.len() == 0 {
            keymaps.push(KeymapConfig::none());
        }
        let index = if keymap_index < keymaps.len() {
            keymap_index
        } else {
            0
        };
        let r = Config { keymaps, keymap_index: index };
        assert(r.schemas() =~= (if parsed.len() == 0 {
            seq![uniform_schema(KeymapView::Disabled)]
        } else {
            parsed
        }));
        Ok(r)
    }

    /// The written form of every mapping, schema by schema.
    pub fn to_values(&self) -> (r: Vec<Vec<String>>)
        ensures
            texts_of(r@) == schemas_values_spec(self.schemas()),
            r@.len() == self.keymaps@.len(),
            forall|i: int| 0 <= i < r@.len() ==> (#[trigger] r@[i])@.len() == CONTROL_COUNT,
    {
        let mut values: Vec<Vec<String>> = Vec::new();
        for i in 0..self.keymaps.len()
            invariant
                values@.len() == i,
                i <= self.keymaps@.len(),
                forall|j: int| 0 <= j < i ==> (#[trigger] values@[j])@.map_values(|s: String| s@)
                    == self.keymaps@[j]@.map_values(|k: KeymapView| config_value_spec(k)),
                forall|j: int| 0 <= j < i ==> (#[trigger] values@[j])@.len() == CONTROL_COUNT,
        {
            values.push(self.keymaps[i].to_values());
        }
        assert(texts_of(values@) =~= schemas_values_spec(self.schemas()));
        values
    }

    /// The schema index taken no further than the last schema.
    pub fn clamped_index(&self) -> (r: usize)
        ensures
            self.keymaps@.len() == 0 ==> r == 0,
            self.keymaps@.len() > 0 ==> r == if self.keymap_index < self.keymaps@.len() {
                self.keymap_index as int
            } else {
                self.keymaps@.len() - 1
            },
    {
        if self.keymaps.len() == 0 {
            0
        } else if self.keymap_index < self.keymaps.len() {
            self.keymap_index
        } else {
            self.keymaps.len() - 1
        }
    }

    /// Adds a schema in which every control falls back, right after the
    /// schema `current` (at the end if there is none after it); returns its index.
    pub fn insert_schema(&mut self, current: usize) -> (r: usize)
        requires
            current < usize::MAX,
        ensures
            r == if current + 1 < old(self).keymaps@.len() {
                current + 1
            } else {
                old(self).keymaps@.len() as int
            },
            final(self).schemas() == old(self).schemas().insert(
                r as int,
                uniform_schema(KeymapView::Fallback),
            ),
            final(self).keymap_index == old(self).keymap_index,
    {
        let at = if current + 1 < self.keymaps.len() {
            current + 1
        } else {
            self.keymaps.len()
        };
        let ghost before = self.schemas();
        self.keymaps.insert(at, KeymapConfig::default());
        assert(self.schemas() =~= before.insert(at as int, uniform_schema(KeymapView::Fallback)));
        at
    }

    /// Removes the schema `current` (the last one if `current` is past it),
    /// unless it is the only one; returns the index of the schema now in use.
    pub fn remove_schema(&mut self, current: usize) -> (r: Option<usize>)
        ensures
            old(self).keymaps@.len() <= 1 ==> r is None && final(self).schemas() == old(
                self,
            ).schemas(),
            old(self).keymaps@.len() > 1 ==> {
                let removed = if current < old(self).keymaps@.len() {
                    current as int
                } else {
                    old(self).keymaps@.len() - 1
                };
                &&& final(self).schemas() == old(self).schemas().remove(removed)
                &&& r == Some(
                    (if removed < final(self).keymaps@.len() {
                        removed
                    } else {
                        final(self).keymaps@.len() - 1
                    }) as usize,
                )
            },
            final(self).keymap_index == old(self).keymap_index,
    {
        if self.keymaps.len() <= 1 {
            return None;
        }
        let index = if current < self.keymaps.len() {
            current
        } else {
            self.keymaps.len() - 1
        };
        let ghost before = self.schemas();
        self.keymaps.remove(index);
        assert(self.schemas() =~= before.remove(index as int));
        if index < self.keymaps.len() {
            Some(index)
        } else {
            Some(self.keymaps.len() - 1)
        }
    }

    /// Gives a control of schema `schema` the mapping that `value` stands for,
    /// or `Disabled` where `value` stands for none; nothing happens, and false
    /// comes back, where there is no such schema.
    pub fn set_entry(&mut self, schema: usize, control: Control, value: &str) -> (r: bool)
        ensures
            r == (schema < old(self).keymaps@.len()),
            final(self).keymap_index == old(self).keymap_index,
            r ==> final(self).schemas() == old(self).schemas().update(
                schema as int,
                old(self).schemas()[schema as int].update(
                    control.index_spec(),
                    match parse_keymap_spec(value@) {
                        Ok(k) => k,
                        Err(_) => KeymapView::Disabled,
                    },
                ),
            ),
            !r ==> final(self).schemas() == old(self).schemas(),
    {
        if schema >= self.keymaps.len() {
            return false;
        }
        let keymap = match Keymap::parse(value) {
            Ok(k) => k,
            Err(_) => Keymap::Disabled,
        };
        let ghost before = self.schemas();
        let mut entry = self.keymaps[schema].clone_schema();
        entry.set(control, keymap);
        self.keymaps.set(schema, entry);
        assert(self.schemas() =~= before.update(
            schema as int,
            before[schema as int].update(
                control.index_spec(),
                match parse_keymap_spec(value@) {
                    Ok(k) => k,
                    Err(_) => KeymapView::Disabled,
                },
            ),
        ));
        true
    }
}

/// The mapping that applies never falls back.
pub proof fn lemma_resolve_never_fallback(schemas: Seq<Seq<KeymapView>>, index: int, control: Control)
    ensures
        !(resolve_from(schemas, index, control) is Fallback),
    decreases index,
{
    if index > 0 {
        lemma_resolve_never_fallback(schemas, index - 1, control);
    }
}

/// A mapping other than `Fallback` applies as it is; a `Fallback` one gives
/// what applies in the schema before.
pub proof fn lemma_resolve_step(schemas: Seq<Seq<KeymapView>>, index: int, control: Control)
    requires
        0 < index < schemas.len(),
    ensures
        !(schemas[index][control.index_spec()] is Fallback) ==> resolve_spec(schemas, index, control)
            == schemas[index][control.index_spec()],
        schemas[index][control.index_spec()] is Fallback ==> resolve_spec(schemas, index, control)
            == resolve_spec(schemas, index - 1, control),
{
}

/// Reading back the written form of a configuration whose mappings are all
/// formattable gives its schemas and index back.
pub proof fn lemma_config_roundtrip(schemas: Seq<Seq<KeymapView>>, keymap_index: usize)
    requires
        schemas.len() > 0,
        keymap_index < schemas.len(),
        forall|i: int, j: int|
            0 <= i < schemas.len() && 0 <= j < schemas[i].len() ==> formattable(
                #[trigger] schemas[i][j],
            ),
    ensures
        config_from_values_spec(schemas_values_spec(schemas), keymap_index) == Ok::<
            (Seq<Seq<KeymapView>>, usize),
            (int, Control, KeymapErrorView),
        >((schemas, keymap_index)),
{
    lemma_schemas_roundtrip(schemas);
}

/// Every schema of a configuration has one mapping per control.
pub proof fn lemma_config_schema_lens(config: Config)
    ensures
        forall|i: int|
            0 <= i < config.schemas().len() ==> (#[trigger] config.schemas()[i]).len() == CONTROL_COUNT,
{
    assert forall|i: int| 0 <= i < config.schemas().len() implies (#[trigger] config.schemas()[i]).len()
        == CONTROL_COUNT by {
        lemma_schema_len(config.keymaps@[i]);
    }
}

/// Saving a configuration and reading it back: the written rows have one
/// text per control, so they can be read again, and where every mapping is
/// formattable and the index names a schema, reading them gives the same
/// schemas and index.
pub proof fn lemma_config_save_load(config: Config)
    requires
        config.keymaps@.len() > 0,
        config.keymap_index < config.keymaps@.len(),
        forall|i: int, j: int|
            0 <= i < config.schemas().len() && 0 <= j < config.schemas()[i].len() ==> formattable(
                #[trigger] config.schemas()[i][j],
            ),
    ensures
        forall|i: int|
            0 <= i < schemas_values_spec(config.schemas()).len() ==> (
            #[trigger] schemas_values_spec(config.schemas())[i]).len() == CONTROL_COUNT,
        config_from_values_spec(schemas_values_spec(config.schemas()), config.keymap_index) == Ok::<
            (Seq<Seq<KeymapView>>, usize),
            (int, Control, KeymapErrorView),
        >((config.schemas(), config.keymap_index)),
{
    lemma_config_schema_lens(config);
    lemma_config_roundtrip(config.schemas(), config.keymap_index);
}

proof fn lemma_schemas_roundtrip(schemas: Seq<Seq<KeymapView>>)
    requires
        forall|i: int, j: int|
            0 <= i < schemas.len() && 0 <= j < schemas[i].len() ==> formattable(
                #[trigger] schemas[i][j],
            ),
    ensures
        schemas_from_values_spec(schemas_values_spec(schemas)) == Ok::<
            Seq<Seq<KeymapView>>,
            (int, Control, KeymapErrorView),
        >(schemas),
    decreases schemas.len(),
{
    if schemas.len() == 0 {
        assert(schemas =~= Seq::<Seq<KeymapView>>::empty());
    } else {
        let init = schemas.drop_last();
        assert forall|i: int, j: int|
            0 <= i < init.len() && 0 <= j < init[i].len() implies formattable(
                #[trigger] init[i][j],
            ) by {
            assert(init[i] == schemas[i]);
        }
        lemma_schemas_roundtrip(init);
        let texts = schemas_values_spec(schemas);
        assert(texts.drop_last() =~= schemas_values_spec(init));
        let last = schemas.last();
        assert forall|j: int| 0 <= j < last.len() implies formattable(#[trigger] last[j]) by {
            assert(last == schemas[schemas.len() - 1]);
            assert(formattable(schemas[schemas.len() - 1][j]));
        }
        lemma_schema_roundtrip(last);
        assert(texts.last() == last.map_values(|k: KeymapView| config_value_spec(k)));
        assert(init.push(last) =~= schemas);
    }
}

/// Which corner of the tablet area stays put when the area is trimmed to the
/// proportions of the screen.
#[derive(Clone, Copy, Debug, PartialEq, Eq, Structural)]
pub enum AreaAnchor {
    TopLeft,
    TopRight,
    BottomLeft,
    BottomRight,
}

impl Default for AreaAnchor {
    fn default() -> (r: AreaAnchor)
        ensures
            r == AreaAnchor::TopLeft,
    {
        AreaAnchor::TopLeft
    }
}

/// How an anchor is written in the configuration.
pub open spec fn anchor_value_spec(anchor: AreaAnchor) -> Seq<char> {
    match anchor {
        AreaAnchor::TopLeft => "topLeft"@,
        AreaAnchor::TopRight => "topRight"@,
        AreaAnchor::BottomLeft => "bottomLeft"@,
        AreaAnchor::BottomRight => "bottomRight"@,
    }
}

/// The anchor a text stands for; any text but the other three means top left.
pub open spec fn anchor_of_value(value: Seq<char>) -> AreaAnchor {
    if value == "topRight"@ {
        AreaAnchor::TopRight
    } else if value == "bottomLeft"@ {
        AreaAnchor::BottomLeft
    } else if value == "bottomRight"@ {
        AreaAnchor::BottomRight
    } else {
        AreaAnchor::TopLeft
    }
}

impl AreaAnchor {
    /// All anchors, in the order they are offered.
    pub fn all() -> (r: [AreaAnchor; 4])
        ensures
            r@ == seq![
                AreaAnchor::TopLeft,
                AreaAnchor::TopRight,
                AreaAnchor::BottomLeft,
                AreaAnchor::BottomRight,
            ],
    {
        let r = [AreaAnchor::TopLeft, AreaAnchor::TopRight, AreaAnchor::BottomLeft, AreaAnchor::BottomRight];
        assert(r@ =~= seq![
            AreaAnchor::TopLeft,
            AreaAnchor::TopRight,
            AreaAnchor::BottomLeft,
            AreaAnchor::BottomRight,
        ]);
        r
    }

    /// The anchor picked at place `index` of the list of anchors; a place
    /// before the first picks the first, one past the last the default.
    pub fn selected(index: i32) -> (r: AreaAnchor)
        ensures
            r == if index <= 0 {
                AreaAnchor::TopLeft
            } else if index == 1 {
                AreaAnchor::TopRight
            } else if index == 2 {
                AreaAnchor::BottomLeft
            } else if index == 3 {
                AreaAnchor::BottomRight
            } else {
                AreaAnchor::TopLeft
            },
    {
        let all = AreaAnchor::all();
        if index <= 0 {
            all[0]
        } else if index < 4 {
            let i: usize = index as usize;
            all[i]
        } else {
            AreaAnchor::default()
        }
    }

    /// The text that names the anchor on screen.
    pub fn label(&self) -> (r: &'static str)
        ensures
            r@ == match *self {
                AreaAnchor::TopLeft => "对齐左上角"@,
                AreaAnchor::TopRight => "对齐右上角"@,
                AreaAnchor::BottomLeft => "对齐左下角"@,
                AreaAnchor::BottomRight => "对齐右下角"@,
            },
    {
        match self {
            AreaAnchor::TopLeft => "对齐左上角",
            AreaAnchor::TopRight => "对齐右上角",
            AreaAnchor::BottomLeft => "对齐左下角",
            AreaAnchor::BottomRight => "对齐右下角",
        }
    }

    /// Whether the anchor is on the right edge.
    pub fn is_right(&self) -> (r: bool)
        ensures
            r == (*self == AreaAnchor::TopRight || *self == AreaAnchor::BottomRight),
    {
        match self {
            AreaAnchor::TopRight | AreaAnchor::BottomRight => true,
            _ => false,
        }
    }

    /// Whether the anchor is on the bottom edge.
    pub fn is_bottom(&self) -> (r: bool)
        ensures
            r == (*self == AreaAnchor::BottomLeft || *self == AreaAnchor::BottomRight),
    {
        match self {
            AreaAnchor::BottomLeft | AreaAnchor::BottomRight => true,
            _ => false,
        }
    }

    /// The text under which the anchor is written in the configuration.
    pub fn to_config_value(self) -> (r: &'static str)
        ensures
            r@ == anchor_value_spec(self),
    {
        match self {
            AreaAnchor::TopLeft => "topLeft",
            AreaAnchor::TopRight => "topRight",
            AreaAnchor::BottomLeft => "bottomLeft",
            AreaAnchor::BottomRight => "bottomRight",
        }
    }

    /// Reads an anchor; an unknown text means top left.
    pub fn parse(value: &str) -> (r: AreaAnchor)
        ensures
            r == anchor_of_value(value@),
    {
        if crate::text::str_eq(value, "topRight") {
            AreaAnchor::TopRight
        } else if crate::text::str_eq(value, "bottomLeft") {
            AreaAnchor::BottomLeft
        } else if crate::text::str_eq(value, "bottomRight") {
            AreaAnchor::BottomRight
        } else {
            AreaAnchor::TopLeft
        }
    }
}

/// Reading the written form of an anchor gives the anchor back.
pub proof fn lemma_anchor_roundtrip(anchor: AreaAnchor)
    ensures
        anchor_of_value(anchor_value_spec(anchor)) == anchor,
{
    reveal_strlit("topLeft");
    reveal_strlit("topRight");
    reveal_strlit("bottomLeft");
    reveal_strlit("bottomRight");
    assert("topLeft"@.len() == 7 && "topRight"@.len() == 8 && "bottomLeft"@.len() == 10
        && "bottomRight"@.len() == 11);
}

} // verus!
