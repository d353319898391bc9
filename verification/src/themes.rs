//! Settings shapes the host persists, and the pure rules on them: theme
//! identifiers, color parsing and formatting, and the default system
//! shortcuts.

use vstd::prelude::*;
use crate::text;

verus! {

use vstd::string::StrSliceExecFns;
use vstd::string::StringExecFns;

#[derive(Debug, Clone)]
pub struct ShortcutMapping {
    pub shortcut: String,
    pub folder: String,
    pub enabled: bool,
}

#[derive(Debug, Clone)]
pub struct CustomTemplate {
    pub name: String,
    pub body: String,
}

#[derive(Debug, Clone)]
pub struct ThemeColors {
    pub bg: String,
    pub surface: String,
    pub ink: String,
    pub stone: String,
    pub line: String,
    pub accent: String,
    pub accent_light: String,
    pub accent_dark: String,
}

#[derive(Debug, Clone)]
pub struct CustomThemeDefinition {
    pub id: String,
    pub name: String,
    pub is_dark: bool,
    pub colors: ThemeColors,
}

// ───────────────────────── system shortcuts ─────────────────────────

/// The built-in global shortcut bindings, as action/shortcut pairs.
pub fn default_system_shortcuts() -> (r: Vec<(String, String)>)
    ensures
        r.deep_view() == seq![
            ("search"@, "Cmd+Shift+P"@),
            ("manager"@, "Cmd+Shift+M"@),
            ("settings"@, "Cmd+Shift+Comma"@),
            ("last_note"@, "Cmd+Shift+L"@),
            ("zen_mode"@, "Cmd+Period"@),
        ],
{
    let mut v: Vec<(String, String)> = Vec::new();
    v.push((String::from_str("search"), String::from_str("Cmd+Shift+P")));
    v.push((String::from_str("manager"), String::from_str("Cmd+Shift+M")));
    v.push((String::from_str("settings"), String::from_str("Cmd+Shift+Comma")));
    v.push((String::from_str("last_note"), String::from_str("Cmd+Shift+L")));
    v.push((String::from_str("zen_mode"), String::from_str("Cmd+Period")));
    proof {
        assert(v.deep_view() =~= seq![
            ("search"@, "Cmd+Shift+P"@),
            ("manager"@, "Cmd+Shift+M"@),
            ("settings"@, "Cmd+Shift+Comma"@),
            ("last_note"@, "Cmd+Shift+L"@),
            ("zen_mode"@, "Cmd+Period"@),
        ]);
    }
    v
}

/// Actions handled inside the app only, never registered as OS-level
/// global shortcuts.
pub fn local_only_actions() -> (r: Vec<String>)
    ensures
        r.deep_view() == seq!["zen_mode"@],
{
    let mut v: Vec<String> = Vec::new();
    v.push(String::from_str("zen_mode"));
    proof {
        assert(v.deep_view() =~= seq!["zen_mode"@]);
    }
    v
}

/// An action has a binding in the list.
pub open spec fn has_action(s: Seq<(Seq<char>, Seq<char>)>, action: Seq<char>) -> bool {
    exists|i: int| 0 <= i < s.len() && (#[trigger] s[i]).0 == action
}

fn contains_action(shortcuts: &Vec<(String, String)>, action: &str) -> (r: bool)
    ensures
        r == has_action(shortcuts.deep_view(), action@),
{
    let mut i: usize = 0;
    while i < shortcuts.len()
        invariant
            i <= shortcuts@.len(),
            forall|k: int| 0 <= k < i ==> (#[trigger] shortcuts.deep_view()[k]).0 != action@,
        decreases shortcuts@.len() - i,
    {
        proof {
            assert(shortcuts.deep_view()[i as int].0 == shortcuts@[i as int].0@);
        }
        if text::str_eq(shortcuts[i].0.as_str(), action) {
            return true;
        }
        i += 1;
    }
    false
}

fn add_default_if_missing(shortcuts: &mut Vec<(String, String)>, action: &str, binding: &str)
    ensures
        has_action(final(shortcuts).deep_view(), action@),
        final(shortcuts).deep_view().subrange(0, old(shortcuts).deep_view().len() as int) == old(
            shortcuts,
        ).deep_view(),
        final(shortcuts).deep_view().len() >= old(shortcuts).deep_view().len(),
        forall|k: int|
            old(shortcuts).deep_view().len() <= k < final(shortcuts).deep_view().len() ==> (
            #[trigger] final(shortcuts).deep_view()[k]) == (action@, binding@),
        forall|a: Seq<char>|
            has_action(old(shortcuts).deep_view(), a) ==> has_action(
                final(shortcuts).deep_view(),
                a,
            ),
{
    if !contains_action(shortcuts, action) {
        let ghost before = shortcuts.deep_view();
        shortcuts.push((action.to_owned(), binding.to_owned()));
        proof {
            assert(shortcuts.deep_view() =~= before.push((action@, binding@)));
            assert(shortcuts.deep_view().subrange(0, before.len() as int) =~= before);
            assert(shortcuts.deep_view()[before.len() as int].0 == action@);
            assert forall|a: Seq<char>| has_action(before, a) implies has_action(
                shortcuts.deep_view(),
                a,
            ) by {
                let w = choose|i: int| 0 <= i < before.len() && (#[trigger] before[i]).0 == a;
                assert(shortcuts.deep_view()[w].0 == a);
            }
        }
    } else {
        proof {
            assert(final(shortcuts).deep_view().subrange(
                0,
                old(shortcuts).deep_view().len() as int,
            ) =~= old(shortcuts).deep_view());
        }
    }
}

/// Fills in any missing default bindings; existing bindings are never
/// replaced, and anything appended is one of the defaults.
pub fn normalize_system_shortcuts(shortcuts: &mut Vec<(String, String)>)
    ensures
        final(shortcuts).deep_view().subrange(0, old(shortcuts).deep_view().len() as int) == old(
            shortcuts,
        ).deep_view(),
        has_action(final(shortcuts).deep_view(), "search"@),
        has_action(final(shortcuts).deep_view(), "manager"@),
        has_action(final(shortcuts).deep_view(), "settings"@),
        has_action(final(shortcuts).deep_view(), "last_note"@),
        has_action(final(shortcuts).deep_view(), "zen_mode"@),
{
    let ghost orig = shortcuts.deep_view();
    add_default_if_missing(shortcuts, "search", "Cmd+Shift+P");
    add_default_if_missing(shortcuts, "manager", "Cmd+Shift+M");
    add_default_if_missing(shortcuts, "settings", "Cmd+Shift+Comma");
    add_default_if_missing(shortcuts, "last_note", "Cmd+Shift+L");
    add_default_if_missing(shortcuts, "zen_mode", "Cmd+Period");
    proof {
        let fin = shortcuts.deep_view();
        assert(fin.subrange(0, orig.len() as int) =~= orig);
    }
}

// ───────────────────────── theme identifiers ─────────────────────────

/// One of the legacy theme modes.
pub open spec fn legacy_theme_mode(mode: Seq<char>) -> bool {
    mode == "system"@ || mode == "light"@ || mode == "dark"@
}

pub fn is_legacy_theme_mode(mode: &str) -> (r: bool)
    ensures
        r == legacy_theme_mode(mode@),
{
    text::str_eq(mode, "system") || text::str_eq(mode, "light") || text::str_eq(mode, "dark")
}

/// One of the built-in theme identifiers.
pub open spec fn builtin_theme_id(id: Seq<char>) -> bool {
    ||| id == "light"@
    ||| id == "dark"@
    ||| id == "sepia"@
    ||| id == "nord"@
    ||| id == "rose-pine"@
    ||| id == "solarized-light"@
    ||| id == "solarized-dark"@
    ||| id == "dracula"@
    ||| id == "tokyo-night"@
}

fn is_builtin_theme_id(id: &str) -> (r: bool)
    ensures
        r == builtin_theme_id(id@),
{
    text::str_eq(id, "light") || text::str_eq(id, "dark") || text::str_eq(id, "sepia")
        || text::str_eq(id, "nord") || text::str_eq(id, "rose-pine") || text::str_eq(
        id,
        "solarized-light",
    ) || text::str_eq(id, "solarized-dark") || text::str_eq(id, "dracula") || text::str_eq(
        id,
        "tokyo-night",
    )
}

/// An active theme is valid when unset, legacy, built in, or one of the
/// custom themes.
pub fn is_valid_active_theme(active_theme: &str, custom_themes: &Vec<CustomThemeDefinition>) -> (r:
    bool)
    ensures
        r == (active_theme@.len() == 0 || legacy_theme_mode(active_theme@) || builtin_theme_id(
            active_theme@,
        ) || (exists|i: int|
            0 <= i < custom_themes@.len() && (#[trigger] custom_themes@[i]).id@ == active_theme@)),
{
    if active_theme.unicode_len() == 0 || is_legacy_theme_mode(active_theme)
        || is_builtin_theme_id(active_theme) {
        return true;
    }
    let mut i: usize = 0;
    while i < custom_themes.len()
        invariant
            i <= custom_themes@.len(),
            forall|k: int| 0 <= k < i ==> (#[trigger] custom_themes@[k]).id@ != active_theme@,
        decreases custom_themes@.len() - i,
    {
        if text::str_eq(custom_themes[i].id.as_str(), active_theme) {
            return true;
        }
        i += 1;
    }
    false
}

// ───────────────────────── colors ─────────────────────────

/// The string after its leading hash marks.
pub open spec fn strip_hashes(s: Seq<char>) -> Seq<char>
    decreases s.len(),
{
    if s.len() > 0 && s[0] == '#' {
        strip_hashes(s.drop_first())
    } else {
        s
    }
}

proof fn lemma_strip_hashes_at(s: Seq<char>, i: int)
    requires
        0 <= i <= s.len(),
        forall|k: int| 0 <= k < i ==> s[k] == '#',
        i < s.len() ==> s[i] != '#',
    ensures
        strip_hashes(s) == s.subrange(i, s.len() as int),
    decreases i,
{
    if i == 0 {
        assert(s.subrange(0, s.len() as int) =~= s);
    } else {
        lemma_strip_hashes_at(s.drop_first(), i - 1);
        assert(s.drop_first().subrange(i - 1, s.drop_first().len() as int) =~= s.subrange(
            i,
            s.len() as int,
        ));
    }
}

/// A word that denotes a byte value in decimal.
pub open spec fn byte_word(s: Seq<char>) -> Option<int> {
    if 1 <= s.len() <= 9 && text::all_digits(s) && text::dec_value(s) <= 255 {
        Some(text::dec_value(s))
    } else {
        None
    }
}

/// A hex color pair's value.
pub open spec fn hex_pair(s: Seq<char>, i: int) -> int {
    16 * text::hex_val(s[i]) + text::hex_val(s[i + 1])
}

/// What a color setting normalizes to: "r g b" in decimal, from either a
/// six-digit hex form (after leading hashes) or three decimal byte words.
pub open spec fn color_value_spec(color: Seq<char>) -> Option<Seq<char>> {
    let t = text::trim_spec(color);
    if t.len() > 0 && t[0] == '#' {
        let h = strip_hashes(t);
        if h.len() == 6 && (forall|k: int| 0 <= k < 6 ==> text::is_hex_digit_char(#[trigger] h[k])) {
            Some(
                text::dec_seq(hex_pair(h, 0)) + " "@ + text::dec_seq(hex_pair(h, 2)) + " "@
                    + text::dec_seq(hex_pair(h, 4)),
            )
        } else {
            None
        }
    } else {
        let w = text::words_spec(t);
        if w.len() == 3 && byte_word(w[0]) is Some && byte_word(w[1]) is Some && byte_word(w[2])
            is Some {
            Some(
                text::dec_seq(byte_word(w[0])->0) + " "@ + text::dec_seq(byte_word(w[1])->0) + " "@
                    + text::dec_seq(byte_word(w[2])->0),
            )
        } else {
            None
        }
    }
}

/// Normalizes a color setting, rejecting anything that is neither a
/// six-digit hex color nor an "r g b" byte triple.
pub fn parse_color_value(color: &str) -> (r: Option<String>)
    ensures
        r is Some <==> color_value_spec(color@) is Some,
        r is Some ==> r->0@ == color_value_spec(color@)->0,
{
    let trimmed = text::trim(color);
    let t = trimmed.as_str();
    let n = t.unicode_len();
    if n > 0 && t.get_char(0) == '#' {
        let mut i: usize = 0;
        while i < n && t.get_char(i) == '#'
            invariant
                i <= n,
                n == t@.len(),
                forall|k: int| 0 <= k < i ==> t@[k] == '#',
            decreases n - i,
        {
            i += 1;
        }
        proof {
            lemma_strip_hashes_at(t@, i as int);
        }
        let hex = t.substring_char(i, n);
        if hex.unicode_len() != 6 {
            return None;
        }
        let p0 = text::parse_u8_hex2(hex.substring_char(0, 2));
        let p1 = text::parse_u8_hex2(hex.substring_char(2, 4));
        let p2 = text::parse_u8_hex2(hex.substring_char(4, 6));
        proof {
            assert(hex@.subrange(0, 2)[0] == hex@[0] && hex@.subrange(0, 2)[1] == hex@[1]);
            assert(hex@.subrange(2, 4)[0] == hex@[2] && hex@.subrange(2, 4)[1] == hex@[3]);
            assert(hex@.subrange(4, 6)[0] == hex@[4] && hex@.subrange(4, 6)[1] == hex@[5]);
        }
        match (p0, p1, p2) {
            (Some(r0), Some(g0), Some(b0)) => {
                let mut out = text::u32_to_dec(r0 as u32);
                out.append(" ");
                out.append(text::u32_to_dec(g0 as u32).as_str());
                out.append(" ");
                out.append(text::u32_to_dec(b0 as u32).as_str());
                proof {
                    assert(out@ =~= color_value_spec(color@)->0);
                }
                Some(out)
            },
            _ => None,
        }
    } else {
        let words = text::split_words(t);
        if words.len() != 3 {
            proof {
                assert(text::words_spec(t@).len() != 3);
            }
            return None;
        }
        proof {
            assert(words.deep_view()[0] == words[0int]@);
            assert(words.deep_view()[1] == words[1int]@);
            assert(words.deep_view()[2] == words[2int]@);
        }
        let p0 = text::parse_u8_dec(words[0].as_str());
        let p1 = text::parse_u8_dec(words[1].as_str());
        let p2 = text::parse_u8_dec(words[2].as_str());
        match (p0, p1, p2) {
            (Some(r0), Some(g0), Some(b0)) => {
                let mut out = text::u32_to_dec(r0 as u32);
                out.append(" ");
                out.append(text::u32_to_dec(g0 as u32).as_str());
                out.append(" ");
                out.append(text::u32_to_dec(b0 as u32).as_str());
                proof {
                    assert(out@ =~= color_value_spec(color@)->0);
                }
                Some(out)
            },
            _ => None,
        }
    }
}

/// Validates and normalizes every color of a theme; the first invalid field
/// is reported by name.
pub fn parse_theme_colors(colors: ThemeColors) -> (r: Result<ThemeColors, String>)
    ensures
        r is Ok <==> (color_value_spec(colors.bg@) is Some && color_value_spec(colors.surface@)
            is Some && color_value_spec(colors.ink@) is Some && color_value_spec(colors.stone@)
            is Some && color_value_spec(colors.line@) is Some && color_value_spec(colors.accent@)
            is Some && color_value_spec(colors.accent_light@) is Some && color_value_spec(
            colors.accent_dark@,
        ) is Some),
        r is Ok ==> ({
            let c = r->Ok_0;
            &&& c.bg@ == color_value_spec(colors.bg@)->0
            &&& c.surface@ == color_value_spec(colors.surface@)->0
            &&& c.ink@ == color_value_spec(colors.ink@)->0
            &&& c.stone@ == color_value_spec(colors.stone@)->0
            &&& c.line@ == color_value_spec(colors.line@)->0
            &&& c.accent@ == color_value_spec(colors.accent@)->0
            &&& c.accent_light@ == color_value_spec(colors.accent_light@)->0
            &&& c.accent_dark@ == color_value_spec(colors.accent_dark@)->0
        }),
{
    let bg = match parse_color_value(colors.bg.as_str()) {
        Some(v) => v,
        None => {
            return Err(String::from_str("Invalid color format for bg"));
        },
    };
    let surface = match parse_color_value(colors.surface.as_str()) {
        Some(v) => v,
        None => {
            return Err(String::from_str("Invalid color format for surface"));
        },
    };
    let ink = match parse_color_value(colors.ink.as_str()) {
        Some(v) => v,
        None => {
            return Err(String::from_str("Invalid color format for ink"));
        },
    };
    let stone = match parse_color_value(colors.stone.as_str()) {
        Some(v) => v,
        None => {
            return Err(String::from_str("Invalid color format for stone"));
        },
    };
    let line = match parse_color_value(colors.line.as_str()) {
        Some(v) => v,
        None => {
            return Err(String::from_str("Invalid color format for line"));
        },
    };
    let accent = match parse_color_value(colors.accent.as_str()) {
        Some(v) => v,
        None => {
            return Err(String::from_str("Invalid color format for accent"));
        },
    };
    let accent_light = match parse_color_value(colors.accent_light.as_str()) {
        Some(v) => v,
        None => {
            return Err(String::from_str("Invalid color format for accent_light"));
        },
    };
    let accent_dark = match parse_color_value(colors.accent_dark.as_str()) {
        Some(v) => v,
        None => {
            return Err(String::from_str("Invalid color format for accent_dark"));
        },
    };
    Ok(ThemeColors { bg, surface, ink, stone, line, accent, accent_light, accent_dark })
}

/// The byte values among the whitespace-separated words.
pub open spec fn parsed_bytes(ws: Seq<Seq<char>>) -> Seq<int>
    decreases ws.len(),
{
    if ws.len() == 0 {
        Seq::<int>::empty()
    } else {
        let rest = parsed_bytes(ws.drop_first());
        match byte_word(ws[0]) {
            Some(v) => seq![v] + rest,
            None => rest,
        }
    }
}

/// Renders an "r g b" triple back to "#rrggbb"; anything else is returned
/// unchanged.
pub fn color_to_hex(rgb: &str) -> (r: String)
    ensures
        parsed_bytes(text::words_spec(rgb@)).len() >= 3 ==> r@ == "#"@ + seq![
            text::hex_digit_char(parsed_bytes(text::words_spec(rgb@))[0] / 16),
            text::hex_digit_char(parsed_bytes(text::words_spec(rgb@))[0] % 16),
            text::hex_digit_char(parsed_bytes(text::words_spec(rgb@))[1] / 16),
            text::hex_digit_char(parsed_bytes(text::words_spec(rgb@))[1] % 16),
            text::hex_digit_char(parsed_bytes(text::words_spec(rgb@))[2] / 16),
            text::hex_digit_char(parsed_bytes(text::words_spec(rgb@))[2] % 16),
        ],
        parsed_bytes(text::words_spec(rgb@)).len() < 3 ==> r@ == rgb@,
{
    let words = text::split_words(rgb);
    let ghost wv = words.deep_view();
    let mut parts: Vec<u8> = Vec::new();
    let mut i: usize = 0;
    proof {
        assert(wv.skip(0) =~= wv);
        assert(parts@.map_values(|b: u8| b as int) =~= Seq::<int>::empty());
        assert(parts@.map_values(|b: u8| b as int) + parsed_bytes(wv) =~= parsed_bytes(wv));
    }
    while i < words.len()
        invariant
            i <= words.len(),
            words.deep_view() == wv,
            wv.len() == words.len(),
            parsed_bytes(wv) == parts@.map_values(|b: u8| b as int) + parsed_bytes(
                wv.skip(i as int),
            ),
        decreases words.len() - i,
    {
        proof {
            assert(wv.skip(i as int)[0] == wv[i as int]);
            assert(wv.skip(i as int).drop_first() =~= wv.skip(i + 1 as int));
            assert(wv[i as int] == words[i as int]@);
        }
        match text::parse_u8_dec(words[i].as_str()) {
            Some(b) => {
                let ghost old_parts = parts@;
                parts.push(b);
                proof {
                    assert(parts@.map_values(|b0: u8| b0 as int) =~= old_parts.map_values(
                        |b0: u8| b0 as int,
                    ).push(b as int));
                    assert(old_parts.map_values(|b0: u8| b0 as int) + (seq![b as int]
                        + parsed_bytes(wv.skip(i + 1 as int))) =~= parts@.map_values(
                        |b0: u8| b0 as int,
                    ) + parsed_bytes(wv.skip(i + 1 as int)));
                }
            },
            None => {},
        }
        i += 1;
    }
    proof {
        assert(wv.skip(words.len() as int) =~= Seq::<Seq<char>>::empty());
        assert(parts@.map_values(|b: u8| b as int) + parsed_bytes(
            wv.skip(words.len() as int),
        ) =~= parts@.map_values(|b: u8| b as int));
    }
    if parts.len() >= 3 {
        let mut out = String::from_str("#");
        out.append(text::u8_to_hex2(parts[0]).as_str());
        out.append(text::u8_to_hex2(parts[1]).as_str());
        out.append(text::u8_to_hex2(parts[2]).as_str());
        proof {
            reveal_strlit("#");
            assert(parts@.map_values(|b: u8| b as int)[0] == parts@[0] as int);
            assert(parts@.map_values(|b: u8| b as int)[1] == parts@[1] as int);
            assert(parts@.map_values(|b: u8| b as int)[2] == parts@[2] as int);
            assert(out@ =~= "#"@ + seq![
                text::hex_digit_char(parsed_bytes(text::words_spec(rgb@))[0] / 16),
                text::hex_digit_char(parsed_bytes(text::words_spec(rgb@))[0] % 16),
                text::hex_digit_char(parsed_bytes(text::words_spec(rgb@))[1] / 16),
                text::hex_digit_char(parsed_bytes(text::words_spec(rgb@))[1] % 16),
                text::hex_digit_char(parsed_bytes(text::words_spec(rgb@))[2] / 16),
                text::hex_digit_char(parsed_bytes(text::words_spec(rgb@))[2] % 16),
            ]);
        }
        out
    } else {
        rgb.to_owned()
    }
}

} // verus!
