//! Colours taken from the desktop: pywal's palette and Hyprland's active border.
//! The launcher should look like a window of the system, not an app apart.
use vstd::prelude::*;

use crate::config::views;
use crate::text::{
    chars_of, decimal, decimal_string, digit, digit_char, is_suffix_of, is_white, is_whitespace,
    owned, push_char, push_str, string_of,
};

verus! {

/// The launcher's colours.
pub struct Theme {
    pub background: String,
    pub foreground: String,
    pub accent: String,
    /// Colours and angle of Hyprland's active border, when available.
    pub border: Option<(Vec<String>, u32)>,
}

/// Fallback palette when pywal is not there: background.
pub open spec fn fallback_background() -> Seq<char> {
    "#1d1a24"@
}

/// Fallback palette when pywal is not there: foreground.
pub open spec fn fallback_foreground() -> Seq<char> {
    "#d4cfd8"@
}

/// Fallback palette when pywal is not there: accent.
pub open spec fn fallback_accent() -> Seq<char> {
    "#e29b69"@
}

// ---------------------------------------------------------------------------
// Specifications
// ---------------------------------------------------------------------------

/// Words of `s` split at white space, with the word still being read
/// (`str::split_whitespace`, read left to right).
pub open spec fn words_acc(s: Seq<char>) -> (Seq<Seq<char>>, Seq<char>)
    decreases s.len(),
{
    if s.len() == 0 {
        (Seq::empty(), Seq::empty())
    } else {
        let (ws, cur) = words_acc(s.drop_last());
        let c = s.last();
        if is_white(c) {
            if cur.len() > 0 {
                (ws.push(cur), Seq::empty())
            } else {
                (ws, cur)
            }
        } else {
            (ws, cur.push(c))
        }
    }
}

/// The maximal runs of non-white characters of `s` (`str::split_whitespace`).
pub open spec fn words(s: Seq<char>) -> Seq<Seq<char>> {
    let (ws, cur) = words_acc(s);
    if cur.len() > 0 {
        ws.push(cur)
    } else {
        ws
    }
}

/// An ASCII decimal digit.
pub open spec fn is_digit(c: char) -> bool {
    '0' <= c <= '9'
}

/// The value of an ASCII hexadecimal digit.
pub open spec fn hex_value(c: char) -> int {
    if '0' <= c <= '9' {
        c as int - 48
    } else if 'a' <= c <= 'f' {
        c as int - 87
    } else {
        c as int - 55
    }
}

/// An ASCII hexadecimal digit (`char::is_ascii_hexdigit`).
pub open spec fn is_hex(c: char) -> bool {
    ('0' <= c <= '9') || ('a' <= c <= 'f') || ('A' <= c <= 'F')
}

/// Value of a string of decimal digits.
pub open spec fn digits_value(d: Seq<char>) -> int
    decreases d.len(),
{
    if d.len() == 0 {
        0
    } else {
        digits_value(d.drop_last()) * 10 + (d.last() as int - 48)
    }
}

/// What `str::parse::<u32>` accepts: an optional `+`, then decimal digits whose
/// value fits in a `u32`.
pub open spec fn parse_u32_spec(s: Seq<char>) -> Option<u32> {
    let d = unsigned_digits(s);
    if d.len() > 0 && all_digits(d) && digits_value(d) <= u32::MAX {
        Some(digits_value(d) as u32)
    } else {
        None
    }
}

/// `s` without one leading `+`.
pub open spec fn unsigned_digits(s: Seq<char>) -> Seq<char> {
    if s.len() > 0 && s[0] == '+' {
        s.drop_first()
    } else {
        s
    }
}

/// Every character of `d` is a decimal digit.
pub open spec fn all_digits(d: Seq<char>) -> bool {
    forall|i: int| 0 <= i < d.len() ==> is_digit(#[trigger] d[i])
}

/// `a / 255` written with two decimals, rounded to nearest (`{:.2}` of the fraction).
pub open spec fn two_decimals(a: int) -> Seq<char> {
    let h = (200 * a + 255) / 510;
    seq![digit_char((h / 100) as nat), '.', digit_char(((h / 10) % 10) as nat), digit_char((h % 10) as nat)]
}

/// A CSS colour for the Hyprland colour `AARRGGBB`: `alpha(#RRGGBB, A)`.
pub open spec fn alpha_color(t: Seq<char>) -> Seq<char> {
    "alpha(#"@ + t.subrange(2, 8) + ", "@ + two_decimals(hex_value(t[0]) * 16 + hex_value(t[1]))
        + ")"@
}

/// A Hyprland colour: eight hexadecimal digits.
pub open spec fn is_hypr_color(t: Seq<char>) -> bool {
    t.len() == 8 && forall|i: int| 0 <= i < 8 ==> is_hex(#[trigger] t[i])
}

/// The colours and angle read from the tokens, or `None` once an angle fails to parse.
pub open spec fn gradient_acc(tokens: Seq<Seq<char>>) -> Option<(Seq<Seq<char>>, u32)>
    decreases tokens.len(),
{
    if tokens.len() == 0 {
        Some((Seq::empty(), 0))
    } else {
        match gradient_acc(tokens.drop_last()) {
            None => None,
            Some((colors, angle)) => {
                let t = tokens.last();
                if is_suffix_of("deg"@, t) {
                    match parse_u32_spec(t.subrange(0, t.len() - "deg"@.len())) {
                        Some(a) => Some((colors, a)),
                        None => None,
                    }
                } else if is_hypr_color(t) {
                    Some((colors.push(alpha_color(t)), angle))
                } else {
                    Some((colors, angle))
                }
            },
        }
    }
}

/// Hyprland's `col.active_border` (`"ee33ccff ee00ff99 45deg"`, colours in
/// AARRGGBB) as CSS colours and an angle; `None` without colours or with a bad angle.
pub open spec fn parse_gradient_spec(s: Seq<char>) -> Option<(Seq<Seq<char>>, u32)> {
    match gradient_acc(words(s)) {
        Some((colors, angle)) => if colors.len() > 0 {
            Some((colors, angle))
        } else {
            None
        },
        None => None,
    }
}

/// The items of `s` joined by `sep`.
pub open spec fn join(s: Seq<Seq<char>>, sep: Seq<char>) -> Seq<char>
    decreases s.len(),
{
    if s.len() == 0 {
        Seq::empty()
    } else if s.len() == 1 {
        s[0]
    } else {
        join(s.drop_last(), sep) + sep + s.last()
    }
}

/// Joining a concatenation joins each part and puts the separator between them;
/// one item joins to itself and nothing to nothing. These three facts determine a
/// join: every item in order, with `sep` between each two neighbours.
pub proof fn lemma_join_concat(s: Seq<Seq<char>>, t: Seq<Seq<char>>, sep: Seq<char>)
    ensures
        join(Seq::empty(), sep) == Seq::<char>::empty(),
        t.len() == 1 ==> join(t, sep) == t[0],
        s.len() > 0 && t.len() > 0 ==> join(s + t, sep) == join(s, sep) + sep + join(t, sep),
    decreases t.len(),
{
    if s.len() > 0 && t.len() > 0 {
        let u = s + t;
        if t.len() == 1 {
            assert(u.drop_last() =~= s);
            assert(u.last() == t[0]);
        } else {
            let t1 = t.drop_last();
            lemma_join_concat(s, t1, sep);
            assert(u.drop_last() =~= s + t1);
            assert(u.last() == t.last());
            assert(join(u, sep) == join(s + t1, sep) + sep + t.last());
            assert(join(t, sep) == join(t1, sep) + sep + t.last());
            assert(join(u, sep) =~= join(s, sep) + sep + join(t, sep));
        }
    }
}

/// The base colours as GTK CSS colour definitions.
pub open spec fn colors_css_spec(bg: Seq<char>, fg: Seq<char>, accent: Seq<char>) -> Seq<char> {
    "@define-color runner_bg "@ + bg + ";\n@define-color runner_fg "@ + fg
        + ";\n@define-color runner_accent "@ + accent + ";\n"@
}

/// The gradient border rule, or nothing.
pub open spec fn border_css_spec(border: Option<(Seq<Seq<char>>, u32)>) -> Seq<char> {
    match border {
        None => Seq::empty(),
        Some((colors, angle)) => {
            let stops = if colors.len() == 1 {
                colors[0] + ", "@ + colors[0]
            } else {
                join(colors, ", "@)
            };
            "window.runner > .runner-frame { border-image: linear-gradient("@ + decimal(angle as nat)
                + "deg, "@ + stops + ") 1; }\n"@
        },
    }
}

// ---------------------------------------------------------------------------
// Lemmas
// ---------------------------------------------------------------------------

proof fn lemma_digits_value_take(d: Seq<char>, i: int)
    requires
        0 <= i < d.len(),
    ensures
        digits_value(d.take(i + 1)) == digits_value(d.take(i)) * 10 + (d[i] as int - 48),
{
    assert(d.take(i + 1).drop_last() == d.take(i));
}

proof fn lemma_digits_value_grows(d: Seq<char>, i: int)
    requires
        0 <= i <= d.len(),
        forall|j: int| 0 <= j < d.len() ==> is_digit(#[trigger] d[j]),
    ensures
        digits_value(d) >= digits_value(d.take(i)) >= 0,
    decreases d.len() - i,
{
    if i < d.len() {
        lemma_digits_value_take(d, i);
        lemma_digits_value_grows(d, i + 1);
        lemma_digits_value_nonneg(d.take(i));
    } else {
        assert(d.take(i) == d);
        lemma_digits_value_nonneg(d);
    }
}

proof fn lemma_digits_value_nonneg(d: Seq<char>)
    requires
        forall|j: int| 0 <= j < d.len() ==> is_digit(#[trigger] d[j]),
    ensures
        digits_value(d) >= 0,
    decreases d.len(),
{
    if d.len() > 0 {
        let t = d.drop_last();
        assert forall|j: int| 0 <= j < t.len() implies is_digit(#[trigger] t[j]) by {
            assert(t[j] == d[j]);
        }
        lemma_digits_value_nonneg(t);
        assert(is_digit(d[d.len() - 1]));
    }
}

// ---------------------------------------------------------------------------
// Executable code
// ---------------------------------------------------------------------------

/// `str::parse::<u32>` over characters.
pub fn parse_u32(s: &[char]) -> (r: Option<u32>)
    ensures
        r == parse_u32_spec(s@),
{
    let mut i: usize = 0;
    if s.len() > 0 && s[0] == '+' {
        i = 1;
    }
    let ghost d = unsigned_digits(s@);
    assert(d == s@.skip(i as int));
    if i >= s.len() {
        return None;
    }
    let start = i;
    let mut value: u64 = 0;
    while i < s.len()
        invariant
            start <= i <= s@.len(),
            d == s@.skip(start as int),
            d == unsigned_digits(s@),
            start <= 1,
            value == digits_value(d.take(i - start)),
            value <= u32::MAX,
            forall|j: int| 0 <= j < i - start ==> is_digit(#[trigger] d[j]),
        decreases s@.len() - i,
    {
        let c = s[i];
        assert(c == d[i - start]);
        if !('0' <= c && c <= '9') {
            assert(!is_digit(d[i - start]));
            assert(!all_digits(d));
            return None;
        }
        proof {
            lemma_digits_value_take(d, i - start);
        }
        value = value * 10 + (c as u64 - 48);
        i = i + 1;
        if value > 0xffff_ffff {
            proof {
                assert(value == digits_value(d.take(i - start)));
                if all_digits(d) {
                    lemma_digits_value_grows(d, i - start);
                    assert(digits_value(d) > u32::MAX);
                }
            }
            return None;
        }
    }
    assert(d.take(i - start) == d);
    Some(value as u32)
}

/// `char::is_ascii_hexdigit`.
fn is_hex_digit(c: char) -> (r: bool)
    ensures
        r == is_hex(c),
{
    ('0' <= c && c <= '9') || ('a' <= c && c <= 'f') || ('A' <= c && c <= 'F')
}

/// The value of a hexadecimal digit.
fn hex_digit_value(c: char) -> (r: u32)
    requires
        is_hex(c),
    ensures
        r == hex_value(c),
        r < 16,
{
    if '0' <= c && c <= '9' {
        c as u32 - 48
    } else if 'a' <= c && c <= 'f' {
        c as u32 - 87
    } else {
        c as u32 - 55
    }
}

/// `alpha(#RRGGBB, A)` for a Hyprland colour `AARRGGBB`.
fn alpha_color_string(t: &[char]) -> (r: String)
    requires
        is_hypr_color(t@),
    ensures
        r@ == alpha_color(t@),
{
    let a = hex_digit_value(t[0]) * 16 + hex_digit_value(t[1]);
    let h = (200 * a + 255) / 510;
    let mut r = owned("alpha(#");
    let rgb = string_of(slice_range(t, 2, 8).as_slice());
    push_str(&mut r, rgb.as_str());
    push_str(&mut r, ", ");
    push_char(&mut r, digit(h / 100));
    push_char(&mut r, '.');
    push_char(&mut r, digit((h / 10) % 10));
    push_char(&mut r, digit(h % 10));
    push_str(&mut r, ")");
    proof {
        reveal_strlit(".");
    }
    assert(r@ =~= alpha_color(t@));
    r
}

/// `cs[from..to]`.
fn slice_range(cs: &[char], from: usize, to: usize) -> (r: Vec<char>)
    requires
        from <= to <= cs@.len(),
    ensures
        r@ == cs@.subrange(from as int, to as int),
{
    let mut r: Vec<char> = Vec::new();
    let mut i = from;
    while i < to
        invariant
            from <= i <= to,
            to <= cs@.len(),
            r@ == cs@.subrange(from as int, i as int),
        decreases to - i,
    {
        r.push(cs[i]);
        assert(cs@.subrange(from as int, i + 1) == cs@.subrange(from as int, i as int).push(
            cs@[i as int],
        ));
        i = i + 1;
    }
    r
}

/// The words of `s` (`str::split_whitespace`), as character vectors.
pub fn split_words(s: &str) -> (r: Vec<Vec<char>>)
    ensures
        r@.map_values(|w: Vec<char>| w@) == words(s@),
{
    let cs = chars_of(s);
    let mut ws: Vec<Vec<char>> = Vec::new();
    let mut cur: Vec<char> = Vec::new();
    let mut i: usize = 0;
    while i < cs.len()
        invariant
            i <= cs@.len(),
            cs@ == s@,
            (ws@.map_values(|w: Vec<char>| w@), cur@) == words_acc(cs@.take(i as int)),
        decreases cs@.len() - i,
    {
        let c = cs[i];
        let ghost old_ws = ws@;
        assert(cs@.take(i + 1).drop_last() == cs@.take(i as int));
        if is_whitespace(c) {
            if cur.len() > 0 {
                let mut word: Vec<char> = Vec::new();
                std::mem::swap(&mut word, &mut cur);
                ws.push(word);
                assert(ws@.map_values(|w: Vec<char>| w@) =~= old_ws.map_values(|w: Vec<char>| w@).push(
                    ws@[ws@.len() - 1]@,
                ));
            }
        } else {
            cur.push(c);
        }
        i = i + 1;
    }
    assert(cs@.take(cs@.len() as int) == cs@);
    if cur.len() > 0 {
        let ghost old_ws = ws@;
        ws.push(cur);
        assert(ws@.map_values(|w: Vec<char>| w@) =~= old_ws.map_values(|w: Vec<char>| w@).push(
            ws@[ws@.len() - 1]@,
        ));
    }
    ws
}

/// Hyprland's `col.active_border` (`"ee33ccff ee00ff99 45deg"`, colours in AARRGGBB)
/// as CSS colours and an angle.
pub fn parse_gradient(spec: &str) -> (r: Option<(Vec<String>, u32)>)
    ensures
        match r {
            Some((colors, angle)) => parse_gradient_spec(spec@) == Some((views(colors@), angle)),
            None => parse_gradient_spec(spec@) is None,
        },
{
    let tokens = split_words(spec);
    let ghost ts = tokens@.map_values(|w: Vec<char>| w@);
    let mut colors: Vec<String> = Vec::new();
    let mut angle: u32 = 0;
    let mut i: usize = 0;
    proof {
        reveal_strlit("deg");
    }
    while i < tokens.len()
        invariant
            i <= tokens@.len(),
            ts == tokens@.map_values(|w: Vec<char>| w@),
            ts == words(spec@),
            "deg"@.len() == 3,
            gradient_acc(ts.take(i as int)) == Some((views(colors@), angle)),
        decreases tokens@.len() - i,
    {
        let t = tokens[i].as_slice();
        assert(ts.take(i + 1).drop_last() == ts.take(i as int));
        assert(ts.take(i + 1).last() == t@);
        let n = t.len();
        if n >= 3 && t[n - 3] == 'd' && t[n - 2] == 'e' && t[n - 1] == 'g' {
            proof {
                reveal_strlit("deg");
                assert(t@.subrange(n - 3, n as int) == "deg"@);
            }
            let digits = slice_range(t, 0, n - 3);
            match parse_u32(digits.as_slice()) {
                Some(a) => {
                    angle = a;
                },
                None => {
                    proof {
                        assert(gradient_acc(ts.take(i + 1)) is None);
                        lemma_gradient_acc_none(ts, i + 1);
                    }
                    return None;
                },
            }
        } else {
            proof {
                reveal_strlit("deg");
                if is_suffix_of("deg"@, t@) {
                    assert(t@[n - 3] == "deg"@[0]);
                    assert(t@[n - 2] == "deg"@[1]);
                    assert(t@[n - 1] == "deg"@[2]);
                }
            }
            if n == 8 && all_hex(t) {
                let ghost before = colors@;
                colors.push(alpha_color_string(t));
                assert(views(colors@) =~= views(before).push(alpha_color(t@)));
            }
        }
        i = i + 1;
    }
    assert(ts.take(tokens@.len() as int) == ts);
    if colors.len() == 0 {
        return None;
    }
    Some((colors, angle))
}

/// Once the fold has failed, it stays failed.
proof fn lemma_gradient_acc_none(ts: Seq<Seq<char>>, i: int)
    requires
        0 <= i <= ts.len(),
        gradient_acc(ts.take(i)) is None,
    ensures
        gradient_acc(ts) is None,
    decreases ts.len() - i,
{
    if i < ts.len() {
        assert(ts.take(i + 1).drop_last() == ts.take(i));
        lemma_gradient_acc_none(ts, i + 1);
    } else {
        assert(ts.take(i) == ts);
    }
}

/// The items of `items` joined by `sep` (`[String]::join`).
pub fn join_strings(items: &[String], sep: &str) -> (r: String)
    ensures
        r@ == join(views(items@), sep@),
{
    let mut r = String::new();
    let mut i: usize = 0;
    while i < items.len()
        invariant
            i <= items@.len(),
            r@ == join(views(items@).take(i as int), sep@),
        decreases items@.len() - i,
    {
        let ghost t = views(items@).take(i + 1);
        assert(t.drop_last() == views(items@).take(i as int));
        assert(t.last() == items@[i as int]@);
        if i > 0 {
            push_str(&mut r, sep);
        } else {
            assert(t.len() == 1);
        }
        push_str(&mut r, items[i].as_str());
        i = i + 1;
    }
    assert(views(items@).take(items@.len() as int) == views(items@));
    r
}

/// The border of a theme, over character sequences.
pub open spec fn border_view(border: Option<(Vec<String>, u32)>) -> Option<(Seq<Seq<char>>, u32)> {
    match border {
        Some((colors, angle)) => Some((views(colors@), angle)),
        None => None,
    }
}

impl Theme {
    /// The theme from pywal's colours (background, foreground and `color4`, when
    /// `~/.cache/wal/colors.json` could be read) and Hyprland's
    /// `general:col.active_border` gradient (when `hyprctl` gave one). The accent is
    /// `color4`, as in the GTK theme; what is missing comes from the fallback palette.
    pub fn load(wal: Option<(String, String, Option<String>)>, gradient: Option<&str>) -> (r: Theme)
        ensures
            r.background@ == (match wal {
                Some(w) => w.0@,
                None => fallback_background(),
            }),
            r.foreground@ == (match wal {
                Some(w) => w.1@,
                None => fallback_foreground(),
            }),
            r.accent@ == (match wal {
                Some((_, _, Some(a))) => a@,
                _ => fallback_accent(),
            }),
            border_view(r.border) == (match gradient {
                Some(g) => parse_gradient_spec(g@),
                None => None,
            }),
    {
        let (background, foreground, accent) = match wal {
            Some((bg, fg, color4)) => {
                let accent = match color4 {
                    Some(a) => a,
                    None => owned("#e29b69"),
                };
                (bg, fg, accent)
            },
            None => (owned("#1d1a24"), owned("#d4cfd8"), owned("#e29b69")),
        };
        let border = match gradient {
            Some(g) => parse_gradient(g),
            None => None,
        };
        Theme { background, foreground, accent, border }
    }

    /// Base colours: the default style mixes them to get the rest.
    pub fn colors_css(&self) -> (r: String)
        ensures
            r@ == colors_css_spec(self.background@, self.foreground@, self.accent@),
    {
        let mut r = owned("@define-color runner_bg ");
        push_str(&mut r, self.background.as_str());
        push_str(&mut r, ";\n@define-color runner_fg ");
        push_str(&mut r, self.foreground.as_str());
        push_str(&mut r, ";\n@define-color runner_accent ");
        push_str(&mut r, self.accent.as_str());
        push_str(&mut r, ";\n");
        r
    }

    /// A gradient border like that of Hyprland's active windows. It goes after the
    /// default style: that style's `border` shorthand resets `border-image`.
    pub fn border_css(&self) -> (r: String)
        ensures
            r@ == border_css_spec(border_view(self.border)),
    {
        match &self.border {
            None => String::new(),
            Some((colors, angle)) => {
                let stops = if colors.len() == 1 {
                    let mut s = owned(colors[0].as_str());
                    push_str(&mut s, ", ");
                    push_str(&mut s, colors[0].as_str());
                    s
                } else {
                    join_strings(colors.as_slice(), ", ")
                };
                let mut r = owned("window.runner > .runner-frame { border-image: linear-gradient(");
                push_str(&mut r, decimal_string(*angle).as_str());
                push_str(&mut r, "deg, ");
                push_str(&mut r, stops.as_str());
                push_str(&mut r, ") 1; }\n");
                r
            },
        }
    }
}

/// Whether every character of `t` is a hexadecimal digit.
fn all_hex(t: &[char]) -> (r: bool)
    ensures
        r == forall|i: int| 0 <= i < t@.len() ==> is_hex(#[trigger] t@[i]),
{
    let mut i: usize = 0;
    while i < t.len()
        invariant
            i <= t@.len(),
            forall|j: int| 0 <= j < i ==> is_hex(#[trigger] t@[j]),
        decreases t@.len() - i,
    {
        if !is_hex_digit(t[i]) {
            return false;
        }
        i = i + 1;
    }
    true
}

} // verus!
