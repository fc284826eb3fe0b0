//! What runner knows of elephant's providers: which are installed, what they
//! are called, how to order their actions and how to read the typed text.
use vstd::prelude::*;

use crate::config::{split_prefix_spec, views, Config};
use crate::text::{
    char_to_uppercase, chars_of, find_char, first_index_of, is_prefix_of, lemma_filter_push, lemma_first_index_of,
    lemma_first_index_of_at, owned, push_char, push_str, str_eq, string_of, strip_prefix, trim, trim_bounds, upper_of, is_ascii_chars, is_ascii_char, is_ascii_lower, ascii_upper,
};

verus! {

// ---------------------------------------------------------------------------
// Installed providers
// ---------------------------------------------------------------------------

/// The lines of `s`, split at each `'\n'` (a trailing newline leaves an empty last line).
pub open spec fn lines_of(s: Seq<char>) -> Seq<Seq<char>>
    decreases s.len(),
{
    match first_index_of(s, '\n') {
        Some(i) => if 0 <= i < s.len() {
            seq![s.take(i)] + lines_of(s.skip(i + 1))
        } else {
            seq![s]
        },
        None => seq![s],
    }
}

/// The provider names listed in the output of `elephant listproviders`: each line
/// trimmed, empty lines left out.
pub open spec fn provider_names(out: Seq<char>) -> Seq<Seq<char>> {
    lines_of(out).map_values(|l: Seq<char>| trim(l)).filter(|l: Seq<char>| l.len() > 0)
}

/// The installed providers, as `elephant listproviders` prints them (menus appear as
/// `menus:<name>`): one per line, trimmed, blank lines dropped.
pub fn parse_provider_list(out: &str) -> (r: Vec<String>)
    ensures
        views(r@) == provider_names(out@),
{
    let cs = chars_of(out);
    let n = cs.len();
    let mut r: Vec<String> = Vec::new();
    let mut start: usize = 0;
    let ghost done: Seq<Seq<char>> = Seq::empty();
    assert(cs@.skip(0) == cs@);
    assert(done + lines_of(cs@) == lines_of(cs@));
    assert(done.map_values(|l: Seq<char>| trim(l)).filter(|l: Seq<char>| l.len() > 0) =~= Seq::empty()) by {
        reveal(Seq::filter);
    }
    loop
        invariant
            n == cs@.len(),
            cs@ == out@,
            start <= n,
            lines_of(out@) == done + lines_of(cs@.skip(start as int)),
            views(r@) == done.map_values(|l: Seq<char>| trim(l)).filter(|l: Seq<char>| l.len() > 0),
        decreases n - start,
    {
        let rest = slice_from(cs.as_slice(), start);
        let ghost rs = cs@.skip(start as int);
        let found = find_char(rest.as_slice(), '\n');
        proof {
            lemma_first_index_of(rs, '\n');
        }
        let end = match found {
            Some(i) => start + i,
            None => n,
        };
        let line = slice_range(cs.as_slice(), start, end);
        let (a, b) = trim_bounds(line.as_slice());
        let ghost lv = line@;
        let ghost old_done = done;
        let ghost old_r = r@;
        if a < b {
            let t = slice_range(line.as_slice(), a, b);
            r.push(string_of(t.as_slice()));
        }
        proof {
            done = done.push(lv);
            let f = |l: Seq<char>| trim(l);
            let p = |l: Seq<char>| l.len() > 0;
            assert(old_done.push(lv).map_values(f) == old_done.map_values(f).push(trim(lv)));
            lemma_filter_push(old_done.map_values(f), p, trim(lv));
            if a < b {
                assert(views(r@) =~= views(old_r).push(trim(lv)));
            } else {
                assert(views(r@) =~= views(old_r));
            }
        }
        match found {
            Some(i) => {
                proof {
                    assert(rs.take(i as int) == lv);
                    assert(rs.skip(i + 1) == cs@.skip(end + 1));
                    assert(lines_of(rs) == seq![lv] + lines_of(rs.skip(i + 1)));
                    assert(done == old_done + seq![lv]);
                    assert(lines_of(out@) == done + lines_of(cs@.skip(end + 1)));
                }
                start = end + 1;
            },
            None => {
                proof {
                    assert(rs == lv);
                    assert(lines_of(rs) == seq![lv]);
                    assert(lines_of(out@) == done);
                }
                return r;
            },
        }
    }
}

// ---------------------------------------------------------------------------
// Names and labels
// ---------------------------------------------------------------------------

/// Readable name and icon of a provider.
pub open spec fn describe_spec(p: Seq<char>) -> (Seq<char>, Seq<char>) {
    if is_prefix_of("menus:"@, p) {
        (p.subrange("menus:"@.len() as int, p.len() as int), "view-list-symbolic"@)
    } else if p == "desktopapplications"@ {
        ("Applications"@, "applications-other"@)
    } else if p == "bluetooth"@ {
        ("Bluetooth"@, "bluetooth-symbolic"@)
    } else if p == "calc"@ {
        ("Calculator"@, "accessories-calculator"@)
    } else if p == "clipboard"@ {
        ("Clipboard"@, "edit-paste"@)
    } else if p == "files"@ {
        ("Files"@, "folder"@)
    } else if p == "runner"@ {
        ("Commands"@, "utilities-terminal"@)
    } else if p == "symbols"@ {
        ("Symbols and emoji"@, "face-smile"@)
    } else if p == "unicode"@ {
        ("Unicode"@, "accessories-character-map"@)
    } else if p == "websearch"@ {
        ("Web search"@, "web-browser"@)
    } else if p == "windows"@ {
        ("Windows"@, "preferences-system-windows"@)
    } else if p == "wireplumber"@ {
        ("Audio"@, "audio-volume-high"@)
    } else if p == "playerctl"@ {
        ("Media"@, "multimedia-player"@)
    } else if p == "todo"@ {
        ("Todo"@, "checkbox-checked-symbolic"@)
    } else if p == "bookmarks"@ {
        ("Bookmarks"@, "user-bookmarks"@)
    } else if p == "snippets"@ {
        ("Snippet"@, "text-x-generic"@)
    } else if p == "archlinuxpkgs"@ {
        ("Arch packages"@, "package-x-generic"@)
    } else if p == "providerlist"@ {
        ("Provider"@, "applications-other"@)
    } else if p == "1password"@ || p == "bitwarden"@ || p == "protonpass"@ {
        (p, "dialog-password"@)
    } else if p == "niriactions"@ {
        ("Niri actions"@, "preferences-system"@)
    } else if p == "nirisessions"@ {
        ("Niri sessions"@, "preferences-system"@)
    } else {
        (p, "application-x-executable"@)
    }
}

/// Whether `p` is one of the providers runner has a name and icon for.
pub open spec fn is_table_provider(p: Seq<char>) -> bool {
    p == "desktopapplications"@ || p == "bluetooth"@ || p == "calc"@ || p == "clipboard"@ ||
        p == "files"@ || p == "runner"@ || p == "symbols"@ || p == "unicode"@ ||
        p == "websearch"@ || p == "windows"@ || p == "wireplumber"@ || p == "playerctl"@ ||
        p == "todo"@ || p == "bookmarks"@ || p == "snippets"@ || p == "archlinuxpkgs"@ ||
        p == "providerlist"@ || p == "1password"@ || p == "bitwarden"@ || p == "protonpass"@ ||
        p == "niriactions"@ || p == "nirisessions"@
}

/// A menu provider `menus:<name>` is shown by its name, with the list icon.
pub proof fn lemma_describe_menu(name: Seq<char>)
    ensures
        describe_spec("menus:"@ + name) == (name, "view-list-symbolic"@),
{
    reveal_strlit("menus:");
    let p = "menus:"@ + name;
    assert(p.subrange(0, 6) =~= "menus:"@);
    assert(p.subrange(6, p.len() as int) =~= name);
}

/// A name that does not start with `m` is not a menu.
proof fn lemma_not_menu(p: Seq<char>)
    requires
        p.len() > 0,
        p[0] != 'm',
    ensures
        !is_prefix_of("menus:"@, p),
{
    reveal_strlit("menus:");
    if is_prefix_of("menus:"@, p) {
        assert(p.subrange(0, 6)[0] == p[0]);
    }
}

/// Length, first two and last character: enough to tell apart the names in runner's
/// provider table.
spec fn fingerprint(s: Seq<char>) -> (nat, char, char, char) {
    (s.len(), s[0], s[1], s[s.len() - 1])
}

/// The fingerprints of the names, readable names and icons of the provider table.
proof fn lemma_table_fingerprints()
    ensures
        fingerprint("desktopapplications"@) == (19nat, 'd', 'e', 's'),
        fingerprint("Applications"@) == (12nat, 'A', 'p', 's'),
        fingerprint("applications-other"@) == (18nat, 'a', 'p', 'r'),
        fingerprint("bluetooth"@) == (9nat, 'b', 'l', 'h'),
        fingerprint("Bluetooth"@) == (9nat, 'B', 'l', 'h'),
        fingerprint("bluetooth-symbolic"@) == (18nat, 'b', 'l', 'c'),
        fingerprint("calc"@) == (4nat, 'c', 'a', 'c'),
        fingerprint("Calculator"@) == (10nat, 'C', 'a', 'r'),
        fingerprint("accessories-calculator"@) == (22nat, 'a', 'c', 'r'),
        fingerprint("clipboard"@) == (9nat, 'c', 'l', 'd'),
        fingerprint("Clipboard"@) == (9nat, 'C', 'l', 'd'),
        fingerprint("edit-paste"@) == (10nat, 'e', 'd', 'e'),
        fingerprint("files"@) == (5nat, 'f', 'i', 's'),
        fingerprint("Files"@) == (5nat, 'F', 'i', 's'),
        fingerprint("folder"@) == (6nat, 'f', 'o', 'r'),
        fingerprint("runner"@) == (6nat, 'r', 'u', 'r'),
        fingerprint("Commands"@) == (8nat, 'C', 'o', 's'),
        fingerprint("utilities-terminal"@) == (18nat, 'u', 't', 'l'),
        fingerprint("symbols"@) == (7nat, 's', 'y', 's'),
        fingerprint("Symbols and emoji"@) == (17nat, 'S', 'y', 'i'),
        fingerprint("face-smile"@) == (10nat, 'f', 'a', 'e'),
        fingerprint("unicode"@) == (7nat, 'u', 'n', 'e'),
        fingerprint("Unicode"@) == (7nat, 'U', 'n', 'e'),
        fingerprint("accessories-character-map"@) == (25nat, 'a', 'c', 'p'),
        fingerprint("websearch"@) == (9nat, 'w', 'e', 'h'),
        fingerprint("Web search"@) == (10nat, 'W', 'e', 'h'),
        fingerprint("web-browser"@) == (11nat, 'w', 'e', 'r'),
        fingerprint("windows"@) == (7nat, 'w', 'i', 's'),
        fingerprint("Windows"@) == (7nat, 'W', 'i', 's'),
        fingerprint("preferences-system-windows"@) == (26nat, 'p', 'r', 's'),
        fingerprint("wireplumber"@) == (11nat, 'w', 'i', 'r'),
        fingerprint("Audio"@) == (5nat, 'A', 'u', 'o'),
        fingerprint("audio-volume-high"@) == (17nat, 'a', 'u', 'h'),
        fingerprint("playerctl"@) == (9nat, 'p', 'l', 'l'),
        fingerprint("Media"@) == (5nat, 'M', 'e', 'a'),
        fingerprint("multimedia-player"@) == (17nat, 'm', 'u', 'r'),
        fingerprint("todo"@) == (4nat, 't', 'o', 'o'),
        fingerprint("Todo"@) == (4nat, 'T', 'o', 'o'),
        fingerprint("checkbox-checked-symbolic"@) == (25nat, 'c', 'h', 'c'),
        fingerprint("bookmarks"@) == (9nat, 'b', 'o', 's'),
        fingerprint("Bookmarks"@) == (9nat, 'B', 'o', 's'),
        fingerprint("user-bookmarks"@) == (14nat, 'u', 's', 's'),
        fingerprint("snippets"@) == (8nat, 's', 'n', 's'),
        fingerprint("Snippet"@) == (7nat, 'S', 'n', 't'),
        fingerprint("text-x-generic"@) == (14nat, 't', 'e', 'c'),
        fingerprint("archlinuxpkgs"@) == (13nat, 'a', 'r', 's'),
        fingerprint("Arch packages"@) == (13nat, 'A', 'r', 's'),
        fingerprint("package-x-generic"@) == (17nat, 'p', 'a', 'c'),
        fingerprint("providerlist"@) == (12nat, 'p', 'r', 't'),
        fingerprint("Provider"@) == (8nat, 'P', 'r', 'r'),
        fingerprint("1password"@) == (9nat, '1', 'p', 'd'),
        fingerprint("dialog-password"@) == (15nat, 'd', 'i', 'd'),
        fingerprint("bitwarden"@) == (9nat, 'b', 'i', 'n'),
        fingerprint("protonpass"@) == (10nat, 'p', 'r', 's'),
        fingerprint("niriactions"@) == (11nat, 'n', 'i', 's'),
        fingerprint("Niri actions"@) == (12nat, 'N', 'i', 's'),
        fingerprint("preferences-system"@) == (18nat, 'p', 'r', 'm'),
        fingerprint("nirisessions"@) == (12nat, 'n', 'i', 's'),
        fingerprint("Niri sessions"@) == (13nat, 'N', 'i', 's'),
        fingerprint("application-x-executable"@) == (24nat, 'a', 'p', 'e'),
{
    reveal_strlit("desktopapplications");
    reveal_strlit("Applications");
    reveal_strlit("applications-other");
    reveal_strlit("bluetooth");
    reveal_strlit("Bluetooth");
    reveal_strlit("bluetooth-symbolic");
    reveal_strlit("calc");
    reveal_strlit("Calculator");
    reveal_strlit("accessories-calculator");
    reveal_strlit("clipboard");
    reveal_strlit("Clipboard");
    reveal_strlit("edit-paste");
    reveal_strlit("files");
    reveal_strlit("Files");
    reveal_strlit("folder");
    reveal_strlit("runner");
    reveal_strlit("Commands");
    reveal_strlit("utilities-terminal");
    reveal_strlit("symbols");
    reveal_strlit("Symbols and emoji");
    reveal_strlit("face-smile");
    reveal_strlit("unicode");
    reveal_strlit("Unicode");
    reveal_strlit("accessories-character-map");
    reveal_strlit("websearch");
    reveal_strlit("Web search");
    reveal_strlit("web-browser");
    reveal_strlit("windows");
    reveal_strlit("Windows");
    reveal_strlit("preferences-system-windows");
    reveal_strlit("wireplumber");
    reveal_strlit("Audio");
    reveal_strlit("audio-volume-high");
    reveal_strlit("playerctl");
    reveal_strlit("Media");
    reveal_strlit("multimedia-player");
    reveal_strlit("todo");
    reveal_strlit("Todo");
    reveal_strlit("checkbox-checked-symbolic");
    reveal_strlit("bookmarks");
    reveal_strlit("Bookmarks");
    reveal_strlit("user-bookmarks");
    reveal_strlit("snippets");
    reveal_strlit("Snippet");
    reveal_strlit("text-x-generic");
    reveal_strlit("archlinuxpkgs");
    reveal_strlit("Arch packages");
    reveal_strlit("package-x-generic");
    reveal_strlit("providerlist");
    reveal_strlit("Provider");
    reveal_strlit("1password");
    reveal_strlit("dialog-password");
    reveal_strlit("bitwarden");
    reveal_strlit("protonpass");
    reveal_strlit("niriactions");
    reveal_strlit("Niri actions");
    reveal_strlit("preferences-system");
    reveal_strlit("nirisessions");
    reveal_strlit("Niri sessions");
    reveal_strlit("application-x-executable");
}

/// The table provider shown under the name `n`.
spec fn provider_named(n: Seq<char>) -> Seq<char> {
    if n == "Applications"@ {
        "desktopapplications"@
    } else if n == "Bluetooth"@ {
        "bluetooth"@
    } else if n == "Calculator"@ {
        "calc"@
    } else if n == "Clipboard"@ {
        "clipboard"@
    } else if n == "Files"@ {
        "files"@
    } else if n == "Commands"@ {
        "runner"@
    } else if n == "Symbols and emoji"@ {
        "symbols"@
    } else if n == "Unicode"@ {
        "unicode"@
    } else if n == "Web search"@ {
        "websearch"@
    } else if n == "Windows"@ {
        "windows"@
    } else if n == "Audio"@ {
        "wireplumber"@
    } else if n == "Media"@ {
        "playerctl"@
    } else if n == "Todo"@ {
        "todo"@
    } else if n == "Bookmarks"@ {
        "bookmarks"@
    } else if n == "Snippet"@ {
        "snippets"@
    } else if n == "Arch packages"@ {
        "archlinuxpkgs"@
    } else if n == "Provider"@ {
        "providerlist"@
    } else if n == "1password"@ {
        "1password"@
    } else if n == "bitwarden"@ {
        "bitwarden"@
    } else if n == "protonpass"@ {
        "protonpass"@
    } else if n == "Niri actions"@ {
        "niriactions"@
    } else if n == "Niri sessions"@ {
        "nirisessions"@
    } else {
        n
    }
}

/// The first table provider with the icon `i`.
spec fn provider_with_icon(i: Seq<char>) -> Seq<char> {
    if i == "applications-other"@ {
        "desktopapplications"@
    } else if i == "bluetooth-symbolic"@ {
        "bluetooth"@
    } else if i == "accessories-calculator"@ {
        "calc"@
    } else if i == "edit-paste"@ {
        "clipboard"@
    } else if i == "folder"@ {
        "files"@
    } else if i == "utilities-terminal"@ {
        "runner"@
    } else if i == "face-smile"@ {
        "symbols"@
    } else if i == "accessories-character-map"@ {
        "unicode"@
    } else if i == "web-browser"@ {
        "websearch"@
    } else if i == "preferences-system-windows"@ {
        "windows"@
    } else if i == "audio-volume-high"@ {
        "wireplumber"@
    } else if i == "multimedia-player"@ {
        "playerctl"@
    } else if i == "checkbox-checked-symbolic"@ {
        "todo"@
    } else if i == "user-bookmarks"@ {
        "bookmarks"@
    } else if i == "text-x-generic"@ {
        "snippets"@
    } else if i == "package-x-generic"@ {
        "archlinuxpkgs"@
    } else if i == "dialog-password"@ {
        "1password"@
    } else if i == "preferences-system"@ {
        "niriactions"@
    } else {
        i
    }
}

/// The first provider of `p`'s family in the table: the application lists, the niri
/// ones and the password managers share icons.
spec fn icon_family(p: Seq<char>) -> Seq<char> {
    if p == "providerlist"@ {
        "desktopapplications"@
    } else if p == "nirisessions"@ {
        "niriactions"@
    } else if p == "bitwarden"@ || p == "protonpass"@ {
        "1password"@
    } else {
        p
    }
}

/// What `describe` gives for each provider of the table, one case per provider.
proof fn lemma_describe_cases(p: Seq<char>)
    requires
        is_table_provider(p),
    ensures
        !is_prefix_of("menus:"@, p),
        describe_spec(p).1 != "application-x-executable"@,
        describe_spec(p).0 != p || p == "1password"@ || p == "bitwarden"@ || p == "protonpass"@,
        (p == "1password"@ || p == "bitwarden"@ || p == "protonpass"@) ==> describe_spec(p).1
            == "dialog-password"@,
        provider_named(describe_spec(p).0) == p,
        provider_with_icon(describe_spec(p).1) == icon_family(p),
{
    lemma_table_fingerprints();
    if p == "desktopapplications"@ {
        lemma_not_menu(p);
        assert(describe_spec(p) == ("Applications"@, "applications-other"@));
    } else if p == "bluetooth"@ {
        lemma_not_menu(p);
        assert(describe_spec(p) == ("Bluetooth"@, "bluetooth-symbolic"@));
    } else if p == "calc"@ {
        lemma_not_menu(p);
        assert(describe_spec(p) == ("Calculator"@, "accessories-calculator"@));
    } else if p == "clipboard"@ {
        lemma_not_menu(p);
        assert(describe_spec(p) == ("Clipboard"@, "edit-paste"@));
    } else if p == "files"@ {
        lemma_not_menu(p);
        assert(describe_spec(p) == ("Files"@, "folder"@));
    } else if p == "runner"@ {
        lemma_not_menu(p);
        assert(describe_spec(p) == ("Commands"@, "utilities-terminal"@));
    } else if p == "symbols"@ {
        lemma_not_menu(p);
        assert(describe_spec(p) == ("Symbols and emoji"@, "face-smile"@));
    } else if p == "unicode"@ {
        lemma_not_menu(p);
        assert(describe_spec(p) == ("Unicode"@, "accessories-character-map"@));
    } else if p == "websearch"@ {
        lemma_not_menu(p);
        assert(describe_spec(p) == ("Web search"@, "web-browser"@));
    } else if p == "windows"@ {
        lemma_not_menu(p);
        assert(describe_spec(p) == ("Windows"@, "preferences-system-windows"@));
    } else if p == "wireplumber"@ {
        lemma_not_menu(p);
        assert(describe_spec(p) == ("Audio"@, "audio-volume-high"@));
    } else if p == "playerctl"@ {
        lemma_not_menu(p);
        assert(describe_spec(p) == ("Media"@, "multimedia-player"@));
    } else if p == "todo"@ {
        lemma_not_menu(p);
        assert(describe_spec(p) == ("Todo"@, "checkbox-checked-symbolic"@));
    } else if p == "bookmarks"@ {
        lemma_not_menu(p);
        assert(describe_spec(p) == ("Bookmarks"@, "user-bookmarks"@));
    } else if p == "snippets"@ {
        lemma_not_menu(p);
        assert(describe_spec(p) == ("Snippet"@, "text-x-generic"@));
    } else if p == "archlinuxpkgs"@ {
        lemma_not_menu(p);
        assert(describe_spec(p) == ("Arch packages"@, "package-x-generic"@));
    } else if p == "providerlist"@ {
        lemma_not_menu(p);
        assert(describe_spec(p) == ("Provider"@, "applications-other"@));
    } else if p == "1password"@ {
        lemma_not_menu(p);
        assert(describe_spec(p) == ("1password"@, "dialog-password"@));
    } else if p == "bitwarden"@ {
        lemma_not_menu(p);
        assert(describe_spec(p) == ("bitwarden"@, "dialog-password"@));
    } else if p == "protonpass"@ {
        lemma_not_menu(p);
        assert(describe_spec(p) == ("protonpass"@, "dialog-password"@));
    } else if p == "niriactions"@ {
        lemma_not_menu(p);
        assert(describe_spec(p) == ("Niri actions"@, "preferences-system"@));
    } else if p == "nirisessions"@ {
        lemma_not_menu(p);
        assert(describe_spec(p) == ("Niri sessions"@, "preferences-system"@));
    }
}

/// Outside the menus, a provider gets the generic icon exactly when runner has no
/// entry for it, and is shown by its own technical name exactly when it has no
/// entry or is a password manager (1password, bitwarden, protonpass), which share
/// the password icon.
pub proof fn lemma_describe_table(p: Seq<char>)
    requires
        !is_prefix_of("menus:"@, p),
    ensures
        (describe_spec(p).1 == "application-x-executable"@) <==> !is_table_provider(p),
        (describe_spec(p).0 == p) <==> (!is_table_provider(p) || p == "1password"@ || p == "bitwarden"@
            || p == "protonpass"@),
        (p == "1password"@ || p == "bitwarden"@ || p == "protonpass"@) ==> describe_spec(p).1
            == "dialog-password"@,
{
    lemma_table_fingerprints();
    if is_table_provider(p) {
        lemma_describe_cases(p);
    }
}

/// Two providers of runner's table with the same readable name are the same
/// provider, and two with the same icon are the same or of one family: the
/// application lists, the niri ones, the password managers.
pub proof fn lemma_describe_distinct(p: Seq<char>, q: Seq<char>)
    requires
        is_table_provider(p),
        is_table_provider(q),
    ensures
        describe_spec(p).0 == describe_spec(q).0 ==> p == q,
        describe_spec(p).1 == describe_spec(q).1 ==> p == q || (p == "desktopapplications"@ || p
            == "providerlist"@) && (q == "desktopapplications"@ || q == "providerlist"@) || (p
            == "niriactions"@ || p == "nirisessions"@) && (q == "niriactions"@ || q == "nirisessions"@)
            || (p == "1password"@ || p == "bitwarden"@ || p == "protonpass"@) && (q == "1password"@ || q
            == "bitwarden"@ || q == "protonpass"@),
{
    lemma_table_fingerprints();
    lemma_describe_cases(p);
    lemma_describe_cases(q);
}

/// Readable name and icon of a provider.
pub fn describe(provider: &str) -> (r: (String, &'static str))
    ensures
        (r.0@, r.1@) == describe_spec(provider@),
{
    if let Some(menu) = strip_prefix(provider, "menus:") {
        return (owned(menu), "view-list-symbolic");
    }
    let p = provider;
    let (name, icon): (&str, &'static str) = if str_eq(p, "desktopapplications") {
        ("Applications", "applications-other")
    } else if str_eq(p, "bluetooth") {
        ("Bluetooth", "bluetooth-symbolic")
    } else if str_eq(p, "calc") {
        ("Calculator", "accessories-calculator")
    } else if str_eq(p, "clipboard") {
        ("Clipboard", "edit-paste")
    } else if str_eq(p, "files") {
        ("Files", "folder")
    } else if str_eq(p, "runner") {
        ("Commands", "utilities-terminal")
    } else if str_eq(p, "symbols") {
        ("Symbols and emoji", "face-smile")
    } else if str_eq(p, "unicode") {
        ("Unicode", "accessories-character-map")
    } else if str_eq(p, "websearch") {
        ("Web search", "web-browser")
    } else if str_eq(p, "windows") {
        ("Windows", "preferences-system-windows")
    } else if str_eq(p, "wireplumber") {
        ("Audio", "audio-volume-high")
    } else if str_eq(p, "playerctl") {
        ("Media", "multimedia-player")
    } else if str_eq(p, "todo") {
        ("Todo", "checkbox-checked-symbolic")
    } else if str_eq(p, "bookmarks") {
        ("Bookmarks", "user-bookmarks")
    } else if str_eq(p, "snippets") {
        ("Snippet", "text-x-generic")
    } else if str_eq(p, "archlinuxpkgs") {
        ("Arch packages", "package-x-generic")
    } else if str_eq(p, "providerlist") {
        ("Provider", "applications-other")
    } else if str_eq(p, "1password") || str_eq(p, "bitwarden") || str_eq(p, "protonpass") {
        (p, "dialog-password")
    } else if str_eq(p, "niriactions") {
        ("Niri actions", "preferences-system")
    } else if str_eq(p, "nirisessions") {
        ("Niri sessions", "preferences-system")
    } else {
        (p, "application-x-executable")
    };
    (owned(name), icon)
}

/// The label of an action that runner knows by name.
pub open spec fn known_label(a: Seq<char>) -> Option<Seq<char>> {
    if a == "start"@ {
        Some("Start"@)
    } else if a == "connect"@ {
        Some("Connect"@)
    } else if a == "disconnect"@ {
        Some("Disconnect"@)
    } else if a == "pair"@ {
        Some("Pair"@)
    } else if a == "trust"@ {
        Some("Trust"@)
    } else if a == "untrust"@ {
        Some("Untrust"@)
    } else if a == "remove"@ {
        Some("Remove"@)
    } else if a == "power_on"@ {
        Some("Turn on"@)
    } else if a == "power_off"@ {
        Some("Turn off"@)
    } else if a == "find"@ {
        Some("Scan for devices"@)
    } else if a == "pin"@ {
        Some("Pin"@)
    } else if a == "unpin"@ {
        Some("Unpin"@)
    } else if a == "erase_history"@ {
        Some("Remove from history"@)
    } else if a == "activate"@ {
        Some("Open"@)
    } else if a == "open"@ {
        Some("Open"@)
    } else if a == "copy"@ {
        Some("Copy"@)
    } else if a == "delete"@ {
        Some("Delete"@)
    } else if a == "menus:open"@ {
        Some("Open"@)
    } else if a == "menus:parent"@ {
        Some("Back to parent menu"@)
    } else if a == "menus:default"@ {
        Some("Run"@)
    } else if a == "focus"@ {
        Some("Switch to"@)
    } else if a == "focus_workspace"@ {
        Some("Go to workspace"@)
    } else if a == "run"@ {
        Some("Run"@)
    } else if a == "runterminal"@ {
        Some("Run in terminal"@)
    } else {
        None
    }
}

/// `s` with every leading copy of the non-empty `pat` removed (`str::trim_start_matches`).
pub open spec fn trim_start_matches(s: Seq<char>, pat: Seq<char>) -> Seq<char>
    decreases s.len(),
{
    if pat.len() > 0 && is_prefix_of(pat, s) {
        trim_start_matches(s.subrange(pat.len() as int, s.len() as int), pat)
    } else {
        s
    }
}

/// `_`, `-` and `:` turned into spaces.
pub open spec fn spaced(s: Seq<char>) -> Seq<char> {
    s.map_values(|c: char| if c == '_' || c == '-' || c == ':' { ' ' } else { c })
}

/// The words of an action's name: without its leading `menus:`, with `_ - :` as spaces.
pub open spec fn action_words(a: Seq<char>) -> Seq<char> {
    spaced(trim_start_matches(a, "menus:"@))
}

/// The label of action `a` once the first character of its words upper-cased to
/// `upper_first`: the fixed label of an action runner knows, else the words with
/// their first character replaced by `upper_first`.
pub open spec fn label_from(a: Seq<char>, upper_first: Seq<char>) -> Seq<char> {
    match known_label(a) {
        Some(l) => l,
        None => {
            let w = action_words(a);
            if w.len() == 0 {
                w
            } else {
                upper_first + w.drop_first()
            }
        },
    }
}

/// The readable label of an action.
pub open spec fn action_label_spec(a: Seq<char>) -> Seq<char> {
    let w = action_words(a);
    label_from(
        a,
        if w.len() > 0 {
            upper_of(w[0])
        } else {
            Seq::empty()
        },
    )
}

/// A known action's name starts with an ASCII lower-case letter, and its label
/// starts with an ASCII upper-case letter and is ASCII without `_ - :`.
proof fn lemma_known_label_shape(a: Seq<char>)
    ensures
        known_label(a) matches Some(l) ==> {
            &&& a.len() > 0 && is_ascii_lower(a[0])
            &&& l.len() > 0 && 65 <= (l[0] as u32) <= 90
            &&& is_ascii_chars(l)
            &&& forall|i: int| 0 <= i < l.len() ==> #[trigger] l[i] != '_' && l[i] != '-' && l[i] != ':'
        },
{
    reveal_strlit("start");
    reveal_strlit("connect");
    reveal_strlit("disconnect");
    reveal_strlit("pair");
    reveal_strlit("trust");
    reveal_strlit("untrust");
    reveal_strlit("remove");
    reveal_strlit("power_on");
    reveal_strlit("power_off");
    reveal_strlit("find");
    reveal_strlit("pin");
    reveal_strlit("unpin");
    reveal_strlit("erase_history");
    reveal_strlit("activate");
    reveal_strlit("open");
    reveal_strlit("copy");
    reveal_strlit("delete");
    reveal_strlit("menus:open");
    reveal_strlit("menus:parent");
    reveal_strlit("menus:default");
    reveal_strlit("focus");
    reveal_strlit("focus_workspace");
    reveal_strlit("run");
    reveal_strlit("runterminal");
    reveal_strlit("Start");
    reveal_strlit("Connect");
    reveal_strlit("Disconnect");
    reveal_strlit("Pair");
    reveal_strlit("Trust");
    reveal_strlit("Untrust");
    reveal_strlit("Remove");
    reveal_strlit("Turn on");
    reveal_strlit("Turn off");
    reveal_strlit("Scan for devices");
    reveal_strlit("Pin");
    reveal_strlit("Unpin");
    reveal_strlit("Remove from history");
    reveal_strlit("Open");
    reveal_strlit("Copy");
    reveal_strlit("Delete");
    reveal_strlit("Back to parent menu");
    reveal_strlit("Run");
    reveal_strlit("Switch to");
    reveal_strlit("Go to workspace");
    reveal_strlit("Run in terminal");
}

proof fn lemma_trim_start_matches_ascii(s: Seq<char>, pat: Seq<char>)
    requires
        is_ascii_chars(s),
    ensures
        is_ascii_chars(trim_start_matches(s, pat)),
    decreases s.len(),
{
    if pat.len() > 0 && is_prefix_of(pat, s) {
        let t = s.subrange(pat.len() as int, s.len() as int);
        assert forall|i: int| 0 <= i < t.len() implies is_ascii_char(#[trigger] t[i]) by {
            assert(t[i] == s[i + pat.len()]);
        }
        lemma_trim_start_matches_ascii(t, pat);
    }
}

/// A label that is ASCII, has no `_ - :` and does not start with a lower-case
/// letter is its own label.
proof fn lemma_label_fixed(l: Seq<char>)
    requires
        is_ascii_chars(l),
        l.len() > 0 ==> !is_ascii_lower(l[0]),
        forall|i: int| 0 <= i < l.len() ==> #[trigger] l[i] != '_' && l[i] != '-' && l[i] != ':',
    ensures
        action_label_spec(l) == l,
{
    reveal_strlit("menus:");
    lemma_known_label_shape(l);
    assert(known_label(l) is None);
    if l.len() > 0 {
        assert(l[0] != 'm');
        if is_prefix_of("menus:"@, l) {
            assert(l.subrange(0, 6)[0] == l[0]);
        }
        assert(trim_start_matches(l, "menus:"@) == l);
    } else {
        assert(trim_start_matches(l, "menus:"@) == l);
    }
    assert(spaced(l) =~= l);
    if l.len() > 0 {
        assert(is_ascii_char(l[0]));
        assert(ascii_upper(l[0]) == l[0]);
        assert(seq![l[0]] + l.drop_first() =~= l);
    }
}

/// Labelling a label gives the label back: for an action name of ASCII characters,
/// the label of its label is its label.
pub proof fn lemma_label_of_label(a: Seq<char>)
    requires
        is_ascii_chars(a),
    ensures
        action_label_spec(action_label_spec(a)) == action_label_spec(a),
{
    lemma_known_label_shape(a);
    match known_label(a) {
        Some(l) => {
            lemma_label_fixed(l);
        },
        None => {
            let t = trim_start_matches(a, "menus:"@);
            lemma_trim_start_matches_ascii(a, "menus:"@);
            let w = action_words(a);
            assert(w.len() == t.len());
            assert forall|i: int| 0 <= i < w.len() implies is_ascii_char(#[trigger] w[i]) && w[i] != '_'
                && w[i] != '-' && w[i] != ':' by {
                assert(is_ascii_char(t[i]));
            }
            if w.len() == 0 {
                lemma_label_fixed(w);
            } else {
                let c = w[0];
                assert(is_ascii_char(c));
                let u = ascii_upper(c);
                let l = seq![u] + w.drop_first();
                assert(action_label_spec(a) == l);
                assert(!is_ascii_lower(u));
                assert(is_ascii_char(u));
                assert(u != '_' && u != '-' && u != ':');
                assert forall|i: int| 0 <= i < l.len() implies is_ascii_char(#[trigger] l[i]) && l[i] != '_'
                    && l[i] != '-' && l[i] != ':' by {
                    if i > 0 {
                        assert(l[i] == w[i]);
                    }
                }
                lemma_label_fixed(l);
            }
        },
    }
}

/// Whether runner has a fixed label for the action `a`.
pub open spec fn is_known_action(a: Seq<char>) -> bool {
    a == "start"@ || a == "connect"@ || a == "disconnect"@ || a == "pair"@ || a == "trust"@ ||
        a == "untrust"@ || a == "remove"@ || a == "power_on"@ || a == "power_off"@ ||
        a == "find"@ || a == "pin"@ || a == "unpin"@ || a == "erase_history"@ ||
        a == "activate"@ || a == "open"@ || a == "copy"@ || a == "delete"@ || a == "menus:open"@ ||
        a == "menus:parent"@ || a == "menus:default"@ || a == "focus"@ ||
        a == "focus_workspace"@ || a == "run"@ || a == "runterminal"@
}

/// The fingerprints of the known actions and of their labels.
proof fn lemma_action_fingerprints()
    ensures
        fingerprint("start"@) == (5nat, 's', 't', 't'),
        fingerprint("Start"@) == (5nat, 'S', 't', 't'),
        fingerprint("connect"@) == (7nat, 'c', 'o', 't'),
        fingerprint("Connect"@) == (7nat, 'C', 'o', 't'),
        fingerprint("disconnect"@) == (10nat, 'd', 'i', 't'),
        fingerprint("Disconnect"@) == (10nat, 'D', 'i', 't'),
        fingerprint("pair"@) == (4nat, 'p', 'a', 'r'),
        fingerprint("Pair"@) == (4nat, 'P', 'a', 'r'),
        fingerprint("trust"@) == (5nat, 't', 'r', 't'),
        fingerprint("Trust"@) == (5nat, 'T', 'r', 't'),
        fingerprint("untrust"@) == (7nat, 'u', 'n', 't'),
        fingerprint("Untrust"@) == (7nat, 'U', 'n', 't'),
        fingerprint("remove"@) == (6nat, 'r', 'e', 'e'),
        fingerprint("Remove"@) == (6nat, 'R', 'e', 'e'),
        fingerprint("power_on"@) == (8nat, 'p', 'o', 'n'),
        fingerprint("Turn on"@) == (7nat, 'T', 'u', 'n'),
        fingerprint("power_off"@) == (9nat, 'p', 'o', 'f'),
        fingerprint("Turn off"@) == (8nat, 'T', 'u', 'f'),
        fingerprint("find"@) == (4nat, 'f', 'i', 'd'),
        fingerprint("Scan for devices"@) == (16nat, 'S', 'c', 's'),
        fingerprint("pin"@) == (3nat, 'p', 'i', 'n'),
        fingerprint("Pin"@) == (3nat, 'P', 'i', 'n'),
        fingerprint("unpin"@) == (5nat, 'u', 'n', 'n'),
        fingerprint("Unpin"@) == (5nat, 'U', 'n', 'n'),
        fingerprint("erase_history"@) == (13nat, 'e', 'r', 'y'),
        fingerprint("Remove from history"@) == (19nat, 'R', 'e', 'y'),
        fingerprint("activate"@) == (8nat, 'a', 'c', 'e'),
        fingerprint("Open"@) == (4nat, 'O', 'p', 'n'),
        fingerprint("open"@) == (4nat, 'o', 'p', 'n'),
        fingerprint("copy"@) == (4nat, 'c', 'o', 'y'),
        fingerprint("Copy"@) == (4nat, 'C', 'o', 'y'),
        fingerprint("delete"@) == (6nat, 'd', 'e', 'e'),
        fingerprint("Delete"@) == (6nat, 'D', 'e', 'e'),
        fingerprint("menus:open"@) == (10nat, 'm', 'e', 'n'),
        fingerprint("menus:parent"@) == (12nat, 'm', 'e', 't'),
        fingerprint("Back to parent menu"@) == (19nat, 'B', 'a', 'u'),
        fingerprint("menus:default"@) == (13nat, 'm', 'e', 't'),
        fingerprint("Run"@) == (3nat, 'R', 'u', 'n'),
        fingerprint("focus"@) == (5nat, 'f', 'o', 's'),
        fingerprint("Switch to"@) == (9nat, 'S', 'w', 'o'),
        fingerprint("focus_workspace"@) == (15nat, 'f', 'o', 'e'),
        fingerprint("Go to workspace"@) == (15nat, 'G', 'o', 'e'),
        fingerprint("run"@) == (3nat, 'r', 'u', 'n'),
        fingerprint("runterminal"@) == (11nat, 'r', 'u', 'l'),
        fingerprint("Run in terminal"@) == (15nat, 'R', 'u', 'l'),
{
    reveal_strlit("start");
    reveal_strlit("Start");
    reveal_strlit("connect");
    reveal_strlit("Connect");
    reveal_strlit("disconnect");
    reveal_strlit("Disconnect");
    reveal_strlit("pair");
    reveal_strlit("Pair");
    reveal_strlit("trust");
    reveal_strlit("Trust");
    reveal_strlit("untrust");
    reveal_strlit("Untrust");
    reveal_strlit("remove");
    reveal_strlit("Remove");
    reveal_strlit("power_on");
    reveal_strlit("Turn on");
    reveal_strlit("power_off");
    reveal_strlit("Turn off");
    reveal_strlit("find");
    reveal_strlit("Scan for devices");
    reveal_strlit("pin");
    reveal_strlit("Pin");
    reveal_strlit("unpin");
    reveal_strlit("Unpin");
    reveal_strlit("erase_history");
    reveal_strlit("Remove from history");
    reveal_strlit("activate");
    reveal_strlit("Open");
    reveal_strlit("open");
    reveal_strlit("copy");
    reveal_strlit("Copy");
    reveal_strlit("delete");
    reveal_strlit("Delete");
    reveal_strlit("menus:open");
    reveal_strlit("menus:parent");
    reveal_strlit("Back to parent menu");
    reveal_strlit("menus:default");
    reveal_strlit("Run");
    reveal_strlit("focus");
    reveal_strlit("Switch to");
    reveal_strlit("focus_workspace");
    reveal_strlit("Go to workspace");
    reveal_strlit("run");
    reveal_strlit("runterminal");
    reveal_strlit("Run in terminal");
}

/// The first known action with the label `l`.
spec fn action_labelled(l: Seq<char>) -> Seq<char> {
    if l == "Start"@ {
        "start"@
    } else if l == "Connect"@ {
        "connect"@
    } else if l == "Disconnect"@ {
        "disconnect"@
    } else if l == "Pair"@ {
        "pair"@
    } else if l == "Trust"@ {
        "trust"@
    } else if l == "Untrust"@ {
        "untrust"@
    } else if l == "Remove"@ {
        "remove"@
    } else if l == "Turn on"@ {
        "power_on"@
    } else if l == "Turn off"@ {
        "power_off"@
    } else if l == "Scan for devices"@ {
        "find"@
    } else if l == "Pin"@ {
        "pin"@
    } else if l == "Unpin"@ {
        "unpin"@
    } else if l == "Remove from history"@ {
        "erase_history"@
    } else if l == "Open"@ {
        "activate"@
    } else if l == "Copy"@ {
        "copy"@
    } else if l == "Delete"@ {
        "delete"@
    } else if l == "Back to parent menu"@ {
        "menus:parent"@
    } else if l == "Run"@ {
        "menus:default"@
    } else if l == "Switch to"@ {
        "focus"@
    } else if l == "Go to workspace"@ {
        "focus_workspace"@
    } else if l == "Run in terminal"@ {
        "runterminal"@
    } else {
        l
    }
}

/// The first known action of `a`'s synonyms: `activate`, `open` and `menus:open` all
/// open, `menus:default` and `run` both run.
spec fn label_family(a: Seq<char>) -> Seq<char> {
    if a == "open"@ || a == "menus:open"@ {
        "activate"@
    } else if a == "run"@ {
        "menus:default"@
    } else {
        a
    }
}

/// What the table gives for each known action, one case per action.
proof fn lemma_known_label_cases(a: Seq<char>)
    requires
        is_known_action(a),
    ensures
        known_label(a) is Some,
        action_labelled(known_label(a)->0) == label_family(a),
{
    lemma_action_fingerprints();
    if a == "start"@ {
        assert(known_label(a) == Some("Start"@));
    } else if a == "connect"@ {
        assert(known_label(a) == Some("Connect"@));
    } else if a == "disconnect"@ {
        assert(known_label(a) == Some("Disconnect"@));
    } else if a == "pair"@ {
        assert(known_label(a) == Some("Pair"@));
    } else if a == "trust"@ {
        assert(known_label(a) == Some("Trust"@));
    } else if a == "untrust"@ {
        assert(known_label(a) == Some("Untrust"@));
    } else if a == "remove"@ {
        assert(known_label(a) == Some("Remove"@));
    } else if a == "power_on"@ {
        assert(known_label(a) == Some("Turn on"@));
    } else if a == "power_off"@ {
        assert(known_label(a) == Some("Turn off"@));
    } else if a == "find"@ {
        assert(known_label(a) == Some("Scan for devices"@));
    } else if a == "pin"@ {
        assert(known_label(a) == Some("Pin"@));
    } else if a == "unpin"@ {
        assert(known_label(a) == Some("Unpin"@));
    } else if a == "erase_history"@ {
        assert(known_label(a) == Some("Remove from history"@));
    } else if a == "activate"@ {
        assert(known_label(a) == Some("Open"@));
    } else if a == "open"@ {
        assert(known_label(a) == Some("Open"@));
    } else if a == "copy"@ {
        assert(known_label(a) == Some("Copy"@));
    } else if a == "delete"@ {
        assert(known_label(a) == Some("Delete"@));
    } else if a == "menus:open"@ {
        assert(known_label(a) == Some("Open"@));
    } else if a == "menus:parent"@ {
        assert(known_label(a) == Some("Back to parent menu"@));
    } else if a == "menus:default"@ {
        assert(known_label(a) == Some("Run"@));
    } else if a == "focus"@ {
        assert(known_label(a) == Some("Switch to"@));
    } else if a == "focus_workspace"@ {
        assert(known_label(a) == Some("Go to workspace"@));
    } else if a == "run"@ {
        assert(known_label(a) == Some("Run"@));
    } else if a == "runterminal"@ {
        assert(known_label(a) == Some("Run in terminal"@));
    }
}

/// Runner has a fixed label exactly for the actions of its table; two of them get
/// the same label exactly when they are the same action or synonyms (`activate`,
/// `open`, `menus:open`: Open; `menus:default`, `run`: Run).
pub proof fn lemma_known_labels(a: Seq<char>, b: Seq<char>)
    ensures
        known_label(a) is Some <==> is_known_action(a),
        is_known_action(a) && is_known_action(b) ==> (action_label_spec(a) == action_label_spec(b) <==> (a
            == b || (a == "activate"@ || a == "open"@ || a == "menus:open"@) && (b == "activate"@ || b
            == "open"@ || b == "menus:open"@) || (a == "menus:default"@ || a == "run"@) && (b
            == "menus:default"@ || b == "run"@))),
{
    lemma_action_fingerprints();
    if is_known_action(a) {
        lemma_known_label_cases(a);
    }
    if is_known_action(a) && is_known_action(b) {
        lemma_known_label_cases(b);
    }
}

/// An action named by one plain word that runner knows (start, connect, disconnect,
/// pair, trust, untrust, remove, pin, unpin, open, copy, delete, run) is labelled by
/// that word with its first letter upper-cased, as an unknown action would be.
pub proof fn lemma_plain_labels(a: Seq<char>)
    requires
        a == "start"@ || a == "connect"@ || a == "disconnect"@ || a == "pair"@ || a == "trust"@ ||
            a == "untrust"@ || a == "remove"@ || a == "pin"@ || a == "unpin"@ || a == "open"@ ||
            a == "copy"@ || a == "delete"@ || a == "run"@,
    ensures
        action_label_spec(a) == seq![ascii_upper(a[0])] + a.drop_first(),
{
    lemma_action_fingerprints();
    if a == "start"@ {
        reveal_strlit("start");
        reveal_strlit("Start");
        assert(known_label(a) == Some("Start"@));
        assert(seq![ascii_upper(a[0])] + a.drop_first() =~= "Start"@);
    } else if a == "connect"@ {
        reveal_strlit("connect");
        reveal_strlit("Connect");
        assert(known_label(a) == Some("Connect"@));
        assert(seq![ascii_upper(a[0])] + a.drop_first() =~= "Connect"@);
    } else if a == "disconnect"@ {
        reveal_strlit("disconnect");
        reveal_strlit("Disconnect");
        assert(known_label(a) == Some("Disconnect"@));
        assert(seq![ascii_upper(a[0])] + a.drop_first() =~= "Disconnect"@);
    } else if a == "pair"@ {
        reveal_strlit("pair");
        reveal_strlit("Pair");
        assert(known_label(a) == Some("Pair"@));
        assert(seq![ascii_upper(a[0])] + a.drop_first() =~= "Pair"@);
    } else if a == "trust"@ {
        reveal_strlit("trust");
        reveal_strlit("Trust");
        assert(known_label(a) == Some("Trust"@));
        assert(seq![ascii_upper(a[0])] + a.drop_first() =~= "Trust"@);
    } else if a == "untrust"@ {
        reveal_strlit("untrust");
        reveal_strlit("Untrust");
        assert(known_label(a) == Some("Untrust"@));
        assert(seq![ascii_upper(a[0])] + a.drop_first() =~= "Untrust"@);
    } else if a == "remove"@ {
        reveal_strlit("remove");
        reveal_strlit("Remove");
        assert(known_label(a) == Some("Remove"@));
        assert(seq![ascii_upper(a[0])] + a.drop_first() =~= "Remove"@);
    } else if a == "pin"@ {
        reveal_strlit("pin");
        reveal_strlit("Pin");
        assert(known_label(a) == Some("Pin"@));
        assert(seq![ascii_upper(a[0])] + a.drop_first() =~= "Pin"@);
    } else if a == "unpin"@ {
        reveal_strlit("unpin");
        reveal_strlit("Unpin");
        assert(known_label(a) == Some("Unpin"@));
        assert(seq![ascii_upper(a[0])] + a.drop_first() =~= "Unpin"@);
    } else if a == "open"@ {
        reveal_strlit("open");
        reveal_strlit("Open");
        assert(known_label(a) == Some("Open"@));
        assert(seq![ascii_upper(a[0])] + a.drop_first() =~= "Open"@);
    } else if a == "copy"@ {
        reveal_strlit("copy");
        reveal_strlit("Copy");
        assert(known_label(a) == Some("Copy"@));
        assert(seq![ascii_upper(a[0])] + a.drop_first() =~= "Copy"@);
    } else if a == "delete"@ {
        reveal_strlit("delete");
        reveal_strlit("Delete");
        assert(known_label(a) == Some("Delete"@));
        assert(seq![ascii_upper(a[0])] + a.drop_first() =~= "Delete"@);
    } else if a == "run"@ {
        reveal_strlit("run");
        reveal_strlit("Run");
        assert(known_label(a) == Some("Run"@));
        assert(seq![ascii_upper(a[0])] + a.drop_first() =~= "Run"@);
    }
}

/// The fixed label of an action runner knows by name.
fn known_label_of(action: &str) -> (r: Option<&'static str>)
    ensures
        match r {
            Some(l) => known_label(action@) == Some(l@),
            None => known_label(action@) is None,
        },
{
    let a = action;
    let known: &str = if str_eq(a, "start") {
        "Start"
    } else if str_eq(a, "connect") {
        "Connect"
    } else if str_eq(a, "disconnect") {
        "Disconnect"
    } else if str_eq(a, "pair") {
        "Pair"
    } else if str_eq(a, "trust") {
        "Trust"
    } else if str_eq(a, "untrust") {
        "Untrust"
    } else if str_eq(a, "remove") {
        "Remove"
    } else if str_eq(a, "power_on") {
        "Turn on"
    } else if str_eq(a, "power_off") {
        "Turn off"
    } else if str_eq(a, "find") {
        "Scan for devices"
    } else if str_eq(a, "pin") {
        "Pin"
    } else if str_eq(a, "unpin") {
        "Unpin"
    } else if str_eq(a, "erase_history") {
        "Remove from history"
    } else if str_eq(a, "activate") {
        "Open"
    } else if str_eq(a, "open") {
        "Open"
    } else if str_eq(a, "copy") {
        "Copy"
    } else if str_eq(a, "delete") {
        "Delete"
    } else if str_eq(a, "menus:open") {
        "Open"
    } else if str_eq(a, "menus:parent") {
        "Back to parent menu"
    } else if str_eq(a, "menus:default") {
        "Run"
    } else if str_eq(a, "focus") {
        "Switch to"
    } else if str_eq(a, "focus_workspace") {
        "Go to workspace"
    } else if str_eq(a, "run") {
        "Run"
    } else if str_eq(a, "runterminal") {
        "Run in terminal"
    } else {
        ""
    };
    proof {
        reveal_strlit("Start");
        reveal_strlit("Connect");
        reveal_strlit("Disconnect");
        reveal_strlit("Pair");
        reveal_strlit("Trust");
        reveal_strlit("Untrust");
        reveal_strlit("Remove");
        reveal_strlit("Turn on");
        reveal_strlit("Turn off");
        reveal_strlit("Scan for devices");
        reveal_strlit("Pin");
        reveal_strlit("Unpin");
        reveal_strlit("Remove from history");
        reveal_strlit("Open");
        reveal_strlit("Copy");
        reveal_strlit("Delete");
        reveal_strlit("Back to parent menu");
        reveal_strlit("Run");
        reveal_strlit("Switch to");
        reveal_strlit("Go to workspace");
        reveal_strlit("Run in terminal");
        reveal_strlit("");
    }
    if known.is_empty() {
        None
    } else {
        Some(known)
    }
}

/// The words of an action's name: without its leading `menus:`, with `_ - :` as spaces.
pub fn action_words_of(action: &str) -> (r: Vec<char>)
    ensures
        r@ == action_words(action@),
{
    let mut rest: &str = action;
    proof {
        reveal_strlit("menus:");
    }
    loop
        invariant
            trim_start_matches(rest@, "menus:"@) == trim_start_matches(action@, "menus:"@),
            "menus:"@.len() == 6,
        ensures
            trim_start_matches(rest@, "menus:"@) == rest@,
            trim_start_matches(rest@, "menus:"@) == trim_start_matches(action@, "menus:"@),
        decreases rest@.len(),
    {
        match strip_prefix(rest, "menus:") {
            Some(r) => {
                rest = r;
            },
            None => {
                break;
            },
        }
    }
    let cs = chars_of(rest);
    let mut words: Vec<char> = Vec::new();
    let mut i: usize = 0;
    while i < cs.len()
        invariant
            i <= cs@.len(),
            words@ == spaced(cs@.take(i as int)),
        decreases cs@.len() - i,
    {
        let c = cs[i];
        words.push(if c == '_' || c == '-' || c == ':' { ' ' } else { c });
        assert(spaced(cs@.take(i + 1)) =~= spaced(cs@.take(i as int)).push(
            if c == '_' || c == '-' || c == ':' { ' ' } else { c },
        ));
        i = i + 1;
    }
    assert(cs@.take(cs@.len() as int) == cs@);
    words
}

/// The label of an action, given what the first character of its words upper-cases
/// to (`upper_first`, unused for an action runner knows or one without words).
pub fn label_with(action: &str, upper_first: &str) -> (r: String)
    ensures
        r@ == label_from(action@, upper_first@),
{
    if let Some(l) = known_label_of(action) {
        return owned(l);
    }
    let words = action_words_of(action);
    if words.len() == 0 {
        return String::new();
    }
    let mut r = owned(upper_first);
    let tail = slice_from(words.as_slice(), 1);
    push_str(&mut r, string_of(tail.as_slice()).as_str());
    r
}

/// Readable label of an action: a fixed one for the actions runner knows, else the
/// action's name without `menus:`, with `_ - :` as spaces and the first letter upper-cased.
pub fn action_label(action: &str) -> (r: String)
    ensures
        r@ == action_label_spec(action@),
{
    let words = action_words_of(action);
    let upper_first = if words.len() > 0 {
        char_to_uppercase(words[0])
    } else {
        String::new()
    };
    label_with(action, upper_first.as_str())
}

// ---------------------------------------------------------------------------
// Ordering actions
// ---------------------------------------------------------------------------

/// `s` with later copies of each element removed.
pub open spec fn dedup(s: Seq<Seq<char>>) -> Seq<Seq<char>>
    decreases s.len(),
{
    if s.len() == 0 {
        s
    } else {
        let d = dedup(s.drop_last());
        if d.contains(s.last()) {
            d
        } else {
            d.push(s.last())
        }
    }
}

/// Actions that must never end up under Enter.
pub open spec fn destructive() -> Seq<Seq<char>> {
    seq!["remove"@, "erase_history"@, "delete"@, "delete_all"@, "clear"@]
}

/// The actions of an item in the order Enter, Alt+2, Alt+3… take them: first the
/// preferred ones (in the configured order), then the others in elephant's order,
/// the destructive ones last; each action once.
pub open spec fn order_actions_spec(actions: Seq<Seq<char>>, preferred: Seq<Seq<char>>) -> Seq<
    Seq<char>,
> {
    dedup(preferred).filter(|p: Seq<char>| actions.contains(p)) + dedup(actions).filter(
        |a: Seq<char>| !preferred.contains(a) && !destructive().contains(a),
    ) + dedup(actions).filter(|a: Seq<char>| !preferred.contains(a) && destructive().contains(a))
}

/// `dedup` keeps exactly the elements of `s`.
pub proof fn lemma_dedup_contains(s: Seq<Seq<char>>, x: Seq<char>)
    ensures
        dedup(s).contains(x) == s.contains(x),
    decreases s.len(),
{
    if s.len() > 0 {
        let t = s.drop_last();
        let l = s.last();
        lemma_dedup_contains(t, x);
        let d = dedup(t);
        assert(s == t.push(l));
        if d.contains(l) {
            assert(dedup(s) == d);
            if x == l {
                let i = choose|i: int| 0 <= i < d.len() && d[i] == l;
                let j = choose|j: int| 0 <= j < t.len() && t[j] == l;
                assert(s[j] == x);
            } else if s.contains(x) {
                let i = choose|i: int| 0 <= i < s.len() && s[i] == x;
                assert(t[i] == x);
            } else if t.contains(x) {
                let i = choose|i: int| 0 <= i < t.len() && t[i] == x;
                assert(s[i] == x);
            }
        } else {
            assert(dedup(s) == d.push(l));
            let e = d.push(l);
            if x == l {
                assert(e[d.len() as int] == x);
                assert(s[s.len() - 1] == x);
            } else {
                if s.contains(x) {
                    let i = choose|i: int| 0 <= i < s.len() && s[i] == x;
                    assert(t[i] == x);
                    let k = choose|k: int| 0 <= k < d.len() && d[k] == x;
                    assert(e[k] == x);
                }
                if e.contains(x) {
                    let k = choose|k: int| 0 <= k < e.len() && e[k] == x;
                    assert(d[k] == x);
                    let i = choose|i: int| 0 <= i < t.len() && t[i] == x;
                    assert(s[i] == x);
                }
            }
        }
    }
}

/// `dedup` holds each element once.
pub proof fn lemma_dedup_no_duplicates(s: Seq<Seq<char>>)
    ensures
        dedup(s).no_duplicates(),
    decreases s.len(),
{
    if s.len() > 0 {
        lemma_dedup_no_duplicates(s.drop_last());
    }
}

/// Where `x` first occurs in `s`; `s.len()` when it does not occur.
pub open spec fn first_position(s: Seq<Seq<char>>, x: Seq<char>) -> int
    decreases s.len(),
{
    if s.len() == 0 {
        0
    } else if s.drop_last().contains(x) {
        first_position(s.drop_last(), x)
    } else if s.last() == x {
        s.len() - 1
    } else {
        s.len() as int
    }
}

/// The key that orders an action: a preferred one by its place among the
/// preferred, then every other one, then the destructive ones.
pub open spec fn action_rank(a: Seq<char>, preferred: Seq<Seq<char>>) -> int {
    if preferred.contains(a) {
        first_position(preferred, a)
    } else if destructive().contains(a) {
        preferred.len() + 1int
    } else {
        preferred.len() as int
    }
}

/// Whether the elements of `r` come in the order of their first occurrence in `s`.
pub open spec fn in_order_of(r: Seq<Seq<char>>, s: Seq<Seq<char>>) -> bool {
    forall|i: int, j: int|
        0 <= i < j < r.len() ==> first_position(s, #[trigger] r[i]) < first_position(s, #[trigger] r[j])
}

proof fn lemma_first_position(s: Seq<Seq<char>>, x: Seq<char>)
    ensures
        s.contains(x) ==> 0 <= first_position(s, x) < s.len() && s[first_position(s, x)] == x,
        !s.contains(x) ==> first_position(s, x) == s.len(),
    decreases s.len(),
{
    if s.len() > 0 {
        let t = s.drop_last();
        lemma_first_position(t, x);
        if t.contains(x) {
            assert(s[first_position(t, x)] == t[first_position(t, x)]);
        } else if s.last() == x {
        } else {
            assert forall|k: int| 0 <= k < s.len() implies s[k] != x by {
                if k < t.len() {
                    assert(t[k] == s[k]);
                }
            }
        }
    }
}

proof fn lemma_dedup_in_order(s: Seq<Seq<char>>)
    ensures
        in_order_of(dedup(s), s),
    decreases s.len(),
{
    if s.len() > 0 {
        let t = s.drop_last();
        let l = s.last();
        let d = dedup(t);
        lemma_dedup_in_order(t);
        assert forall|k: int| 0 <= k < d.len() implies first_position(s, #[trigger] d[k]) == first_position(t, d[k])
            && first_position(t, d[k]) < t.len() by {
            lemma_dedup_contains(t, d[k]);
            assert(d.contains(d[k]));
            lemma_first_position(t, d[k]);
        }
        if !d.contains(l) {
            lemma_dedup_contains(t, l);
            let e = d.push(l);
            assert(first_position(s, l) == t.len());
            assert forall|i: int, j: int| 0 <= i < j < e.len() implies first_position(s, #[trigger] e[i])
                < first_position(s, #[trigger] e[j]) by {
                assert(e[i] == d[i]);
                if j < d.len() {
                    assert(e[j] == d[j]);
                }
            }
        }
    }
}

proof fn lemma_filter_in_order(r: Seq<Seq<char>>, s: Seq<Seq<char>>, f: spec_fn(Seq<char>) -> bool)
    requires
        in_order_of(r, s),
    ensures
        in_order_of(r.filter(f), s),
    decreases r.len(),
{
    if r.len() > 0 {
        let t = r.drop_last();
        let x = r.last();
        assert(r == t.push(x));
        assert forall|i: int, j: int| 0 <= i < j < t.len() implies first_position(s, #[trigger] t[i])
            < first_position(s, #[trigger] t[j]) by {
            assert(t[i] == r[i] && t[j] == r[j]);
        }
        lemma_filter_in_order(t, s, f);
        lemma_filter_push(t, f, x);
        if f(x) {
            let u = t.filter(f);
            let e = u.push(x);
            assert forall|i: int, j: int| 0 <= i < j < e.len() implies first_position(s, #[trigger] e[i])
                < first_position(s, #[trigger] e[j]) by {
                assert(e[i] == u[i]);
                if j < u.len() {
                    assert(e[j] == u[j]);
                } else {
                    assert(u.contains(u[i]));
                    t.lemma_filter_contains_rev(f, u[i]);
                    let k = choose|k: int| 0 <= k < t.len() && t[k] == u[i];
                    assert(r[k] == u[i] && r[r.len() - 1] == x);
                }
            }
        }
    }
}

/// The order of `order_actions`, stated as a sort: the result holds each action of
/// `actions` exactly once, by nondecreasing rank (preferred ones in the configured
/// order, then the others, the destructive ones last), and actions of equal rank keep
/// the order in which they first came from elephant.
pub proof fn lemma_order_actions_sorted(actions: Seq<Seq<char>>, preferred: Seq<Seq<char>>)
    ensures
        forall|x: Seq<char>| #[trigger] order_actions_spec(actions, preferred).contains(x) == actions.contains(x),
        order_actions_spec(actions, preferred).no_duplicates(),
        forall|i: int, j: int|
            0 <= i < j < order_actions_spec(actions, preferred).len() ==> action_rank(
                #[trigger] order_actions_spec(actions, preferred)[i],
                preferred,
            ) <= action_rank(#[trigger] order_actions_spec(actions, preferred)[j], preferred),
        forall|i: int, j: int|
            0 <= i < j < order_actions_spec(actions, preferred).len() && action_rank(
                #[trigger] order_actions_spec(actions, preferred)[i],
                preferred,
            ) == action_rank(#[trigger] order_actions_spec(actions, preferred)[j], preferred)
                ==> first_position(actions, order_actions_spec(actions, preferred)[i]) < first_position(
                actions,
                order_actions_spec(actions, preferred)[j],
            ),
{
    let f1 = |p: Seq<char>| actions.contains(p);
    let f2 = |a: Seq<char>| !preferred.contains(a) && !destructive().contains(a);
    let f3 = |a: Seq<char>| !preferred.contains(a) && destructive().contains(a);
    let p1 = dedup(preferred).filter(f1);
    let p2 = dedup(actions).filter(f2);
    let p3 = dedup(actions).filter(f3);
    let r = order_actions_spec(actions, preferred);
    assert(r == p1 + p2 + p3);
    let n1 = p1.len() as int;
    let n2 = p2.len() as int;
    lemma_dedup_in_order(preferred);
    lemma_dedup_in_order(actions);
    lemma_filter_in_order(dedup(preferred), preferred, f1);
    lemma_filter_in_order(dedup(actions), actions, f2);
    lemma_filter_in_order(dedup(actions), actions, f3);
    // Where each element of the result comes from, and its rank.
    assert forall|k: int| 0 <= k < r.len() implies (if k < n1 {
        r[k] == p1[k] && action_rank(r[k], preferred) == first_position(preferred, r[k])
            && action_rank(r[k], preferred) < preferred.len()
    } else if k < n1 + n2 {
        r[k] == p2[k - n1] && action_rank(r[k], preferred) == preferred.len()
    } else {
        r[k] == p3[k - n1 - n2] && action_rank(r[k], preferred) == preferred.len() + 1
    }) && actions.contains(r[k]) by {
        if k < n1 {
            assert(r[k] == p1[k]);
            dedup(preferred).lemma_filter_pred(f1, k);
            assert(p1.contains(p1[k]));
            dedup(preferred).lemma_filter_contains_rev(f1, p1[k]);
            lemma_dedup_contains(preferred, p1[k]);
            lemma_first_position(preferred, p1[k]);
        } else if k < n1 + n2 {
            assert(r[k] == p2[k - n1]);
            dedup(actions).lemma_filter_pred(f2, k - n1);
            assert(p2.contains(p2[k - n1]));
            dedup(actions).lemma_filter_contains_rev(f2, p2[k - n1]);
            lemma_dedup_contains(actions, p2[k - n1]);
        } else {
            assert(r[k] == p3[k - n1 - n2]);
            dedup(actions).lemma_filter_pred(f3, k - n1 - n2);
            assert(p3.contains(p3[k - n1 - n2]));
            dedup(actions).lemma_filter_contains_rev(f3, p3[k - n1 - n2]);
            lemma_dedup_contains(actions, p3[k - n1 - n2]);
        }
    }
    assert forall|i: int, j: int| 0 <= i < j < r.len() implies action_rank(#[trigger] r[i], preferred)
        <= action_rank(#[trigger] r[j], preferred) && (action_rank(r[i], preferred) == action_rank(
        r[j],
        preferred,
    ) ==> first_position(actions, r[i]) < first_position(actions, r[j])) by {
        if j < n1 {
            assert(first_position(preferred, p1[i]) < first_position(preferred, p1[j]));
        } else if i >= n1 && j < n1 + n2 {
            assert(first_position(actions, p2[i - n1]) < first_position(actions, p2[j - n1]));
        } else if i >= n1 + n2 {
            assert(first_position(actions, p3[i - n1 - n2]) < first_position(actions, p3[j - n1 - n2]));
        }
    }
    assert forall|i: int, j: int| 0 <= i < r.len() && 0 <= j < r.len() && i != j implies r[i] != r[j] by {
        if i < j {
            assert(action_rank(r[i], preferred) <= action_rank(r[j], preferred));
        } else {
            assert(action_rank(r[j], preferred) <= action_rank(r[i], preferred));
        }
    }
    assert forall|x: Seq<char>| #[trigger] r.contains(x) == actions.contains(x) by {
        if r.contains(x) {
            let k = choose|k: int| 0 <= k < r.len() && r[k] == x;
            assert(actions.contains(r[k]));
        }
        if actions.contains(x) {
            lemma_dedup_contains(actions, x);
            lemma_dedup_contains(preferred, x);
            if preferred.contains(x) {
                let k = choose|k: int| 0 <= k < dedup(preferred).len() && dedup(preferred)[k] == x;
                dedup(preferred).lemma_filter_contains(f1, k);
                let m = choose|m: int| 0 <= m < p1.len() && p1[m] == x;
                assert(r[m] == x);
            } else {
                let k = choose|k: int| 0 <= k < dedup(actions).len() && dedup(actions)[k] == x;
                if destructive().contains(x) {
                    dedup(actions).lemma_filter_contains(f3, k);
                    let m = choose|m: int| 0 <= m < p3.len() && p3[m] == x;
                    assert(r[n1 + n2 + m] == x);
                } else {
                    dedup(actions).lemma_filter_contains(f2, k);
                    let m = choose|m: int| 0 <= m < p2.len() && p2[m] == x;
                    assert(r[n1 + m] == x);
                }
            }
        }
    }
}

proof fn lemma_dedup_of_distinct(s: Seq<Seq<char>>)
    requires
        s.no_duplicates(),
    ensures
        dedup(s) == s,
    decreases s.len(),
{
    if s.len() > 0 {
        let t = s.drop_last();
        let l = s.last();
        assert forall|i: int, j: int| 0 <= i < t.len() && 0 <= j < t.len() && i != j implies t[i] != t[j] by {
            assert(t[i] == s[i] && t[j] == s[j]);
        }
        lemma_dedup_of_distinct(t);
        if t.contains(l) {
            let k = choose|k: int| 0 <= k < t.len() && t[k] == l;
            assert(s[k] == s[s.len() - 1]);
        }
        assert(t.push(l) =~= s);
    }
}

proof fn lemma_filter_keeps_all(s: Seq<Seq<char>>, f: spec_fn(Seq<char>) -> bool)
    requires
        forall|i: int| 0 <= i < s.len() ==> f(#[trigger] s[i]),
    ensures
        s.filter(f) == s,
    decreases s.len(),
{
    if s.len() > 0 {
        let t = s.drop_last();
        assert forall|i: int| 0 <= i < t.len() implies f(#[trigger] t[i]) by {
            assert(t[i] == s[i]);
        }
        lemma_filter_keeps_all(t, f);
        lemma_filter_push(t, f, s.last());
        assert(t.push(s.last()) =~= s);
    }
}

proof fn lemma_filter_keeps_none(s: Seq<Seq<char>>, f: spec_fn(Seq<char>) -> bool)
    requires
        forall|i: int| 0 <= i < s.len() ==> !f(#[trigger] s[i]),
    ensures
        s.filter(f) == Seq::<Seq<char>>::empty(),
    decreases s.len(),
{
    if s.len() > 0 {
        let t = s.drop_last();
        assert forall|i: int| 0 <= i < t.len() implies !f(#[trigger] t[i]) by {
            assert(t[i] == s[i]);
        }
        lemma_filter_keeps_none(t, f);
        lemma_filter_push(t, f, s.last());
        assert(t.push(s.last()) =~= s);
    }
}

/// Ordering the actions of an item a second time changes nothing: the order is
/// already that of the preferences, the other actions and the destructive ones.
pub proof fn lemma_order_actions_idempotent(actions: Seq<Seq<char>>, preferred: Seq<Seq<char>>)
    ensures
        order_actions_spec(order_actions_spec(actions, preferred), preferred) == order_actions_spec(
            actions,
            preferred,
        ),
{
    let r = order_actions_spec(actions, preferred);
    lemma_order_actions_sorted(actions, preferred);
    lemma_dedup_of_distinct(r);
    let f1 = |p: Seq<char>| actions.contains(p);
    let g1 = |p: Seq<char>| r.contains(p);
    let f2 = |a: Seq<char>| !preferred.contains(a) && !destructive().contains(a);
    let f3 = |a: Seq<char>| !preferred.contains(a) && destructive().contains(a);
    assert(g1 =~= f1);
    let p1 = dedup(preferred).filter(f1);
    let p2 = dedup(actions).filter(f2);
    let p3 = dedup(actions).filter(f3);
    assert(r == p1 + p2 + p3);
    assert forall|i: int| 0 <= i < p1.len() implies preferred.contains(#[trigger] p1[i]) by {
        assert(p1.contains(p1[i]));
        dedup(preferred).lemma_filter_contains_rev(f1, p1[i]);
        lemma_dedup_contains(preferred, p1[i]);
    }
    assert forall|i: int| 0 <= i < p2.len() implies f2(#[trigger] p2[i]) by {
        dedup(actions).lemma_filter_pred(f2, i);
    }
    assert forall|i: int| 0 <= i < p3.len() implies f3(#[trigger] p3[i]) by {
        dedup(actions).lemma_filter_pred(f3, i);
    }
    Seq::filter_distributes_over_add(p1 + p2, p3, f2);
    Seq::filter_distributes_over_add(p1, p2, f2);
    Seq::filter_distributes_over_add(p1 + p2, p3, f3);
    Seq::filter_distributes_over_add(p1, p2, f3);
    lemma_filter_keeps_none(p1, f2);
    lemma_filter_keeps_all(p2, f2);
    lemma_filter_keeps_none(p3, f2);
    lemma_filter_keeps_none(p1, f3);
    lemma_filter_keeps_none(p2, f3);
    lemma_filter_keeps_all(p3, f3);
    assert(r.filter(f2) == p2);
    assert(r.filter(f3) == p3);
    assert(dedup(preferred).filter(g1) == p1);
    assert(order_actions_spec(r, preferred) == dedup(preferred).filter(g1) + r.filter(f2) + r.filter(f3));
}

/// The destructive actions are exactly `remove`, `erase_history`, `delete`,
/// `delete_all` and `clear`.
proof fn lemma_destructive_names(x: Seq<char>)
    ensures
        destructive().contains(x) <==> (x == "remove"@ || x == "erase_history"@ || x == "delete"@ || x
            == "delete_all"@ || x == "clear"@),
{
    let d = destructive();
    if x == "remove"@ {
        assert(d[0] == x);
    } else if x == "erase_history"@ {
        assert(d[1] == x);
    } else if x == "delete"@ {
        assert(d[2] == x);
    } else if x == "delete_all"@ {
        assert(d[3] == x);
    } else if x == "clear"@ {
        assert(d[4] == x);
    } else if d.contains(x) {
        let k = choose|k: int| 0 <= k < d.len() && d[k] == x;
        assert(d[k] == x);
    }
}

/// Where `order_actions` puts things: the preferred actions come before every other
/// one, and an action that is not preferred and is named `remove`, `erase_history`,
/// `delete`, `delete_all` or `clear` comes after every action with another name, so
/// Enter never runs one of them while the item offers anything else.
pub proof fn lemma_destructive_last(actions: Seq<Seq<char>>, preferred: Seq<Seq<char>>)
    ensures
        forall|i: int, j: int|
            0 <= i < j < order_actions_spec(actions, preferred).len() && preferred.contains(
                #[trigger] order_actions_spec(actions, preferred)[j],
            ) ==> preferred.contains(#[trigger] order_actions_spec(actions, preferred)[i]),
        forall|i: int, j: int|
            0 <= i < j < order_actions_spec(actions, preferred).len() && !preferred.contains(
                #[trigger] order_actions_spec(actions, preferred)[i],
            ) && ({
                let x = order_actions_spec(actions, preferred)[i];
                x == "remove"@ || x == "erase_history"@ || x == "delete"@ || x == "delete_all"@ || x
                    == "clear"@
            }) ==> !preferred.contains(#[trigger] order_actions_spec(actions, preferred)[j]) && ({
                let y = order_actions_spec(actions, preferred)[j];
                y == "remove"@ || y == "erase_history"@ || y == "delete"@ || y == "delete_all"@ || y
                    == "clear"@
            }),
{
    let r = order_actions_spec(actions, preferred);
    lemma_order_actions_sorted(actions, preferred);
    assert forall|i: int, j: int| 0 <= i < j < r.len() implies (preferred.contains(#[trigger] r[j])
        ==> preferred.contains(#[trigger] r[i])) && ((!preferred.contains(r[i]) && destructive().contains(
        r[i],
    )) ==> !preferred.contains(r[j]) && destructive().contains(r[j])) by {
        assert(action_rank(r[i], preferred) <= action_rank(r[j], preferred));
        if preferred.contains(r[j]) {
            lemma_first_position(preferred, r[j]);
        }
    }
    assert forall|i: int| 0 <= i < r.len() implies destructive().contains(#[trigger] r[i]) <==> ({
        let x = r[i];
        x == "remove"@ || x == "erase_history"@ || x == "delete"@ || x == "delete_all"@ || x == "clear"@
    }) by {
        lemma_destructive_names(r[i]);
    }
}

/// Whether `v` holds a string equal to `s`.
pub fn contains_str(v: &[String], s: &str) -> (r: bool)
    ensures
        r == views(v@).contains(s@),
{
    let mut i: usize = 0;
    while i < v.len()
        invariant
            i <= v@.len(),
            forall|j: int| 0 <= j < i ==> v@[j]@ != s@,
        decreases v@.len() - i,
    {
        if str_eq(v[i].as_str(), s) {
            assert(views(v@)[i as int] == s@);
            return true;
        }
        i = i + 1;
    }
    assert forall|j: int| 0 <= j < views(v@).len() implies views(v@)[j] != s@ by {
        assert(views(v@)[j] == v@[j]@);
    }
    false
}

/// A copy of `v` without later duplicates.
pub fn dedup_strings(v: &[String]) -> (r: Vec<String>)
    ensures
        views(r@) == dedup(views(v@)),
{
    let mut out: Vec<String> = Vec::new();
    let mut i: usize = 0;
    while i < v.len()
        invariant
            i <= v@.len(),
            views(out@) == dedup(views(v@).take(i as int)),
        decreases v@.len() - i,
    {
        let ghost before = out@;
        let present = contains_str(out.as_slice(), v[i].as_str());
        proof {
            let t = views(v@).take(i + 1);
            assert(t.drop_last() == views(v@).take(i as int));
            assert(t.last() == v@[i as int]@);
        }
        if !present {
            out.push(owned(v[i].as_str()));
            assert(views(out@) =~= views(before).push(v@[i as int]@));
        }
        i = i + 1;
    }
    assert(views(v@).take(v@.len() as int) == views(v@));
    out
}

/// The elements of `v` that `keep` selects, in order, copied.
fn filter_strings(v: &[String], preferred: &[String], actions: &[String], group: u8) -> (r: Vec<
    String,
>)
    requires
        group < 3,
    ensures
        views(r@) == views(v@).filter(group_pred(views(preferred@), views(actions@), group)),
{
    let mut out: Vec<String> = Vec::new();
    let mut i: usize = 0;
    let ghost pred = group_pred(views(preferred@), views(actions@), group);
    while i < v.len()
        invariant
            i <= v@.len(),
            group < 3,
            pred == group_pred(views(preferred@), views(actions@), group),
            views(out@) == views(v@).take(i as int).filter(pred),
        decreases v@.len() - i,
    {
        let a = v[i].as_str();
        let keep = if group == 0 {
            contains_str(actions, a)
        } else if group == 1 {
            !contains_str(preferred, a) && !is_destructive(a)
        } else {
            !contains_str(preferred, a) && is_destructive(a)
        };
        let ghost before = out@;
        proof {
            let t = views(v@).take(i + 1);
            assert(t == views(v@).take(i as int).push(v@[i as int]@));
            lemma_filter_push(views(v@).take(i as int), pred, v@[i as int]@);
        }
        if keep {
            out.push(owned(a));
            assert(views(out@) =~= views(before).push(v@[i as int]@));
        }
        i = i + 1;
    }
    assert(views(v@).take(v@.len() as int) == views(v@));
    out
}

/// The three groups of `order_actions_spec`, by number.
pub open spec fn group_pred(preferred: Seq<Seq<char>>, actions: Seq<Seq<char>>, group: u8) -> spec_fn(
    Seq<char>,
) -> bool {
    if group == 0 {
        |p: Seq<char>| actions.contains(p)
    } else if group == 1 {
        |a: Seq<char>| !preferred.contains(a) && !destructive().contains(a)
    } else {
        |a: Seq<char>| !preferred.contains(a) && destructive().contains(a)
    }
}

/// Whether an action is destructive.
pub fn is_destructive(a: &str) -> (r: bool)
    ensures
        r == destructive().contains(a@),
{
    let r = str_eq(a, "remove") || str_eq(a, "erase_history") || str_eq(a, "delete") || str_eq(
        a,
        "delete_all",
    ) || str_eq(a, "clear");
    proof {
        let d = destructive();
        if r {
            if a@ == "remove"@ { assert(d[0] == a@); }
            if a@ == "erase_history"@ { assert(d[1] == a@); }
            if a@ == "delete"@ { assert(d[2] == a@); }
            if a@ == "delete_all"@ { assert(d[3] == a@); }
            if a@ == "clear"@ { assert(d[4] == a@); }
        }
    }
    r
}

/// Orders the actions of an item: first the preferred ones (in the configured
/// order), then the others in elephant's order, the destructive ones last. Drops
/// duplicates (the bluetooth provider sends `remove` twice, and first).
pub fn order_actions(actions: &[String], preferred: &[String]) -> (r: Vec<String>)
    ensures
        views(r@) == order_actions_spec(views(actions@), views(preferred@)),
{
    let unique = dedup_strings(actions);
    let wanted = dedup_strings(preferred);
    let mut out = filter_strings(wanted.as_slice(), preferred, actions, 0);
    let mut rest = filter_strings(unique.as_slice(), preferred, actions, 1);
    let mut last = filter_strings(unique.as_slice(), preferred, actions, 2);
    let ghost (a, b, c) = (out@, rest@, last@);
    out.append(&mut rest);
    out.append(&mut last);
    assert(views(out@) =~= views(a) + views(b) + views(c));
    out
}

// ---------------------------------------------------------------------------
// What the search bar means
// ---------------------------------------------------------------------------

/// What the text in the search bar means.
#[derive(Debug, PartialEq, Eq)]
pub enum Mode<'a> {
    /// Normal search over the default providers.
    Default { query: &'a str },
    /// One provider only: a configured prefix (it stays in the text) or the active mode.
    Single { provider: String, query: &'a str },
    /// A complete `/name`: the mode is entered and only the query stays in the text.
    Enter { provider: String, query: &'a str },
    /// `/filter`: the list of installed providers.
    ProviderList { filter: &'a str },
}

/// The meaning of a `Mode`, over character sequences.
pub enum ModeModel {
    Default { query: Seq<char> },
    Single { provider: Seq<char>, query: Seq<char> },
    Enter { provider: Seq<char>, query: Seq<char> },
    ProviderList { filter: Seq<char> },
}

impl<'a> View for Mode<'a> {
    type V = ModeModel;

    open spec fn view(&self) -> ModeModel {
        match self {
            Mode::Default { query } => ModeModel::Default { query: query@ },
            Mode::Single { provider, query } => ModeModel::Single {
                provider: provider@,
                query: query@,
            },
            Mode::Enter { provider, query } => ModeModel::Enter {
                provider: provider@,
                query: query@,
            },
            Mode::ProviderList { filter } => ModeModel::ProviderList { filter: filter@ },
        }
    }
}

/// The provider a mode is limited to, if any.
pub open spec fn mode_provider(m: ModeModel) -> Option<Seq<char>> {
    match m {
        ModeModel::Single { provider, .. } => Some(provider),
        ModeModel::Enter { provider, .. } => Some(provider),
        _ => None,
    }
}

impl<'a> Mode<'a> {
    /// The provider the mode is limited to, if any.
    pub fn provider(&self) -> (r: Option<&str>)
        ensures
            match r {
                Some(p) => mode_provider(self@) == Some(p@),
                None => mode_provider(self@) is None,
            },
    {
        match self {
            Mode::Single { provider, .. } => Some(provider.as_str()),
            Mode::Enter { provider, .. } => Some(provider.as_str()),
            _ => None,
        }
    }
}

/// `s` split at its first space: the part before, and the part after it
/// (all of `s` and nothing when there is no space).
pub open spec fn split_at_space(s: Seq<char>) -> (Seq<char>, Seq<char>) {
    match first_index_of(s, ' ') {
        Some(i) => (s.take(i), s.skip(i + 1)),
        None => (s, Seq::empty()),
    }
}

/// The meaning of `text`, with the mode `active` (if one is active), the settings'
/// provider prefix and prefix table, and the installed providers.
pub open spec fn parse_mode_spec(
    text: Seq<char>,
    active: Option<Seq<char>>,
    provider_prefix: Seq<char>,
    prefixes: Map<Seq<char>, Seq<char>>,
    installed: Seq<Seq<char>>,
) -> ModeModel {
    match active {
        Some(p) => ModeModel::Single { provider: p, query: text },
        None => if provider_prefix.len() > 0 && is_prefix_of(provider_prefix, text) {
            let rest = text.subrange(provider_prefix.len() as int, text.len() as int);
            let (name, query) = split_at_space(rest);
            if installed.contains(name) {
                ModeModel::Enter { provider: name, query }
            } else {
                ModeModel::ProviderList { filter: rest }
            }
        } else {
            let (p, q) = split_prefix_spec(prefixes, text);
            match p {
                Some(p) => ModeModel::Single { provider: p, query: q },
                None => ModeModel::Default { query: q },
            }
        },
    }
}

/// Typing the provider prefix and the exact name of an installed provider (with no
/// mode active) enters that provider's mode, with what follows the first space as
/// the query; a name that is not installed shows the filtered list instead.
pub proof fn lemma_prefix_enters_mode(
    provider_prefix: Seq<char>,
    prefixes: Map<Seq<char>, Seq<char>>,
    installed: Seq<Seq<char>>,
    name: Seq<char>,
    query: Seq<char>,
)
    requires
        provider_prefix.len() > 0,
        !name.contains(' '),
    ensures
        installed.contains(name) ==> parse_mode_spec(provider_prefix + name + " "@ + query, None, provider_prefix, prefixes, installed)
            == (ModeModel::Enter { provider: name, query }),
        installed.contains(name) ==> parse_mode_spec(provider_prefix + name, None, provider_prefix, prefixes, installed)
            == (ModeModel::Enter { provider: name, query: Seq::empty() }),
        !installed.contains(name) ==> parse_mode_spec(provider_prefix + name, None, provider_prefix, prefixes, installed)
            == (ModeModel::ProviderList { filter: name }),
{
    reveal_strlit(" ");
    let n = provider_prefix.len() as int;
    let t1 = provider_prefix + name + " "@ + query;
    let rest1 = name + " "@ + query;
    assert(t1.subrange(0, n) == provider_prefix);
    assert(t1.subrange(n, t1.len() as int) == rest1);
    assert forall|j: int| 0 <= j < name.len() implies rest1[j] != ' ' by {
        assert(rest1[j] == name[j]);
    }
    lemma_first_index_of_at(rest1, ' ', name.len() as int);
    assert(rest1.take(name.len() as int) == name);
    assert(rest1.skip(name.len() + 1int) == query);
    let t2 = provider_prefix + name;
    assert(t2.subrange(0, n) == provider_prefix);
    assert(t2.subrange(n, t2.len() as int) == name);
    assert forall|j: int| 0 <= j < name.len() implies name[j] != ' ' by {
        if name[j] == ' ' {
            assert(name.contains(' '));
        }
    }
    lemma_first_index_of_at(name, ' ', name.len() as int);
}

/// `/bluetooth` or `/bluetooth text` enters the bluetooth mode; `/blu` shows the
/// filtered list of providers. The name must be exactly an installed provider, so
/// that `/b` shows the list instead of jumping to the first match. With a mode
/// already active, all the text is query.
pub fn parse_mode<'a>(text: &'a str, active: Option<&str>, config: &Config, installed: &[String]) -> (r:
    Mode<'a>)
    ensures
        r@ == parse_mode_spec(
            text@,
            match active {
                Some(p) => Some(p@),
                None => None,
            },
            config.provider_prefix@,
            config.prefixes@,
            views(installed@),
        ),
{
    if let Some(provider) = active {
        return Mode::Single { provider: owned(provider), query: text };
    }
    let prefix = config.provider_prefix.as_str();
    if !prefix.is_empty() {
        if let Some(rest) = strip_prefix(text, prefix) {
            let rc = chars_of(rest);
            let found = find_char(rc.as_slice(), ' ');
            proof {
                lemma_first_index_of(rest@, ' ');
                reveal_strlit("");
            }
            let (name, query): (&str, &'a str) = match found {
                Some(i) => {
                    let rlen = rc.len();
                    assert(i < rlen);
                    (rest.substring_char(0, i), rest.substring_char(i + 1, rlen))
                },
                None => (rest, ""),
            };
            assert((name@, query@) == split_at_space(rest@)) by {
                match found {
                    Some(i) => {
                        assert(name@ == rest@.take(i as int));
                        assert(query@ == rest@.skip(i + 1));
                    },
                    None => {
                        assert(query@ == Seq::<char>::empty());
                    },
                }
            }
            if contains_str(installed, name) {
                return Mode::Enter { provider: owned(name), query };
            }
            return Mode::ProviderList { filter: rest };
        }
    }
    match config.split_prefix(text) {
        (Some(provider), query) => Mode::Single { provider, query },
        (None, query) => Mode::Default { query },
    }
}

/// `cs[from..]`.
fn slice_from(cs: &[char], from: usize) -> (r: Vec<char>)
    requires
        from <= cs@.len(),
    ensures
        r@ == cs@.skip(from as int),
{
    slice_range(cs, from, cs.len())
}

/// `cs[from..to]`.
fn slice_range(cs: &[char], from: usize, to: usize) -> (r: Vec<char>)
    requires
        from <= to <= cs@.len(),
    ensures
        r@ == cs@.subrange(from as int, to as int),
{
    let mut r: Vec<char> = Vec::new();
    let mut i = from;
    while i < to
        invariant
            from <= i <= to,
            to <= cs@.len(),
            r@ == cs@.subrange(from as int, i as int),
        decreases to - i,
    {
        r.push(cs[i]);
        assert(cs@.subrange(from as int, i + 1) == cs@.subrange(from as int, i as int).push(
            cs@[i as int],
        ));
        i = i + 1;
    }
    r
}

} // verus!
