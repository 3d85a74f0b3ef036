//! The launchd agent (macOS): its property list, the `launchctl` targets it
//! is addressed by, and reading `launchctl print` output.
use vstd::prelude::*;

use crate::text::{
    chars_of, chars_start_with, decimal_digits, find_char_from, lemma_index_of, lines_seq,
    push_chars, push_str, starts_with, string_from_chars, strip_cr, sub_chars, trim_chars,
    trim_seq, u32_decimal,
};

verus! {

broadcast use vstd::string::group_string_axioms;

/// The agent's launchd label.
pub const LABEL: &'static str = "io.github.proxypass";

/// Where the agent's property list is written, relative to the user's home
/// directory (a per-user launch agent).
pub const PLIST_PATH: &'static str = "Library/LaunchAgents/io.github.proxypass.plist";

/// `home/Library/LaunchAgents/io.github.proxypass.plist`.
pub open spec fn plist_path_spec(home: Seq<char>) -> Seq<char> {
    home + "/"@ + PLIST_PATH@
}

/// The path of the agent's property list under the home directory `home`.
pub fn plist_path(home: &str) -> (r: String)
    ensures
        r@ == plist_path_spec(home@),
{
    let mut out = chars_of(home);
    push_str(&mut out, "/");
    push_str(&mut out, PLIST_PATH);
    string_from_chars(out.as_slice())
}

/// The property list up to the label.
pub const PLIST_HEAD: &'static str = "<?xml version=\"1.0\" encoding=\"UTF-8\"?>
<!DOCTYPE plist PUBLIC \"-//Apple//DTD PLIST 1.0//EN\" \"http://www.apple.com/DTDs/PropertyList-1.0.dtd\">
<plist version=\"1.0\">
<dict>
    <key>Label</key>
    <string>";

/// The property list between the label and the executable path.
pub const PLIST_MIDDLE: &'static str = "</string>

    <key>ProgramArguments</key>
    <array>
        <string>";

/// The property list after the executable path.
pub const PLIST_TAIL: &'static str = "</string>
        <string>start</string>
        <string>--foreground</string>
    </array>

    <key>RunAtLoad</key>
    <true/>

    <key>KeepAlive</key>
    <true/>

    <key>StandardOutPath</key>
    <string>/tmp/proxypass.out</string>

    <key>StandardErrorPath</key>
    <string>/tmp/proxypass.err</string>
</dict>
</plist>";

/// The property list that runs `binary_path start --foreground` at login
/// and keeps it alive.
pub open spec fn plist_spec(binary_path: Seq<char>) -> Seq<char> {
    PLIST_HEAD@ + LABEL@ + PLIST_MIDDLE@ + binary_path + PLIST_TAIL@
}

/// The agent's property list for the executable at `binary_path`.
pub fn plist_contents(binary_path: &str) -> (r: String)
    ensures
        r@ == plist_spec(binary_path@),
{
    let mut out = chars_of(PLIST_HEAD);
    push_str(&mut out, LABEL);
    push_str(&mut out, PLIST_MIDDLE);
    push_str(&mut out, binary_path);
    push_str(&mut out, PLIST_TAIL);
    string_from_chars(out.as_slice())
}

/// `gui/<uid>`: the user's launchd domain.
pub open spec fn gui_domain_spec(uid: u32) -> Seq<char> {
    "gui/"@ + decimal_digits(uid as nat)
}

/// The launchd domain of user `uid`.
pub fn gui_domain(uid: u32) -> (r: String)
    ensures
        r@ == gui_domain_spec(uid),
{
    let mut out = chars_of("gui/");
    let d = u32_decimal(uid);
    push_chars(&mut out, d.as_slice());
    string_from_chars(out.as_slice())
}

/// `gui/<uid>/<label>`: the agent as a launchd service target.
pub open spec fn service_target_spec(uid: u32) -> Seq<char> {
    gui_domain_spec(uid) + "/"@ + LABEL@
}

/// The agent's service target for user `uid`.
pub fn service_target(uid: u32) -> (r: String)
    ensures
        r@ == service_target_spec(uid),
{
    let mut out = chars_of("gui/");
    let d = u32_decimal(uid);
    push_chars(&mut out, d.as_slice());
    push_str(&mut out, "/");
    push_str(&mut out, LABEL);
    string_from_chars(out.as_slice())
}

/// The first of `lines` that, trimmed, starts with `key`, trimmed.
pub open spec fn first_trimmed_line_with(lines: Seq<Seq<char>>, key: Seq<char>) -> Option<Seq<char>>
    decreases lines.len(),
{
    if lines.len() == 0 {
        None
    } else if starts_with(trim_seq(lines[0]), key) {
        Some(trim_seq(lines[0]))
    } else {
        first_trimmed_line_with(lines.drop_first(), key)
    }
}

proof fn lemma_first_trimmed_cons(a: Seq<char>, rest: Seq<Seq<char>>, key: Seq<char>)
    ensures
        first_trimmed_line_with(seq![a] + rest, key) == if starts_with(trim_seq(a), key) {
            Some(trim_seq(a))
        } else {
            first_trimmed_line_with(rest, key)
        },
{
    let l = seq![a] + rest;
    assert(l[0] == a);
    assert(l.drop_first() =~= rest);
}

/// The first line of `text` that, trimmed, starts with `key`; trimmed.
pub fn find_trimmed_line(text: &str, key: &str) -> (r: Option<String>)
    ensures
        match first_trimmed_line_with(lines_seq(text@), key@) {
            Some(l) => r matches Some(s) && s@ == l,
            None => r is None,
        },
{
    let cs = chars_of(text);
    let kc = chars_of(key);
    let n = cs.len();
    let mut pos: usize = 0;
    assert(cs@.skip(0) == cs@);
    while pos < n
        invariant
            n == cs@.len(),
            pos <= n,
            cs@ == text@,
            kc@ == key@,
            first_trimmed_line_with(lines_seq(cs@), key@) == first_trimmed_line_with(
                lines_seq(cs@.skip(pos as int)),
                key@,
            ),
        decreases n - pos,
    {
        let found = find_char_from(cs.as_slice(), '\n', pos);
        let ghost t = cs@.skip(pos as int);
        proof {
            lemma_index_of(t, '\n');
        }
        let end = match found {
            Some(i) => i,
            None => n,
        };
        let raw = sub_chars(cs.as_slice(), pos, end);
        let line = if found.is_some() && raw.len() > 0 && raw[raw.len() - 1] == '\r' {
            let l = sub_chars(raw.as_slice(), 0, raw.len() - 1);
            assert(l@ == raw@.drop_last());
            l
        } else {
            raw
        };
        let trimmed = trim_chars(line.as_slice());
        let hit = chars_start_with(trimmed.as_slice(), kc.as_slice());
        proof {
            if found.is_some() {
                assert(t.take(end - pos) == cs@.subrange(pos as int, end as int));
                assert(line@ == strip_cr(t.take(end - pos)));
                assert(t.skip(end - pos + 1) == cs@.skip(end + 1));
                lemma_first_trimmed_cons(line@, lines_seq(t.skip(end - pos + 1)), key@);
            } else {
                assert(t == cs@.subrange(pos as int, end as int));
                assert(lines_seq(t) == seq![t]);
                lemma_first_trimmed_cons(line@, Seq::<Seq<char>>::empty(), key@);
                assert(seq![t] =~= seq![t] + Seq::<Seq<char>>::empty());
            }
        }
        if hit {
            return Some(string_from_chars(trimmed.as_slice()));
        }
        if end >= n {
            proof {
                assert(cs@.skip(n as int) =~= Seq::<char>::empty());
            }
            pos = n;
        } else {
            pos = end + 1;
        }
    }
    assert(cs@.skip(n as int) =~= Seq::<char>::empty());
    None
}

/// The `pid = ...` and `state = ...` lines of `launchctl print` output,
/// each trimmed, with `pid = unknown` / `state = unknown` when missing.
pub fn status_fields(print_output: &str) -> (r: (String, String))
    ensures
        r.0@ == match first_trimmed_line_with(lines_seq(print_output@), "pid ="@) {
            Some(l) => l,
            None => "pid = unknown"@,
        },
        r.1@ == match first_trimmed_line_with(lines_seq(print_output@), "state ="@) {
            Some(l) => l,
            None => "state = unknown"@,
        },
{
    let pid = match find_trimmed_line(print_output, "pid =") {
        Some(l) => l,
        None => "pid = unknown".to_owned(),
    };
    let state = match find_trimmed_line(print_output, "state =") {
        Some(l) => l,
        None => "state = unknown".to_owned(),
    };
    (pid, state)
}

} // verus!
