//! Flipping the `auto_start` line of the configuration text.

use crate::text::trim;
use crate::text::trimmed;
use regex::Regex;
use vstd::prelude::*;
use vstd::string::*;

verus! {

/// The pattern of the line that holds the switch: the key in the first
/// group, all that follows it on the line in the second.
pub const LINE_PATTERN: &'static str = "(?m)^(auto_start:)(.*)$";

/// The pattern of the values that mean "on".
pub const ON_PATTERN: &'static str = "(?m)^(y|Y|yes|Yes|YES|true|True|TRUE|on|On|ON)$";

/// What the first match of `pattern` in `haystack` is, as the regex engine
/// finds it: the text before the match, the text of each group (the whole
/// match first; `None` for a group that took no part), and the text after
/// the match. `None` where nothing matches or the pattern does not compile.
pub uninterp spec fn first_match(pattern: Seq<char>, haystack: Seq<char>) -> Option<
    (Seq<char>, Seq<Option<Seq<char>>>, Seq<char>),
>;

/// What a search result holds.
pub open spec fn found_view(r: Option<(String, Vec<Option<String>>, String)>) -> Option<
    (Seq<char>, Seq<Option<Seq<char>>>, Seq<char>),
> {
    match r {
        Some((before, groups, after)) => Some(
            (
                before@,
                Seq::new(
                    groups@.len(),
                    |i: int|
                        match groups@[i] {
                            Some(g) => Some(g@),
                            None => None,
                        },
                ),
                after@,
            ),
        ),
        None => None,
    }
}

/// `regex::Regex::new` followed by `Regex::captures` on the compiled
/// pattern: the first match, cut out of the haystack at the offsets that
/// the engine reports. The search depends on the two texts alone; the
/// contract only gives its result a name.
#[verifier::external_body]
fn search(pattern: &str, haystack: &str) -> (r: Option<(String, Vec<Option<String>>, String)>)
    ensures
        found_view(r) == first_match(pattern@, haystack@),
{
    let caps = Regex::new(pattern).ok()?.captures(haystack)?;
    let whole = caps.get_match();
    Some(
        (
            haystack[..whole.start()].to_string(),
            caps.iter().map(|g| g.map(|m| m.as_str().to_string())).collect(),
            haystack[whole.end()..].to_string(),
        ),
    )
}

/// Whether a value of the switch means "on": trimmed, it matches the
/// pattern of such values.
pub open spec fn switched_on(value: Seq<char>) -> bool {
    first_match(ON_PATTERN@, trimmed(value)) is Some
}

/// Whether a search result is a line of the switch: the whole match, the
/// key and the value, all three present.
pub open spec fn is_switch_line(found: Option<(Seq<char>, Seq<Option<Seq<char>>>, Seq<char>)>) -> bool {
    found matches Some(f) && f.1.len() == 3 && f.1[1] is Some && f.1[2] is Some
}

/// The configuration text with the switch set to `value`: the line that was
/// found is replaced by its key, a space and the value; where none was
/// found, a line that switches on is added after an empty line.
pub open spec fn rewritten(
    text: Seq<char>,
    found: Option<(Seq<char>, Seq<Option<Seq<char>>>, Seq<char>)>,
    value: bool,
) -> Seq<char> {
    if is_switch_line(found) {
        let f = found.unwrap();
        f.0 + f.1[1].unwrap() + " "@ + (if value {
            "true"@
        } else {
            "false"@
        }) + f.2
    } else {
        text + "\n\nauto_start: true"@
    }
}

/// The configuration text with the switch flipped.
pub open spec fn toggled(text: Seq<char>) -> Seq<char> {
    let found = first_match(LINE_PATTERN@, text);
    rewritten(text, found, !(is_switch_line(found) && switched_on(found.unwrap().1[2].unwrap())))
}

/// Writes the switch into the configuration text, given what the search for
/// its line found.
pub fn rewrite_autostart(
    text: &str,
    found: &Option<(String, Vec<Option<String>>, String)>,
    value: bool,
) -> (out: String)
    ensures
        out@ == rewritten(text@, found_view(*found), value),
{
    match found {
        Some((before, groups, after)) => {
            if groups.len() == 3 {
                match (&groups[1], &groups[2]) {
                    (Some(key), Some(_)) => {
                        let mut out = before.clone();
                        out.append(key.as_str());
                        out.append(" ");
                        if value {
                            out.append("true");
                        } else {
                            out.append("false");
                        }
                        out.append(after.as_str());
                        return out;
                    },
                    _ => {},
                }
            }
        },
        None => {},
    }
    let mut out = String::from_str(text);
    out.append("\n\nauto_start: true");
    out
}

/// Flips the switch in the configuration text: "on" becomes `false`,
/// anything else `true`; a text without the line gets one that says `true`.
pub fn toggle_autostart_text(text: &str) -> (out: String)
    ensures
        out@ == toggled(text@),
{
    let found = search(LINE_PATTERN, text);
    let enabled = match &found {
        Some((_, groups, _)) => {
            if groups.len() == 3 && groups[1].is_some() {
                match &groups[2] {
                    Some(value) => {
                        let bare = trim(value.as_str());
                        search(ON_PATTERN, bare.as_str()).is_some()
                    },
                    None => false,
                }
            } else {
                false
            }
        },
        None => false,
    };
    rewrite_autostart(text, &found, !enabled)
}

} // verus!
