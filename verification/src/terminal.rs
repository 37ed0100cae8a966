//! The terminal front end's decisions and texts: which menu entry a reply
//! picks, whether a reply says yes, and the panels that show an encode
//! result, the history and the settings.  Reading and printing are left to
//! the application.
use vstd::prelude::*;
use vstd::string::StringExecFns;
use crate::models::{
    title_text, techniques_view, EncodedMessage, HistoryEntry, OperationKind, SecureKeyPair, Technique, TechniqueDescriptor,
};
use crate::workflow::opt_string_chars;
use crate::morse::chars_equal;
use crate::primitives::{rfc3339_text, rfc3339_utc};
use crate::text::{chars_of, decimal_int, decimal_usize, join_strings, join_with, string_from_chars, string_views};

verus! {

/// A main-menu choice.
#[derive(Debug, Clone, Copy, PartialEq, Eq, Structural)]
pub enum MenuAction {
    Encode,
    Decode,
    History,
    Settings,
    Quit,
    Unknown,
}

/// The menu entry a (trimmed) reply picks.
pub open spec fn menu_action_of(choice: Seq<char>) -> MenuAction {
    if choice == "1"@ {
        MenuAction::Encode
    } else if choice == "2"@ {
        MenuAction::Decode
    } else if choice == "3"@ {
        MenuAction::History
    } else if choice == "4"@ {
        MenuAction::Settings
    } else if choice == "0"@ || choice == "q"@ || choice == "quit"@ {
        MenuAction::Quit
    } else {
        MenuAction::Unknown
    }
}

fn same_text(a: &str, b: &str) -> (r: bool)
    ensures
        r == (a@ == b@),
{
    chars_equal(chars_of(a).as_slice(), chars_of(b).as_slice())
}

/// The menu entry a reply picks.
pub fn menu_action(choice: &str) -> (a: MenuAction)
    ensures
        a == menu_action_of(choice@),
{
    if same_text(choice, "1") {
        MenuAction::Encode
    } else if same_text(choice, "2") {
        MenuAction::Decode
    } else if same_text(choice, "3") {
        MenuAction::History
    } else if same_text(choice, "4") {
        MenuAction::Settings
    } else if same_text(choice, "0") || same_text(choice, "q") || same_text(choice, "quit") {
        MenuAction::Quit
    } else {
        MenuAction::Unknown
    }
}

/// Whether a reply says yes: it starts with `y` once lowercased, which only
/// `y` and `Y` do.
pub open spec fn says_yes(answer: Seq<char>) -> bool {
    answer.len() > 0 && (answer[0] == 'y' || answer[0] == 'Y')
}

/// Whether a reply to a yes/no question says yes.
pub fn is_yes(answer: &str) -> (b: bool)
    ensures
        b == says_yes(answer@),
{
    let chars = chars_of(answer);
    chars.len() > 0 && (chars[0] == 'y' || chars[0] == 'Y')
}

// ---------------------------------------------------------------- panels

/// The lines of the panel that shows an encode result: the transformed
/// text, then, when the result carries an envelope and its key pair, the
/// envelope and the two parts to share separately.
pub open spec fn encode_report_lines(
    transformed: Seq<char>,
    secure_payload: Option<Seq<char>>,
    key_pair: Option<(Seq<char>, Seq<char>)>,
) -> Seq<Seq<char>> {
    let head = seq!["Transformed text:"@, transformed];
    match (secure_payload, key_pair) {
        (Some(payload), Some((passphrase, code))) => head + seq![
            Seq::<char>::empty(),
            "Secure payload:"@,
            payload,
            Seq::<char>::empty(),
            "Share these separately:"@,
            "Primary passphrase: "@ + passphrase,
            "Companion code: "@ + code,
        ],
        _ => head,
    }
}

/// A key pair's passphrase and companion code.
pub open spec fn key_pair_texts(kp: Option<SecureKeyPair>) -> Option<(Seq<char>, Seq<char>)> {
    match kp {
        Some(k) => Some((k.passphrase@, k.companion_code@)),
        None => None,
    }
}

/// The body of the panel that shows an encode result.
pub fn encode_report(result: &EncodedMessage) -> (r: String)
    ensures
        r@ == join_with(
            encode_report_lines(
                result.transformed_text@,
                opt_string_chars(result.secure_payload),
                key_pair_texts(result.key_pair),
            ),
            "\n"@,
        ),
{
    let mut lines: Vec<String> = Vec::new();
    lines.push(String::from_str("Transformed text:"));
    lines.push(result.transformed_text.clone());
    match (&result.secure_payload, &result.key_pair) {
        (Some(payload), Some(key_pair)) => {
            lines.push(String::new());
            lines.push(String::from_str("Secure payload:"));
            lines.push(payload.clone());
            lines.push(String::new());
            lines.push(String::from_str("Share these separately:"));
            lines.push(String::from_str("Primary passphrase: ").concat(key_pair.passphrase.as_str()));
            lines.push(String::from_str("Companion code: ").concat(key_pair.companion_code.as_str()));
        },
        _ => {},
    }
    let ghost expected = encode_report_lines(
        result.transformed_text@,
        opt_string_chars(result.secure_payload),
        key_pair_texts(result.key_pair),
    );
    assert(string_views(lines@) =~= expected);
    join_strings(lines.as_slice(), "\n")
}

/// The body of the settings panel.
pub open spec fn settings_report_text(diagnostics: Seq<char>) -> Seq<char> {
    "github oauth: configure via the GUI settings tab\nfile carrier mode: use the GUI carrier tab\n\nlocal encrypted history:\n"@
        + diagnostics
}

/// The body of the settings panel, around the history's diagnostics.
pub fn settings_report(diagnostics: &str) -> (r: String)
    ensures
        r@ == settings_report_text(diagnostics@),
{
    String::from_str(
        "github oauth: configure via the GUI settings tab\nfile carrier mode: use the GUI carrier tab\n\nlocal encrypted history:\n",
    ).concat(diagnostics)
}

/// How many history entries the history panel shows.
pub const HISTORY_SHOWN: usize = 12;

/// `n` right-aligned in two columns.
pub open spec fn pad2(n: int) -> Seq<char> {
    if decimal_int(n).len() < 2 {
        seq![' '] + decimal_int(n)
    } else {
        decimal_int(n)
    }
}

/// How an operation is shown.
pub open spec fn operation_name(op: OperationKind) -> Seq<char> {
    match op {
        OperationKind::Encode => "Encode"@,
        OperationKind::Decode => "Decode"@,
    }
}

/// A chain as its techniques' names joined with arrows.
pub open spec fn chain_titles(ts: Seq<Technique>) -> Seq<char> {
    join_with(ts.map_values(|t: Technique| title_text(t)), " -> "@)
}

/// One history entry as the history panel shows it, numbered from 1.
pub open spec fn history_line(index: int, e: HistoryEntry, stamp: Seq<char>) -> Seq<char> {
    pad2(index + 1) + ". "@ + stamp + " ["@ + operation_name(e.operation) + "]\n    in: "@ + e.input_preview@
        + "\n    out: "@ + e.output_preview@ + "\n    chain: "@ + chain_titles(techniques_view(e.techniques@))
        + "\n    secure: "@ + (if e.used_secure_envelope { "yes"@ } else { "no"@ })
}

/// The lines for the first `k` entries, or nothing when one of them has a
/// time that cannot be written out.
pub open spec fn history_lines(entries: Seq<HistoryEntry>, k: int) -> Option<Seq<Seq<char>>>
    decreases k,
{
    if k <= 0 {
        Some(Seq::empty())
    } else {
        match history_lines(entries, k - 1) {
            None => None,
            Some(lines) => match rfc3339_text(entries[k - 1].timestamp_secs, entries[k - 1].timestamp_nanos) {
                None => None,
                Some(stamp) => Some(lines.push(history_line(k - 1, entries[k - 1], stamp))),
            },
        }
    }
}

/// The history panel's title and body: a note when there are no entries,
/// else the newest twelve entries, a blank line between each two.
pub open spec fn history_panel_text(entries: Seq<HistoryEntry>) -> Option<(Seq<char>, Seq<char>)> {
    if entries.len() == 0 {
        Some(("History"@, "No entries yet. Encode or decode a message first."@))
    } else {
        let k = if entries.len() < 12 { entries.len() as int } else { 12 };
        match history_lines(entries, k) {
            None => None,
            Some(lines) => Some(("Encrypted History"@, join_with(lines, "\n\n"@))),
        }
    }
}

fn operation_label(op: OperationKind) -> (r: String)
    ensures
        r@ == operation_name(op),
{
    match op {
        OperationKind::Encode => String::from_str("Encode"),
        OperationKind::Decode => String::from_str("Decode"),
    }
}

fn chain_label(techniques: &[TechniqueDescriptor]) -> (r: String)
    ensures
        r@ == chain_titles(techniques_view(techniques@)),
{
    let mut titles: Vec<String> = Vec::new();
    let mut i: usize = 0;
    while i < techniques.len()
        invariant
            i <= techniques@.len(),
            titles@.len() == i,
            forall|j: int| 0 <= j < i ==> (#[trigger] titles@[j])@ == title_text(techniques@[j]@),
        decreases techniques@.len() - i,
    {
        let t = techniques[i].title();
        titles.push(t);
        i = i + 1;
    }
    assert(string_views(titles@) =~= techniques_view(techniques@).map_values(|t: Technique| title_text(t)));
    join_strings(titles.as_slice(), " -> ")
}

fn index_label(n: usize) -> (r: String)
    ensures
        r@ == pad2(n as int),
{
    let digits = decimal_usize(n);
    proof {
        reveal_strlit(" ");
    }
    if digits.len() < 2 {
        String::from_str(" ").concat(string_from_chars(digits.as_slice()).as_str())
    } else {
        string_from_chars(digits.as_slice())
    }
}

/// The history panel's title and body; nothing when a shown entry's time is
/// outside what chrono can write out.
pub fn history_panel(entries: &[HistoryEntry]) -> (r: Option<(String, String)>)
    ensures
        match history_panel_text(entries@) {
            Some((title, body)) => r matches Some((t, b)) && t@ == title && b@ == body,
            None => r is None,
        },
{
    if entries.len() == 0 {
        return Some((
            String::from_str("History"),
            String::from_str("No entries yet. Encode or decode a message first."),
        ));
    }
    let k: usize = if entries.len() < HISTORY_SHOWN { entries.len() } else { HISTORY_SHOWN };
    let mut lines: Vec<String> = Vec::new();
    let mut i: usize = 0;
    while i < k
        invariant
            i <= k <= entries@.len(),
            k == (if entries@.len() < 12 { entries@.len() as int } else { 12 }),
            history_lines(entries@, i as int) == Some(string_views(lines@)),
        decreases k - i,
    {
        let e = &entries[i];
        let stamp = match rfc3339_utc(e.timestamp_secs, e.timestamp_nanos) {
            Some(s) => s,
            None => {
                proof {
                    assert(history_lines(entries@, i as int + 1) is None);
                    lemma_lines_stay_none(entries@, i as int + 1, k as int);
                }
                return None;
            },
        };
        let line = index_label(i + 1).concat(". ").concat(stamp.as_str()).concat(" [").concat(
            operation_label(e.operation).as_str(),
        ).concat("]\n    in: ").concat(e.input_preview.as_str()).concat("\n    out: ").concat(
            e.output_preview.as_str(),
        ).concat("\n    chain: ").concat(chain_label(e.techniques.as_slice()).as_str()).concat(
            "\n    secure: ",
        ).concat(if e.used_secure_envelope { "yes" } else { "no" });
        proof {
            let expected = history_line(i as int, entries@[i as int], stamp@);
            assert(line@ =~= expected);
        }
        let ghost before = lines@;
        lines.push(line);
        assert(string_views(lines@) =~= string_views(before).push(line@));
        i = i + 1;
    }
    Some((String::from_str("Encrypted History"), join_strings(lines.as_slice(), "\n\n")))
}

proof fn lemma_lines_stay_none(entries: Seq<HistoryEntry>, j: int, k: int)
    requires
        0 < j <= k,
        history_lines(entries, j) is None,
    ensures
        history_lines(entries, k) is None,
    decreases k - j,
{
    if j < k {
        lemma_lines_stay_none(entries, j + 1, k);
    }
}

} // verus!
