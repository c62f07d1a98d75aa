//! What is said when a program starts without a license.

use crate::activation;
use crate::text;
use vstd::prelude::*;

verus! {

/// The banner up to the first heading.
pub const BANNER_TOP: &'static str = "┌────────────────────────────────────────────────────────┐
│ You are running a restricted Symbolica instance.       │
│                                                        │
│ For non-commercial use only, limited to one            │
│ Symbolica thread per user.                             │
│                                                        │
├─ ";

/// The first heading.
pub const UNLOCK_HEADING: &'static str = "Unlock all cores";

/// The banner from behind the first heading up to the second one.
pub const BANNER_RULE: &'static str = " ─────────────────────────────────────┤
│                                                        │
│ ";

/// The second heading.
pub const HOBBYIST_HEADING: &'static str = "Hobbyists and students: free annual key";

/// The banner from behind the second heading up to the third one.
pub const BANNER_HOBBYIST: &'static str = "                │
│ https://symbolica.io/license/#get-hobbyist-license     │
│                                                        │
│ ";

/// The third heading.
pub const TRIAL_HEADING: &'static str = "Free 30-day professional trial:";

/// The banner from behind the third heading on.
pub const BANNER_TRIAL: &'static str = "                        │
│ https://symbolica.io/license/#get-trial-license        │
│                                                        │
└────────────────────────────────────────────────────────┘";

/// What the terminal and the environment say about the output.
pub struct Terminal {
    /// Whether the banner is not wanted.
    pub hide_banner: bool,
    /// Whether the output goes to a terminal.
    pub is_terminal: bool,
    /// Whether colors are not wanted.
    pub no_color: bool,
    /// The kind of terminal, where the environment names one.
    pub term: Option<String>,
}

/// What happens at the start of a program.
pub struct Startup {
    /// What is written to the error output.
    pub error: Option<String>,
    /// What is written to the output.
    pub banner: Option<String>,
    /// Whether the thread pool is limited to one thread.
    pub limit_to_one_thread: bool,
}

/// Whether the output may be styled.
pub open spec fn is_styled(terminal: Terminal) -> bool {
    &&& terminal.is_terminal
    &&& !terminal.no_color
    &&& match terminal.term {
        Some(term) => term@ != "dumb"@,
        None => false,
    }
}

/// The banner with its headings between `accent` or `bold` and `reset`.
pub open spec fn banner(accent: Seq<char>, bold: Seq<char>, reset: Seq<char>) -> Seq<char> {
    BANNER_TOP@ + accent + UNLOCK_HEADING@ + reset + BANNER_RULE@ + bold + HOBBYIST_HEADING@ + reset
        + BANNER_HOBBYIST@ + bold + TRIAL_HEADING@ + reset + BANNER_TRIAL@
}

/// The banner for a terminal.
pub open spec fn banner_for(terminal: Terminal) -> Option<Seq<char>> {
    if terminal.hide_banner {
        None
    } else if is_styled(terminal) {
        Some(banner("\x1b[36m"@, "\x1b[1m"@, "\x1b[0m"@))
    } else {
        Some(banner(""@, ""@, ""@))
    }
}

/// What is written to the error output where a license was not granted for the reason `error`.
pub open spec fn error_for(error: Seq<char>) -> Option<Seq<char>> {
    if text::has_substring(text::utf8(error), text::utf8("missing"@)) {
        None
    } else {
        Some(error)
    }
}

/// Whether a start is the one that a check of the license key asks for.
pub open spec fn starts(startup: Startup, r: Result<(), String>, terminal: Terminal) -> bool {
    match r {
        Ok(()) => startup.error is None && startup.banner is None && !startup.limit_to_one_thread,
        Err(e) => activation::text_view(startup.error) == error_for(e@) && activation::text_view(
            startup.banner,
        ) == banner_for(terminal) && startup.limit_to_one_thread,
    }
}

/// Tests whether the output may be styled.
fn styled(terminal: &Terminal) -> (r: bool)
    ensures
        r == is_styled(*terminal),
{
    terminal.is_terminal && !terminal.no_color && match &terminal.term {
        Some(term) => !text::same_text(term.as_str(), "dumb"),
        None => false,
    }
}

/// Writes the banner.
fn write_banner(accent: &str, bold: &str, reset: &str) -> (r: String)
    ensures
        r@ == banner(accent@, bold@, reset@),
{
    let mut out: String = BANNER_TOP.to_owned();
    out.append(accent);
    out.append(UNLOCK_HEADING);
    out.append(reset);
    out.append(BANNER_RULE);
    out.append(bold);
    out.append(HOBBYIST_HEADING);
    out.append(reset);
    out.append(BANNER_HOBBYIST);
    out.append(bold);
    out.append(TRIAL_HEADING);
    out.append(reset);
    out.append(BANNER_TRIAL);
    out
}

/// The start after a check of the license key.
pub fn start(r: Result<(), String>, terminal: &Terminal) -> (startup: Startup)
    ensures
        starts(startup, r, *terminal),
{
    let error: Option<String> = match r {
        Ok(()) => return Startup { error: None, banner: None, limit_to_one_thread: false },
        Err(e) => if text::contains(e.as_str().as_bytes(), "missing".as_bytes()) {
            None
        } else {
            Some(e)
        },
    };
    let banner: Option<String> = if terminal.hide_banner {
        None
    } else if styled(terminal) {
        Some(write_banner("\x1b[36m", "\x1b[1m", "\x1b[0m"))
    } else {
        Some(write_banner("", "", ""))
    };
    Startup { error, banner, limit_to_one_thread: true }
}

/// An error is written to the error output unless the word `missing` stands in it.
pub proof fn law_errors_are_reported(error: Seq<char>)
    ensures
        error_for(error) == (if text::has_substring(
            text::utf8(error),
            seq![109u8, 105u8, 115u8, 115u8, 105u8, 110u8, 103u8],
        ) {
            None
        } else {
            Some(error)
        }),
{
    reveal_strlit("missing");
    vstd::utf8::is_ascii_chars_encode_utf8("missing"@);
    assert(text::utf8("missing"@) =~= seq![109u8, 105u8, 115u8, 115u8, 105u8, 110u8, 103u8]);
}

} // verus!
