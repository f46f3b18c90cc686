//! The document-viewer automation used where printing goes through the
//! platform's default PDF viewer.
//!
//! The script opens the document, raises its print dialog (blocking on the
//! user), and closes the document whether the user printed or cancelled; if
//! the viewer has no other window left it quits.  No job id is observable on
//! this path.  The host only hands the script to the scripting runner.

use vstd::prelude::*;
use crate::text;

verus! {

/// One path character as it may stand inside a quoted script literal: quotes
/// are escaped, everything else passes through.
pub open spec fn escape_char(c: char) -> Seq<char> {
    if c == '"' {
        seq!['\\', '"']
    } else if c == '\'' {
        seq!['\\', '\'']
    } else {
        seq![c]
    }
}

/// A path escaped for use inside the script's quoted literal.
pub open spec fn escaped_path(p: Seq<char>) -> Seq<char>
    decreases p.len(),
{
    if p.len() == 0 {
        Seq::empty()
    } else {
        escaped_path(p.drop_last()) + escape_char(p.last())
    }
}

/// What precedes the quoted path in the script.
pub open spec fn viewer_script_prefix() -> Seq<char> {
    (
    "tell application \"Preview\"\n    set theDoc to open (POSIX file \"")@
}

/// What follows the quoted path: print with dialog, close either way, quit
/// when no window remains.
pub open spec fn viewer_script_suffix() -> Seq<char> {
    (
    "\")\n    delay 0.3\n    activate\n    try\n        print theDoc with print dialog\n    end try\n    delay 0.5\n    try\n        close theDoc saving no\n    on error\n        try\n            close window 1 saving no\n        end try\n    end try\n    delay 0.2\n    if (count of windows) is 0 then\n        quit\n    end if\nend tell")@
}

/// Build the viewer automation script for one document.
pub fn viewer_print_script(path: &str) -> (r: String)
    ensures
        r@ == viewer_script_prefix() + escaped_path(path@) + viewer_script_suffix(),
{
    let chars = text::str_chars(path);
    let mut escaped: Vec<char> = Vec::new();
    let mut i: usize = 0;
    assert(escaped@ =~= escaped_path(chars@.take(0)));
    while i < chars.len()
        invariant
            i <= chars@.len(),
            chars@ == path@,
            escaped@ == escaped_path(chars@.take(i as int)),
        decreases chars@.len() - i,
    {
        let c = chars[i];
        let ghost pre = escaped@;
        proof {
            let cur = chars@.take(i + 1);
            assert(cur.drop_last() =~= chars@.take(i as int));
            assert(cur.last() == chars@[i as int]);
        }
        if c == '"' {
            escaped.push('\\');
            escaped.push('"');
            assert(escaped@ =~= pre + escape_char(c));
        } else if c == '\'' {
            escaped.push('\\');
            escaped.push('\'');
            assert(escaped@ =~= pre + escape_char(c));
        } else {
            escaped.push(c);
            assert(escaped@ =~= pre + escape_char(c));
        }
        i = i + 1;
    }
    proof {
        assert(chars@.take(chars@.len() as int) =~= chars@);
    }
    let mut script = String::from_str(
        "tell application \"Preview\"\n    set theDoc to open (POSIX file \"",
    );
    script.append(text::chars_string(&escaped).as_str());
    script.append(
        "\")\n    delay 0.3\n    activate\n    try\n        print theDoc with print dialog\n    end try\n    delay 0.5\n    try\n        close theDoc saving no\n    on error\n        try\n            close window 1 saving no\n        end try\n    end try\n    delay 0.2\n    if (count of windows) is 0 then\n        quit\n    end if\nend tell",
    );
    script
}

} // verus!
