//! Filename and path hygiene.

use vstd::prelude::*;
use crate::text;

verus! {

use crate::text::has_prefix;

/// Whether the platform counts a character as alphanumeric.
pub uninterp spec fn char_alnum(c: char) -> bool;

/// Relies on `char::is_alphanumeric`: a property of the character alone;
/// ASCII letters and digits have it.
#[verifier::external_body]
fn is_alnum_char(c: char) -> (r: bool)
    ensures
        r == char_alnum(c),
        (('0' <= c && c <= '9') || ('a' <= c && c <= 'z') || ('A' <= c && c <= 'Z')) ==> r,
{
    c.is_alphanumeric()
}

/// Which characters a staged filename keeps: alphanumerics, dots, hyphens and
/// underscores; everything else — separators above all — is dropped.
pub open spec fn keeps_char(c: char) -> bool {
    char_alnum(c) || c == '.' || c == '-' || c == '_'
}

/// A name with its leading dots removed: it can neither hide as a dotfile
/// nor climb with `..` once the separators are gone.
pub open spec fn drop_leading_dots(s: Seq<char>) -> Seq<char>
    decreases s.len(),
{
    if s.len() > 0 && s[0] == '.' {
        drop_leading_dots(s.subrange(1, s.len() as int))
    } else {
        s
    }
}

/// The filename with every character dropped that could traverse paths, and
/// no leading dots.
pub open spec fn sanitize_spec(s: Seq<char>) -> Seq<char> {
    drop_leading_dots(s.filter(|c: char| keeps_char(c)))
}

/// Sanitize a filename so it cannot traverse out of the staging directory.
pub fn sanitize_filename(filename: &str) -> (r: String)
    ensures
        r@ == sanitize_spec(filename@),
{
    let chars = text::str_chars(filename);
    let mut out: Vec<char> = Vec::new();
    let mut i: usize = 0;
    assert(chars@.take(0).filter(|c: char| keeps_char(c)) =~= out@);
    while i < chars.len()
        invariant
            i <= chars@.len(),
            chars@ == filename@,
            out@ == chars@.take(i as int).filter(|c: char| keeps_char(c)),
        decreases chars@.len() - i,
    {
        let c = chars[i];
        proof {
            let cur = chars@.take(i + 1);
            assert(cur.drop_last() =~= chars@.take(i as int));
            assert(cur.last() == chars@[i as int]);
            reveal_with_fuel(Seq::filter, 2);
        }
        if is_alnum_char(c) || c == '.' || c == '-' || c == '_' {
            out.push(c);
        }
        i = i + 1;
    }
    proof {
        assert(chars@.take(chars@.len() as int) =~= chars@);
    }
    assert(out@.subrange(0, out@.len() as int) =~= out@);
    let mut lo: usize = 0;
    while lo < out.len() && out[lo] == '.'
        invariant
            lo <= out@.len(),
            drop_leading_dots(out@) == drop_leading_dots(
                out@.subrange(lo as int, out@.len() as int),
            ),
        decreases out@.len() - lo,
    {
        proof {
            let cur = out@.subrange(lo as int, out@.len() as int);
            assert(cur[0] == out@[lo as int]);
            assert(cur.subrange(1, cur.len() as int) =~= out@.subrange(
                lo + 1,
                out@.len() as int,
            ));
        }
        lo = lo + 1;
    }
    proof {
        let fin = out@.subrange(lo as int, out@.len() as int);
        if fin.len() > 0 {
            assert(fin[0] == out@[lo as int]);
        }
    }
    let kept = text::sub_vec(&out, lo, out.len());
    text::chars_string(&kept)
}

/// The path with every leading repetition of `p` removed.
pub open spec fn strip_all_prefix(s: Seq<char>, p: Seq<char>) -> Seq<char>
    decreases s.len(),
{
    if p.len() > 0 && has_prefix(s, p) {
        strip_all_prefix(s.subrange(p.len() as int, s.len() as int), p)
    } else {
        s
    }
}

/// What an extended-length path prefix strips down to: the path without its
/// leading `\\?\` or `//?/` markers, other paths unchanged.
pub open spec fn strip_extended_spec(s: Seq<char>) -> Seq<char> {
    if has_prefix(s, ("\\\\?\\")@) {
        strip_all_prefix(s, ("\\\\?\\")@)
    } else if has_prefix(s, ("//?/")@) {
        strip_all_prefix(s, ("//?/")@)
    } else {
        s
    }
}

fn strip_all_prefix_exec(v: Vec<char>, p: &Vec<char>) -> (r: Vec<char>)
    requires
        p@.len() > 0,
    ensures
        r@ == strip_all_prefix(v@, p@),
    decreases v@.len(),
{
    if text::starts_with(&v, p) {
        let rest = text::sub_vec(&v, p.len(), v.len());
        strip_all_prefix_exec(rest, p)
    } else {
        v
    }
}

/// Strip a leading extended-length prefix off a path.
pub fn strip_extended_prefix(path: &str) -> (r: String)
    ensures
        r@ == strip_extended_spec(path@),
{
    let chars = text::str_chars(path);
    let win = text::str_chars("\\\\?\\");
    let unix = text::str_chars("//?/");
    proof {
        reveal_strlit("\\\\?\\");
        reveal_strlit("//?/");
    }
    if text::starts_with(&chars, &win) {
        let stripped = strip_all_prefix_exec(chars, &win);
        text::chars_string(&stripped)
    } else if text::starts_with(&chars, &unix) {
        let stripped = strip_all_prefix_exec(chars, &unix);
        text::chars_string(&stripped)
    } else {
        text::chars_string(&chars)
    }
}

} // verus!
