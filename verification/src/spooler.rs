//! The command-line spooler backend's text logic.
//!
//! Submissions are built as an argument list for the spooler's submit
//! command, and everything the spooler prints — submission acknowledgments,
//! printer status listings, the default-destination line, per-printer option
//! dumps — is parsed here.  The host only spawns the processes.

use vstd::prelude::*;
use crate::options::{MediaOption, MediaOptionV, PrintOptions, PrinterInfo, PrinterInfoV};
use crate::text;

verus! {

use crate::text::{
    tokens_spec, spec_lines, trim_spec, has_prefix, find_sub_spec, rfind_char, parse_u32_spec,
    matches_at,
};

/// What one finished child process handed back.
#[derive(Debug, Clone)]
pub struct CmdOutput {
    pub success: bool,
    pub stdout: String,
    pub stderr: String,
}

// ---------------------------------------------------------------------------
// Submission arguments
// ---------------------------------------------------------------------------

/// The argument list of one spooler submission: destination, title, copy
/// count (only above one), recognized duplex modes, a nonempty media name,
/// then the document path.  Unrecognized duplex values are dropped, not
/// rejected.
pub open spec fn lp_args_spec(o: PrintOptions) -> Seq<Seq<char>> {
    (match o.printer_name {
        Some(p) => seq![("-d")@, p@],
        None => Seq::empty(),
    }) + (match o.job_name {
        Some(j) => seq![("-t")@, j@],
        None => Seq::empty(),
    }) + (match o.copies {
        Some(c) => if c > 1 {
            seq![("-n")@, text::dec_rep(c as nat)]
        } else {
            Seq::empty()
        },
        None => Seq::empty(),
    }) + (match o.duplex {
        Some(d) => if d@ == ("long")@ {
            seq![("-o")@, ("sides=two-sided-long-edge")@]
        } else if d@ == ("short")@ {
            seq![("-o")@, ("sides=two-sided-short-edge")@]
        } else {
            Seq::empty()
        },
        None => Seq::empty(),
    }) + (match o.paper_size {
        Some(p) => if p@.len() > 0 {
            seq![("-o")@, ("media=")@ + p@]
        } else {
            Seq::empty()
        },
        None => Seq::empty(),
    }) + seq![o.path@]
}

/// Build the spooler submission arguments for one request.
pub fn build_lp_args(o: &PrintOptions) -> (r: Vec<String>)
    ensures
        r.deep_view() == lp_args_spec(*o),
{
    let ghost s1: Seq<Seq<char>> = match &o.printer_name {
        Some(p) => seq![("-d")@, p@],
        None => Seq::empty(),
    };
    let ghost s2: Seq<Seq<char>> = match &o.job_name {
        Some(j) => seq![("-t")@, j@],
        None => Seq::empty(),
    };
    let ghost s3: Seq<Seq<char>> = match o.copies {
        Some(c) => if c > 1 {
            seq![("-n")@, text::dec_rep(c as nat)]
        } else {
            Seq::empty()
        },
        None => Seq::empty(),
    };
    let ghost s4: Seq<Seq<char>> = match &o.duplex {
        Some(d) => if d@ == ("long")@ {
            seq![("-o")@, ("sides=two-sided-long-edge")@]
        } else if d@ == ("short")@ {
            seq![("-o")@, ("sides=two-sided-short-edge")@]
        } else {
            Seq::empty()
        },
        None => Seq::empty(),
    };
    let ghost s5: Seq<Seq<char>> = match &o.paper_size {
        Some(p) => if p@.len() > 0 {
            seq![("-o")@, ("media=")@ + p@]
        } else {
            Seq::empty()
        },
        None => Seq::empty(),
    };
    let mut args: Vec<String> = Vec::new();
    if let Some(p) = &o.printer_name {
        args.push(String::from_str("-d"));
        args.push(p.clone());
    }
    assert(args.deep_view() =~~= s1);
    if let Some(j) = &o.job_name {
        args.push(String::from_str("-t"));
        args.push(j.clone());
    }
    assert(args.deep_view() =~~= s1 + s2);
    if let Some(c) = &o.copies {
        if *c > 1 {
            args.push(String::from_str("-n"));
            args.push(text::fmt_u64(*c as u64));
        }
    }
    assert(args.deep_view() =~~= s1 + s2 + s3);
    if let Some(d) = &o.duplex {
        let long = String::from_str("long");
        let short = String::from_str("short");
        if *d == long {
            args.push(String::from_str("-o"));
            args.push(String::from_str("sides=two-sided-long-edge"));
        } else if *d == short {
            args.push(String::from_str("-o"));
            args.push(String::from_str("sides=two-sided-short-edge"));
        }
    }
    assert(args.deep_view() =~~= s1 + s2 + s3 + s4);
    if let Some(p) = &o.paper_size {
        if p.as_str().unicode_len() > 0 {
            args.push(String::from_str("-o"));
            args.push(String::from_str("media=").concat(p.as_str()));
        }
    }
    assert(args.deep_view() =~~= s1 + s2 + s3 + s4 + s5);
    args.push(o.path.clone());
    proof {
        assert(args.deep_view() =~~= s1 + s2 + s3 + s4 + s5 + seq![o.path@]);
        assert(lp_args_spec(*o) == s1 + s2 + s3 + s4 + s5 + seq![o.path@]);
    }
    args
}

// ---------------------------------------------------------------------------
// Submission acknowledgment
// ---------------------------------------------------------------------------

/// The token suffix after the last hyphen; the whole token when it has none.
pub open spec fn after_last_dash(t: Seq<char>) -> Seq<char> {
    match rfind_char(t, '-') {
        Some(j) => t.subrange(j + 1, t.len() as int),
        None => t,
    }
}

/// The job id in a spooler acknowledgment: the first whitespace-separated
/// token after the fixed marker phrase, its numeric suffix after the last
/// hyphen, read as a decimal number.
pub open spec fn lp_job_id_spec(s: Seq<char>) -> Option<u32> {
    let marker = ("request id is ")@;
    match find_sub_spec(s, marker) {
        None => None,
        Some(i) => {
            let ts = tokens_spec(s.subrange(i + marker.len(), s.len() as int));
            if ts.len() == 0 {
                None
            } else {
                parse_u32_spec(after_last_dash(ts[0]))
            }
        },
    }
}

/// Parse the job id out of the spooler's submission acknowledgment.
#[verifier::loop_isolation(false)]
pub fn parse_lp_job_id(output: &str) -> (r: Option<u32>)
    ensures
        r == lp_job_id_spec(output@),
{
    let chars = text::str_chars(output);
    let marker = text::str_chars("request id is ");
    let n = chars.len();
    let start = match text::find_sub(&chars, &marker) {
        None => {
            return None;
        },
        Some(i) => {
            assert(i + marker@.len() <= n);
            i + marker.len()
        },
    };
    let rest = text::sub_vec(&chars, start, chars.len());
    let toks = text::split_ws(&rest);
    if toks.len() == 0 {
        return None;
    }
    let tok = &toks[0];
    assert(tok@ == tokens_spec(rest@)[0]);
    let id_part = match text::rfind_char_vec(tok, '-') {
        Some(j) => text::sub_vec(tok, j + 1, tok.len()),
        None => text::sub_vec(tok, 0, tok.len()),
    };
    proof {
        if rfind_char(tok@, '-') is None {
            assert(tok@.subrange(0, tok@.len() as int) =~= tok@);
        }
    }
    text::parse_u32_chars(&id_part)
}

// ---------------------------------------------------------------------------
// Printer listing
// ---------------------------------------------------------------------------

/// The status word of one listing line: classified by substring, `disabled`
/// before `printing`, and `idle` where neither occurs.
pub open spec fn status_of_line(l: Seq<char>) -> Seq<char> {
    if find_sub_spec(l, ("disabled")@) is Some {
        ("disabled")@
    } else if find_sub_spec(l, ("printing")@) is Some {
        ("printing")@
    } else {
        ("idle")@
    }
}

/// The printers named by the listing's `printer <name> ...` lines, from line
/// `i` on; `dflt` marks which name is the default destination.
pub open spec fn printers_from_lines(
    ls: Seq<Seq<char>>,
    i: int,
    dflt: Option<Seq<char>>,
) -> Seq<PrinterInfoV>
    decreases ls.len() - i,
{
    if !(0 <= i < ls.len()) {
        Seq::empty()
    } else {
        let l = ls[i];
        let rest = printers_from_lines(ls, i + 1, dflt);
        if has_prefix(l, ("printer ")@) {
            let ts = tokens_spec(l.subrange(("printer ")@.len() as int, l.len() as int));
            if ts.len() > 0 {
                seq![
                    PrinterInfoV {
                        name: ts[0],
                        is_default: dflt == Some(ts[0]),
                        status: status_of_line(l),
                    },
                ] + rest
            } else {
                rest
            }
        } else {
            rest
        }
    }
}

/// All printers of one status listing.
pub open spec fn printers_spec(s: Seq<char>, dflt: Option<Seq<char>>) -> Seq<PrinterInfoV> {
    printers_from_lines(spec_lines(s), 0, dflt)
}

fn status_of_line_exec(line: &Vec<char>) -> (r: String)
    ensures
        r@ == status_of_line(line@),
{
    let disabled = text::str_chars("disabled");
    let printing = text::str_chars("printing");
    if text::find_sub(line, &disabled).is_some() {
        String::from_str("disabled")
    } else if text::find_sub(line, &printing).is_some() {
        String::from_str("printing")
    } else {
        String::from_str("idle")
    }
}

/// Parse the spooler's status listing into the printer directory.
#[verifier::loop_isolation(false)]
pub fn parse_printers(output: &str, default_name: &Option<String>) -> (r: Vec<PrinterInfo>)
    ensures
        r.deep_view() == printers_spec(output@, default_name.deep_view()),
{
    let chars = text::str_chars(output);
    let lines = text::split_lines(&chars);
    let prefix = text::str_chars("printer ");
    let dflt_chars: Option<Vec<char>> = match default_name {
        Some(s) => Some(text::str_chars(s.as_str())),
        None => None,
    };
    let ghost dv: Option<Seq<char>> = default_name.deep_view();
    let mut out: Vec<PrinterInfo> = Vec::new();
    let mut i: usize = 0;
    let ghost ls = lines.deep_view();
    while i < lines.len()
        invariant
            i <= lines@.len(),
            ls == lines.deep_view(),
            dv == default_name.deep_view(),
            match dflt_chars {
                Some(v) => dv == Some(v@),
                None => dv is None,
            },
            printers_spec(output@, dv) =~= out.deep_view() + printers_from_lines(
                ls,
                i as int,
                dv,
            ),
            printers_spec(output@, dv) == printers_from_lines(ls, 0, dv),
        decreases lines@.len() - i,
    {
        let line = &lines[i];
        assert(line@ == ls[i as int]);
        let ghost pre_out = out.deep_view();
        if text::starts_with(line, &prefix) {
            let rest = text::sub_vec(line, prefix.len(), line.len());
            let toks = text::split_ws(&rest);
            if toks.len() > 0 {
                let name_chars = &toks[0];
                assert(name_chars@ == tokens_spec(rest@)[0]);
                let is_default = match &dflt_chars {
                    Some(d) => text::chars_eq(d, name_chars),
                    None => false,
                };
                let status = status_of_line_exec(line);
                let info = PrinterInfo {
                    name: text::chars_string(name_chars),
                    is_default,
                    status,
                };
                out.push(info);
                proof {
                    assert(out.deep_view() =~= pre_out + seq![info@]);
                    assert(printers_from_lines(ls, i as int, dv) =~= seq![info@]
                        + printers_from_lines(ls, i + 1, dv));
                    assert(out.deep_view() + printers_from_lines(ls, i + 1, dv) =~= pre_out + (
                    seq![info@] + printers_from_lines(ls, i + 1, dv)));
                }
            } else {
                assert(printers_from_lines(ls, i as int, dv) == printers_from_lines(
                    ls,
                    i + 1,
                    dv,
                ));
            }
        } else {
            assert(printers_from_lines(ls, i as int, dv) == printers_from_lines(ls, i + 1, dv));
        }
        i = i + 1;
    }
    out
}

// ---------------------------------------------------------------------------
// Default destination
// ---------------------------------------------------------------------------

/// The name on the first `system default destination: ` line, trimmed, from
/// line `i` on.
pub open spec fn default_dest_from_lines(ls: Seq<Seq<char>>, i: int) -> Option<Seq<char>>
    decreases ls.len() - i,
{
    if !(0 <= i < ls.len()) {
        None
    } else {
        let l = ls[i];
        let p = ("system default destination: ")@;
        if has_prefix(l, p) {
            Some(trim_spec(l.subrange(p.len() as int, l.len() as int)))
        } else {
            default_dest_from_lines(ls, i + 1)
        }
    }
}

/// The default destination a status query reports, if any.
pub open spec fn default_dest_spec(s: Seq<char>) -> Option<Seq<char>> {
    default_dest_from_lines(spec_lines(s), 0)
}

/// Parse the default destination out of the spooler's status output.
#[verifier::loop_isolation(false)]
pub fn parse_default_destination(output: &str) -> (r: Option<String>)
    ensures
        match r {
            Some(name) => default_dest_spec(output@) == Some(name@),
            None => default_dest_spec(output@) is None,
        },
{
    let chars = text::str_chars(output);
    let lines = text::split_lines(&chars);
    let prefix = text::str_chars("system default destination: ");
    let ghost ls = lines.deep_view();
    let mut i: usize = 0;
    while i < lines.len()
        invariant
            i <= lines@.len(),
            ls == lines.deep_view(),
            default_dest_spec(output@) == default_dest_from_lines(ls, i as int),
        decreases lines@.len() - i,
    {
        let line = &lines[i];
        assert(line@ == ls[i as int]);
        if text::starts_with(line, &prefix) {
            let rest = text::sub_vec(line, prefix.len(), line.len());
            let trimmed = text::trim_chars(&rest);
            let name = text::chars_string(&trimmed);
            assert(default_dest_from_lines(ls, i as int) == Some(name@));
            return Some(name);
        }
        assert(default_dest_from_lines(ls, i as int) == default_dest_from_lines(ls, i + 1));
        i = i + 1;
    }
    None
}

// ---------------------------------------------------------------------------
// Media options
// ---------------------------------------------------------------------------

/// The token with every leading `*` removed.
pub open spec fn strip_stars(t: Seq<char>) -> Seq<char>
    decreases t.len(),
{
    if t.len() > 0 && t[0] == '*' {
        strip_stars(t.subrange(1, t.len() as int))
    } else {
        t
    }
}

/// One `[*]id[/label]` token as a media option: a leading `*` marks the
/// default, and the part after the first `/` is the display label.
pub open spec fn option_of_token(t: Seq<char>) -> MediaOptionV {
    let is_default = t.len() > 0 && t[0] == '*';
    let raw = strip_stars(t);
    match find_sub_spec(raw, seq!['/']) {
        Some(j) => MediaOptionV {
            id: raw.subrange(0, j),
            label: raw.subrange(j + 1, raw.len() as int),
            is_default,
        },
        None => MediaOptionV { id: raw, label: raw, is_default },
    }
}

/// Whether a line of the options dump announces media or page sizes.
pub open spec fn is_media_line(l: Seq<char>) -> bool {
    has_prefix(l, ("media/")@) || has_prefix(l, ("PageSize/")@) || has_prefix(l, ("PageSize")@)
        || has_prefix(l, ("Media")@)
}

/// The options of one dump line: every whitespace-separated token after the
/// first colon, or nothing when the line announces no media or has no colon.
pub open spec fn line_media_options(l: Seq<char>) -> Seq<MediaOptionV> {
    if !is_media_line(l) {
        Seq::empty()
    } else {
        match find_sub_spec(l, seq![':']) {
            None => Seq::empty(),
            Some(j) => tokens_spec(l.subrange(j + 1, l.len() as int)).map_values(
                |t: Seq<char>| option_of_token(t),
            ),
        }
    }
}

/// The options of the first dump line that yields any, from line `i` on.
pub open spec fn media_from_lines(ls: Seq<Seq<char>>, i: int) -> Seq<MediaOptionV>
    decreases ls.len() - i,
{
    if !(0 <= i < ls.len()) {
        Seq::empty()
    } else {
        let opts = line_media_options(ls[i]);
        if opts.len() > 0 {
            opts
        } else {
            media_from_lines(ls, i + 1)
        }
    }
}

/// The media options of one per-printer options dump.
pub open spec fn media_options_spec(s: Seq<char>) -> Seq<MediaOptionV> {
    media_from_lines(spec_lines(s), 0)
}

#[verifier::loop_isolation(false)]
fn strip_stars_vec(t: &Vec<char>) -> (r: Vec<char>)
    ensures
        r@ == strip_stars(t@),
{
    assert(t@.subrange(0, t@.len() as int) =~= t@);
    let mut lo: usize = 0;
    while lo < t.len() && t[lo] == '*'
        invariant
            lo <= t@.len(),
            strip_stars(t@) == strip_stars(t@.subrange(lo as int, t@.len() as int)),
        decreases t@.len() - lo,
    {
        proof {
            let cur = t@.subrange(lo as int, t@.len() as int);
            assert(cur[0] == t@[lo as int]);
            assert(cur.subrange(1, cur.len() as int) =~= t@.subrange(lo + 1, t@.len() as int));
        }
        lo = lo + 1;
    }
    proof {
        let fin = t@.subrange(lo as int, t@.len() as int);
        if fin.len() > 0 {
            assert(fin[0] == t@[lo as int]);
        }
    }
    text::sub_vec(t, lo, t.len())
}

fn media_option_of_token(t: &Vec<char>) -> (r: MediaOption)
    ensures
        r@ == option_of_token(t@),
{
    let is_default = t.len() > 0 && t[0] == '*';
    let raw = strip_stars_vec(t);
    let slash: Vec<char> = vec!['/'];
    assert(slash@ =~= seq!['/']);
    let rl = raw.len();
    match text::find_sub(&raw, &slash) {
        Some(j) => {
            assert(j + 1 <= rl);
            let id = text::sub_vec(&raw, 0, j);
            let label = text::sub_vec(&raw, j + 1, rl);
            MediaOption {
                id: text::chars_string(&id),
                label: text::chars_string(&label),
                is_default,
            }
        },
        None => {
            let whole = text::chars_string(&raw);
            MediaOption { id: whole.clone(), label: whole, is_default }
        },
    }
}

fn is_media_line_exec(line: &Vec<char>) -> (r: bool)
    ensures
        r == is_media_line(line@),
{
    let p1 = text::str_chars("media/");
    let p2 = text::str_chars("PageSize/");
    let p3 = text::str_chars("PageSize");
    let p4 = text::str_chars("Media");
    text::starts_with(line, &p1) || text::starts_with(line, &p2) || text::starts_with(line, &p3)
        || text::starts_with(line, &p4)
}

#[verifier::loop_isolation(false)]
fn line_media_options_exec(line: &Vec<char>) -> (r: Vec<MediaOption>)
    ensures
        r.deep_view() == line_media_options(line@),
{
    let mut out: Vec<MediaOption> = Vec::new();
    if !is_media_line_exec(line) {
        assert(out.deep_view() =~= line_media_options(line@));
        return out;
    }
    let colon: Vec<char> = vec![':'];
    assert(colon@ =~= seq![':']);
    let j = match text::find_sub(line, &colon) {
        None => {
            assert(out.deep_view() =~= line_media_options(line@));
            return out;
        },
        Some(j) => j,
    };
    let ll = line.len();
    assert(j + 1 <= ll);
    let values = text::sub_vec(line, j + 1, ll);
    let toks = text::split_ws(&values);
    let ghost ts = tokens_spec(values@);
    let mut k: usize = 0;
    while k < toks.len()
        invariant
            k <= toks@.len(),
            ts == toks.deep_view(),
            out.deep_view() =~= ts.take(k as int).map_values(|t: Seq<char>| option_of_token(t)),
        decreases toks@.len() - k,
    {
        let ghost pre = out.deep_view();
        let opt = media_option_of_token(&toks[k]);
        assert(toks[k as int]@ == ts[k as int]);
        out.push(opt);
        proof {
            assert(out.deep_view() =~= pre.push(opt@));
            assert(ts.take(k + 1).map_values(|t: Seq<char>| option_of_token(t)) =~= ts.take(
                k as int,
            ).map_values(|t: Seq<char>| option_of_token(t)).push(option_of_token(ts[k as int])));
        }
        k = k + 1;
    }
    proof {
        assert(ts.take(ts.len() as int) =~= ts);
    }
    out
}

/// Parse the media options out of a per-printer options dump: the first
/// media or page-size line that yields any options wins.
#[verifier::loop_isolation(false)]
pub fn parse_media_options(output: &str) -> (r: Vec<MediaOption>)
    ensures
        r.deep_view() == media_options_spec(output@),
{
    let chars = text::str_chars(output);
    let lines = text::split_lines(&chars);
    let ghost ls = lines.deep_view();
    let mut i: usize = 0;
    while i < lines.len()
        invariant
            i <= lines@.len(),
            ls == lines.deep_view(),
            media_options_spec(output@) == media_from_lines(ls, i as int),
        decreases lines@.len() - i,
    {
        let line = &lines[i];
        assert(line@ == ls[i as int]);
        let opts = line_media_options_exec(line);
        if opts.len() > 0 {
            return opts;
        }
        assert(opts.deep_view() =~= line_media_options(ls[i as int]));
        i = i + 1;
    }
    let empty: Vec<MediaOption> = Vec::new();
    assert(empty.deep_view() =~= media_from_lines(ls, i as int));
    empty
}

// ---------------------------------------------------------------------------
// Laws of the media parse
// ---------------------------------------------------------------------------

/// How many options carry the default mark.
pub open spec fn count_defaults(opts: Seq<MediaOptionV>) -> nat
    decreases opts.len(),
{
    if opts.len() == 0 {
        0
    } else {
        count_defaults(opts.drop_last()) + (if opts.last().is_default {
            1nat
        } else {
            0nat
        })
    }
}

/// How many tokens carry a leading `*`.
pub open spec fn count_starred(ts: Seq<Seq<char>>) -> nat
    decreases ts.len(),
{
    if ts.len() == 0 {
        0
    } else {
        count_starred(ts.drop_last()) + (if ts.last().len() > 0 && ts.last()[0] == '*' {
            1nat
        } else {
            0nat
        })
    }
}

proof fn lemma_count_defaults_of_tokens(ts: Seq<Seq<char>>)
    ensures
        count_defaults(ts.map_values(|t: Seq<char>| option_of_token(t))) == count_starred(ts),
    decreases ts.len(),
{
    let mapped = ts.map_values(|t: Seq<char>| option_of_token(t));
    if ts.len() > 0 {
        lemma_count_defaults_of_tokens(ts.drop_last());
        assert(mapped.drop_last() =~= ts.drop_last().map_values(
            |t: Seq<char>| option_of_token(t),
        ));
        assert(mapped.last() == option_of_token(ts.last()));
    } else {
        assert(mapped.len() == 0);
    }
}

/// Parsing the same options text twice yields identical ordered lists: the
/// result is a function of the text alone.
pub proof fn lemma_media_options_idempotent(
    s: Seq<char>,
    first: Seq<MediaOptionV>,
    second: Seq<MediaOptionV>,
)
    requires
        first == media_options_spec(s),
        second == media_options_spec(s),
    ensures
        first == second,
{
}

/// Whatever options a dump yields come from one line of it.
pub proof fn lemma_media_options_from_one_line(s: Seq<char>)
    ensures
        media_options_spec(s).len() == 0 || exists|i: int|
            0 <= i < spec_lines(s).len() && media_options_spec(s) == line_media_options(
                #[trigger] spec_lines(s)[i],
            ),
{
    lemma_media_from_lines_source(spec_lines(s), 0);
}

proof fn lemma_media_from_lines_source(ls: Seq<Seq<char>>, i: int)
    requires
        0 <= i,
    ensures
        media_from_lines(ls, i).len() == 0 || exists|k: int|
            i <= k < ls.len() && media_from_lines(ls, i) == line_media_options(#[trigger] ls[k]),
    decreases ls.len() - i,
{
    if i < ls.len() {
        if line_media_options(ls[i]).len() > 0 {
            assert(media_from_lines(ls, i) == line_media_options(ls[i]));
        } else {
            lemma_media_from_lines_source(ls, i + 1);
        }
    }
}

/// On a media line whose value part carries exactly one `*`-marked token,
/// exactly one parsed option is the default.
pub proof fn lemma_media_line_single_default(l: Seq<char>, j: int)
    requires
        is_media_line(l),
        find_sub_spec(l, seq![':']) == Some(j),
        count_starred(tokens_spec(l.subrange(j + 1, l.len() as int))) == 1,
    ensures
        count_defaults(line_media_options(l)) == 1,
{
    lemma_count_defaults_of_tokens(tokens_spec(l.subrange(j + 1, l.len() as int)));
}

} // verus!
