//! A cross-platform native PDF printing core.
//!
//! Given a PDF by path or by base64-encoded bytes, the library normalizes the
//! request, computes everything a platform backend needs to submit the job
//! (raster dimensions, fit-to-page placement, spooler command arguments), and
//! parses what the platform hands back (spooler acknowledgments, printer and
//! media listings).  All decisions are verified; the thin host around the
//! library performs the actual process, file and device work.
//!
//! The entry points at the crate root follow the spooler command-line
//! backend: the host runs the spooler's submit and status commands and hands
//! their outputs in, and gets the normalized result or typed error back.

use vstd::prelude::*;

pub mod buffer;
pub mod cache;
pub mod errors;
pub mod geometry;
pub mod options;
pub mod paths;
pub mod raster;
pub mod spooler;
pub mod stage;
pub mod text;
pub mod viewer;

use crate::errors::Error;
use crate::options::{MediaOption, PrintOptions, PrintResult, PrinterInfo};
use crate::spooler::CmdOutput;

verus! {

use crate::text::trim_spec;
use crate::spooler::{default_dest_spec, printers_spec, media_options_spec, lp_job_id_spec};

fn trimmed(s: &str) -> (r: String)
    ensures
        r@ == trim_spec(s@),
{
    let chars = text::str_chars(s);
    let t = text::trim_chars(&chars);
    text::chars_string(&t)
}

/// The default printer, read from the spooler's status query.  A failed query
/// means no default is configured — that is an empty answer, not an error.
pub fn get_default_printer(lpstat: &CmdOutput) -> (r: Result<Option<String>, Error>)
    ensures
        r is Ok,
        !lpstat.success ==> r->Ok_0 is None,
        lpstat.success ==> match r->Ok_0 {
            Some(n) => default_dest_spec(lpstat.stdout@) == Some(n@),
            None => default_dest_spec(lpstat.stdout@) is None,
        },
{
    if !lpstat.success {
        return Ok(None);
    }
    Ok(spooler::parse_default_destination(lpstat.stdout.as_str()))
}

/// The printer directory, read from the spooler's status listing.
pub fn get_printers(lpstat: &CmdOutput, default_name: &Option<String>) -> (r: Result<
    Vec<PrinterInfo>,
    Error,
>)
    ensures
        match r {
            Ok(v) => lpstat.success && v.deep_view() == printers_spec(
                lpstat.stdout@,
                default_name.deep_view(),
            ),
            Err(e) => !lpstat.success && (e matches Error::PrinterLookupFailed(m) && m@
                == trim_spec(lpstat.stderr@)),
        },
{
    if !lpstat.success {
        return Err(Error::PrinterLookupFailed(trimmed(lpstat.stderr.as_str())));
    }
    Ok(spooler::parse_printers(lpstat.stdout.as_str(), default_name))
}

/// The media target of a listing call: the named printer, else the default.
pub fn resolve_media_target(printer_name: Option<String>, default_printer: Option<String>) -> (r:
    Option<String>)
    ensures
        r == if printer_name is Some {
            printer_name
        } else {
            default_printer
        },
{
    match printer_name {
        Some(n) => Some(n),
        None => default_printer,
    }
}

/// The media options of one printer, read from the spooler's options dump.
/// With no target printer — none named, no default configured — the answer is
/// an empty list, never an error.
pub fn get_printer_media(target: &Option<String>, lpoptions: &CmdOutput) -> (r: Result<
    Vec<MediaOption>,
    Error,
>)
    ensures
        target is None ==> match r {
            Ok(v) => v.deep_view().len() == 0,
            Err(_) => false,
        },
        target is Some ==> match r {
            Ok(v) => lpoptions.success && v.deep_view() == media_options_spec(lpoptions.stdout@),
            Err(e) => !lpoptions.success && (e matches Error::PrinterLookupFailed(m) && m@
                == trim_spec(lpoptions.stderr@)),
        },
{
    if target.is_none() {
        let empty: Vec<MediaOption> = Vec::new();
        assert(empty.deep_view() =~= Seq::<crate::options::MediaOptionV>::empty());
        return Ok(empty);
    }
    if !lpoptions.success {
        return Err(Error::PrinterLookupFailed(trimmed(lpoptions.stderr.as_str())));
    }
    Ok(spooler::parse_media_options(lpoptions.stdout.as_str()))
}

/// Submit one path-based request through the spooler and normalize its
/// answer.  The host checks that the path exists, runs the submission built
/// by [`spooler::build_lp_args`], and hands the outcome in; a missing path
/// runs nothing.
pub fn print_pdf(
    options: &PrintOptions,
    path_exists: bool,
    spool: &Option<CmdOutput>,
    default_printer: &Option<String>,
) -> (r: Result<PrintResult, Error>)
    requires
        path_exists ==> spool is Some,
    ensures
        !path_exists ==> (r matches Err(e) && (e matches Error::PrintCommandFailed(m) && m@ == (
        "PDF path does not exist")@)),
        path_exists ==> match spool {
            Some(out) => {
                if out.success {
                    r matches Ok(res) && {
                        &&& res.job_id == lp_job_id_spec(out.stdout@)
                        &&& (match options.printer_name {
                            Some(p) => res.printer == p,
                            None => match default_printer {
                                Some(d) => res.printer == d,
                                None => res.printer@ == ("unknown")@,
                            },
                        })
                        &&& res.message@ == trim_spec(out.stdout@)
                    }
                } else {
                    r matches Err(e) && (e matches Error::PrintCommandFailed(m) && m@ == trim_spec(
                        out.stderr@,
                    ))
                }
            },
            None => false,
        },
{
    if !path_exists {
        return Err(Error::PrintCommandFailed(String::from_str("PDF path does not exist")));
    }
    let out = match spool {
        Some(out) => out,
        None => {
            proof {
                assert(false);
            }
            unreached()
        },
    };
    if !out.success {
        return Err(Error::PrintCommandFailed(trimmed(out.stderr.as_str())));
    }
    let job_id = spooler::parse_lp_job_id(out.stdout.as_str());
    let printer: String = match &options.printer_name {
        Some(p) => p.clone(),
        None => match default_printer {
            Some(d) => d.clone(),
            None => String::from_str("unknown"),
        },
    };
    Ok(PrintResult { job_id, printer, message: trimmed(out.stdout.as_str()) })
}

} // verus!
