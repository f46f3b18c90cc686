//! Decisions of the device-context raster print job.
//!
//! The job runs as a fixed sequence — load the document, create the device
//! context, query its capabilities, start the job, then per page render,
//! blit and end the page, finally end the job — terminal on the first
//! failure.  The platform calls themselves live in the host; every check on
//! what they return, and every message and name the job uses, is computed
//! here.

use vstd::prelude::*;
use crate::errors::Error;
use crate::options::PrintResult;
use crate::text;

verus! {

use crate::text::rfind_char;
use crate::geometry::reduced_dims;

/// The name a job falls back to when the request names none and the path has
/// no base name.
pub open spec fn fallback_job_name() -> Seq<char> {
    ("PDF Print Job")@
}

/// The base name of a path: what follows the last path separator.
pub open spec fn base_name_spec(p: Seq<char>) -> Seq<char> {
    let slash = rfind_char(p, '/');
    let back = rfind_char(p, '\\');
    let cut = match (slash, back) {
        (Some(a), Some(b)) => if a >= b {
            a + 1
        } else {
            b + 1
        },
        (Some(a), None) => a + 1,
        (None, Some(b)) => b + 1,
        (None, None) => 0,
    };
    p.subrange(cut, p.len() as int)
}

/// The document name of one job: the requested name, or the source file's
/// base name, or the fixed fallback.
pub open spec fn job_name_spec(path: Seq<char>, job_name: Option<Seq<char>>) -> Seq<char> {
    match job_name {
        Some(j) => j,
        None => if base_name_spec(path).len() > 0 {
            base_name_spec(path)
        } else {
            fallback_job_name()
        },
    }
}

/// Choose the name under which a job is submitted.
pub fn default_job_name(path: &str, job_name: &Option<String>) -> (r: String)
    ensures
        r@ == job_name_spec(path@, job_name.deep_view()),
{
    if let Some(j) = job_name {
        return j.clone();
    }
    let chars = text::str_chars(path);
    let n = chars.len();
    let slash = text::rfind_char_vec(&chars, '/');
    let back = text::rfind_char_vec(&chars, '\\');
    let cut: usize = match (slash, back) {
        (Some(a), Some(b)) => {
            assert(a < n && b < n);
            if a >= b {
                a + 1
            } else {
                b + 1
            }
        },
        (Some(a), None) => {
            assert(a < n);
            a + 1
        },
        (None, Some(b)) => {
            assert(b < n);
            b + 1
        },
        (None, None) => 0,
    };
    let base = text::sub_vec(&chars, cut, n);
    if base.len() > 0 {
        text::chars_string(&base)
    } else {
        String::from_str("PDF Print Job")
    }
}

/// Pick the printer of one job: the requested one, else the system default,
/// else a lookup failure.
pub fn resolve_printer(printer_name: &Option<String>, default_printer: &Option<String>) -> (r:
    Result<String, Error>)
    ensures
        match r {
            Ok(p) => match printer_name {
                Some(n) => p == n,
                None => printer_name is None && default_printer == &Some(p),
            },
            Err(e) => printer_name is None && default_printer is None && (e matches
                Error::PrinterLookupFailed(m) && m@ == ("No default printer configured")@),
        },
{
    match printer_name {
        Some(n) => Ok(n.clone()),
        None => match default_printer {
            Some(d) => Ok(d.clone()),
            None => Err(
                Error::PrinterLookupFailed(String::from_str("No default printer configured")),
            ),
        },
    }
}

/// The immediate answer of a fire-and-forget submission: the job renders on a
/// detached worker, so no job id is observable yet.
pub fn submitted_result(printer: String) -> (r: PrintResult)
    ensures
        r.job_id is None,
        r.printer == printer,
        r.message@ == ("Print job submitted (async)")@,
{
    PrintResult { job_id: None, printer, message: String::from_str("Print job submitted (async)") }
}

/// The answer of a finished device-context job, carrying the job id the
/// device reported.
pub fn finished_result(job_id: u32, printer: String) -> (r: PrintResult)
    ensures
        r.job_id == Some(job_id),
        r.printer == printer,
        r.message@ == ("GDI print submitted")@,
{
    PrintResult { job_id: Some(job_id), printer, message: String::from_str("GDI print submitted") }
}

/// Judge the job-start call: a positive return is the job id, anything else
/// is fatal with the device's error code in the message.
pub fn check_job_start(started: i32, error_code: u32) -> (r: Result<u32, Error>)
    ensures
        match r {
            Ok(id) => started > 0 && id == started,
            Err(e) => started <= 0 && (e matches Error::PrintCommandFailed(m) && m@ == (
            "Failed to start GDI print job (error ")@ + text::dec_rep(error_code as nat) + (")")@),
        },
{
    if started > 0 {
        Ok(started as u32)
    } else {
        let mut m = String::from_str("Failed to start GDI print job (error ");
        m.append(text::fmt_u64(error_code as u64).as_str());
        m.append(")");
        Err(Error::PrintCommandFailed(m))
    }
}

/// Judge the page-start call; a non-positive return aborts the job.
pub fn check_page_start(started: i32) -> (r: Result<(), Error>)
    ensures
        match r {
            Ok(_) => started > 0,
            Err(e) => started <= 0 && (e matches Error::PrintCommandFailed(m) && m@ == (
            "Failed to start GDI page")@),
        },
{
    if started > 0 {
        Ok(())
    } else {
        Err(Error::PrintCommandFailed(String::from_str("Failed to start GDI page")))
    }
}

/// Judge the page blit: a zero return is fatal, with the device's error code.
pub fn check_blit(blit_result: i32, error_code: u32) -> (r: Result<(), Error>)
    ensures
        match r {
            Ok(_) => blit_result != 0,
            Err(e) => blit_result == 0 && (e matches Error::PrintCommandFailed(m) && m@ == (
            "Failed to render page to printer (error ")@ + text::dec_rep(error_code as nat) + (
            ")")@),
        },
{
    if blit_result != 0 {
        Ok(())
    } else {
        let mut m = String::from_str("Failed to render page to printer (error ");
        m.append(text::fmt_u64(error_code as u64).as_str());
        m.append(")");
        Err(Error::PrintCommandFailed(m))
    }
}

/// Judge the page-end call; a non-positive return aborts the job.
pub fn check_page_end(ended: i32) -> (r: Result<(), Error>)
    ensures
        match r {
            Ok(_) => ended > 0,
            Err(e) => ended <= 0 && (e matches Error::PrintCommandFailed(m) && m@ == (
            "Failed to end GDI page")@),
        },
{
    if ended > 0 {
        Ok(())
    } else {
        Err(Error::PrintCommandFailed(String::from_str("Failed to end GDI page")))
    }
}

/// Judge the job-end call: a non-positive return is fatal, with the device's
/// error code.
pub fn check_job_end(finished: i32, error_code: u32) -> (r: Result<(), Error>)
    ensures
        match r {
            Ok(_) => finished > 0,
            Err(e) => finished <= 0 && (e matches Error::PrintCommandFailed(m) && m@ == (
            "Failed to finalize GDI print job (error ")@ + text::dec_rep(error_code as nat) + (
            ")")@),
        },
{
    if finished > 0 {
        Ok(())
    } else {
        let mut m = String::from_str("Failed to finalize GDI print job (error ");
        m.append(text::fmt_u64(error_code as u64).as_str());
        m.append(")");
        Err(Error::PrintCommandFailed(m))
    }
}

/// One tier of the render fallback chain: explicit options at the computed
/// size, a retry at half that size, then the document API's own sizing.
#[derive(Debug, Clone, Copy, PartialEq, Eq, Structural)]
pub enum RenderTier {
    FullSize,
    HalfSize,
    DefaultSize,
}

/// The size one tier renders at; the last tier names none and leaves sizing
/// to the document API.
pub fn render_tier_dims(tier: RenderTier, w: u32, h: u32) -> (r: Option<(u32, u32)>)
    ensures
        tier == RenderTier::FullSize ==> r == Some((w, h)),
        tier == RenderTier::HalfSize ==> match r {
            Some(d) => d.0 == (if w / 2 >= 1 {
                (w as int) / 2
            } else {
                1int
            }) && d.1 == (if h / 2 >= 1 {
                (h as int) / 2
            } else {
                1int
            }),
            None => false,
        },
        tier == RenderTier::DefaultSize ==> r is None,
{
    match tier {
        RenderTier::FullSize => Some((w, h)),
        RenderTier::HalfSize => Some(reduced_dims(w, h)),
        RenderTier::DefaultSize => None,
    }
}

/// The tier tried after one fails; after the last, the page is fatal and the
/// three errors are concatenated.
pub fn next_render_tier(tier: RenderTier) -> (r: Option<RenderTier>)
    ensures
        tier == RenderTier::FullSize ==> r == Some(RenderTier::HalfSize),
        tier == RenderTier::HalfSize ==> r == Some(RenderTier::DefaultSize),
        tier == RenderTier::DefaultSize ==> r is None,
{
    match tier {
        RenderTier::FullSize => Some(RenderTier::HalfSize),
        RenderTier::HalfSize => Some(RenderTier::DefaultSize),
        RenderTier::DefaultSize => None,
    }
}

/// The terminal message when all three render tiers failed: the three
/// underlying errors concatenated, none silently dropped.
pub fn render_failure_message(first: &str, second: &str, third: &str) -> (r: String)
    ensures
        r@ == ("Render failed after retries: ")@ + first@ + ("; ")@ + second@ + ("; ")@ + third@,
{
    let mut m = String::from_str("Render failed after retries: ");
    m.append(first);
    m.append("; ");
    m.append(second);
    m.append("; ");
    m.append(third);
    m
}

} // verus!
