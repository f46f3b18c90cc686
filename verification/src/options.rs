//! The request and result shapes of the printing core.

use vstd::prelude::*;

verus! {

/// A print request that names its document by filesystem path.
#[derive(Debug, Clone)]
pub struct PrintOptions {
    pub path: String,
    pub printer_name: Option<String>,
    pub job_name: Option<String>,
    pub copies: Option<u32>,
    pub duplex: Option<String>,
    pub paper_size: Option<String>,
    pub remove_after_print: bool,
}

/// A print request that carries its document as base64-encoded bytes; it is
/// staged to a temporary file and then handled as a [`PrintOptions`].
#[derive(Debug, Clone)]
pub struct PrintBytesOptions {
    pub data_base64: String,
    pub printer_name: Option<String>,
    pub job_name: Option<String>,
    pub copies: Option<u32>,
    pub duplex: Option<String>,
    pub paper_size: Option<String>,
    pub remove_after_print: bool,
}

/// What a successful submission reports back: the job id where the backend
/// can observe one, the printer that took the job, and a status line.
#[derive(Debug, Clone, PartialEq)]
pub struct PrintResult {
    pub job_id: Option<u32>,
    pub printer: String,
    pub message: String,
}

/// One entry of the printer directory.
#[derive(Debug, Clone, PartialEq)]
pub struct PrinterInfo {
    pub name: String,
    pub is_default: bool,
    pub status: String,
}

/// One media (paper size) choice a printer offers.
#[derive(Debug, Clone, PartialEq)]
pub struct MediaOption {
    pub id: String,
    pub label: String,
    pub is_default: bool,
}

/// The mathematical shape of a [`PrinterInfo`].
pub ghost struct PrinterInfoV {
    pub name: Seq<char>,
    pub is_default: bool,
    pub status: Seq<char>,
}

/// The mathematical shape of a [`MediaOption`].
pub ghost struct MediaOptionV {
    pub id: Seq<char>,
    pub label: Seq<char>,
    pub is_default: bool,
}

impl View for PrinterInfo {
    type V = PrinterInfoV;

    open spec fn view(&self) -> PrinterInfoV {
        PrinterInfoV { name: self.name@, is_default: self.is_default, status: self.status@ }
    }
}

impl DeepView for PrinterInfo {
    type V = PrinterInfoV;

    open spec fn deep_view(&self) -> PrinterInfoV {
        self.view()
    }
}

impl View for MediaOption {
    type V = MediaOptionV;

    open spec fn view(&self) -> MediaOptionV {
        MediaOptionV { id: self.id@, label: self.label@, is_default: self.is_default }
    }
}

impl DeepView for MediaOption {
    type V = MediaOptionV;

    open spec fn deep_view(&self) -> MediaOptionV {
        self.view()
    }
}

/// The paper names offered when a printer reports no media of its own.
pub open spec fn default_media_names() -> Seq<Seq<char>> {
    seq![
        ("Letter")@,
        ("Legal")@,
        ("A4")@,
        ("A3")@,
        ("A5")@,
        ("Tabloid")@,
        ("Executive")@,
    ]
}

/// The fallback media list: the common paper names, none marked default.
pub fn default_media_options() -> (r: Vec<MediaOption>)
    ensures
        r.deep_view().len() == default_media_names().len(),
        forall|i: int|
            0 <= i < r.deep_view().len() ==> #[trigger] r.deep_view()[i] == (MediaOptionV {
                id: default_media_names()[i],
                label: default_media_names()[i],
                is_default: false,
            }),
{
    let mut out: Vec<MediaOption> = Vec::new();
    let mut i: usize = 0;
    while i < 7
        invariant
            i <= 7,
            out.deep_view().len() == i,
            forall|k: int|
                0 <= k < i ==> #[trigger] out.deep_view()[k] == (MediaOptionV {
                    id: default_media_names()[k],
                    label: default_media_names()[k],
                    is_default: false,
                }),
        decreases 7 - i,
    {
        let name: &str = if i == 0 {
            "Letter"
        } else if i == 1 {
            "Legal"
        } else if i == 2 {
            "A4"
        } else if i == 3 {
            "A3"
        } else if i == 4 {
            "A5"
        } else if i == 5 {
            "Tabloid"
        } else {
            "Executive"
        };
        proof {
            assert(name@ == default_media_names()[i as int]);
        }
        let ghost pre = out.deep_view();
        let option = MediaOption {
            id: String::from_str(name),
            label: String::from_str(name),
            is_default: false,
        };
        out.push(option);
        proof {
            assert(out.deep_view() =~= pre.push(option@));
        }
        i = i + 1;
    }
    out
}

/// A device that reports no media of its own gets the fallback list; any
/// reported media stand unchanged.
pub fn media_or_defaults(found: Vec<MediaOption>) -> (r: Vec<MediaOption>)
    ensures
        found@.len() > 0 ==> r == found,
        found@.len() == 0 ==> r.deep_view().len() == default_media_names().len() && forall|i: int|
            0 <= i < r.deep_view().len() ==> #[trigger] r.deep_view()[i] == (MediaOptionV {
                id: default_media_names()[i],
                label: default_media_names()[i],
                is_default: false,
            }),
{
    if found.len() > 0 {
        found
    } else {
        default_media_options()
    }
}

/// The status word for a device's printer-state code: the codes the device
/// model defines, every other one unknown.
pub open spec fn printer_status_name(status: Option<u32>) -> Seq<char> {
    match status {
        Some(3u32) => ("idle")@,
        Some(4u32) => ("printing")@,
        Some(7u32) => ("offline")@,
        Some(5u32) => ("warming")@,
        Some(6u32) => ("stopped")@,
        _ => ("unknown")@,
    }
}

/// Normalize a device's printer-state code to a status word.
pub fn map_printer_status(status: Option<u32>) -> (r: String)
    ensures
        r@ == printer_status_name(status),
{
    match status {
        Some(3u32) => String::from_str("idle"),
        Some(4u32) => String::from_str("printing"),
        Some(7u32) => String::from_str("offline"),
        Some(5u32) => String::from_str("warming"),
        Some(6u32) => String::from_str("stopped"),
        _ => String::from_str("unknown"),
    }
}

impl PrintBytesOptions {
    /// The canonical path-based request once the payload has been staged at
    /// `path`: every field but the payload carries over unchanged.
    pub fn into_print_options(self, path: String) -> (r: PrintOptions)
        ensures
            r.path == path,
            r.printer_name == self.printer_name,
            r.job_name == self.job_name,
            r.copies == self.copies,
            r.duplex == self.duplex,
            r.paper_size == self.paper_size,
            r.remove_after_print == self.remove_after_print,
    {
        PrintOptions {
            path,
            printer_name: self.printer_name,
            job_name: self.job_name,
            copies: self.copies,
            duplex: self.duplex,
            paper_size: self.paper_size,
            remove_after_print: self.remove_after_print,
        }
    }
}

} // verus!
