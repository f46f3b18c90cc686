//! End-to-end checks of the printing core: staging, spooler parsing, the
//! entry points, geometry and the caches.

use native_pdf_print::cache::{MediaCache, PrinterCache};
use native_pdf_print::errors::Error;
use native_pdf_print::geometry;
use native_pdf_print::geometry::DestRect;
use native_pdf_print::options::{
    default_media_options, map_printer_status, media_or_defaults, MediaOption, PrintBytesOptions,
    PrintOptions, PrinterInfo,
};
use native_pdf_print::viewer::viewer_print_script;
use native_pdf_print::raster;
use native_pdf_print::raster::{next_render_tier, render_tier_dims, RenderTier};
use native_pdf_print::spooler;
use native_pdf_print::spooler::CmdOutput;
use native_pdf_print::stage;
use native_pdf_print::{get_default_printer, get_printer_media, get_printers, print_pdf,
    resolve_media_target};

fn sample_options(path: &str) -> PrintOptions {
    PrintOptions {
        path: path.to_string(),
        printer_name: None,
        job_name: None,
        copies: None,
        duplex: None,
        paper_size: None,
        remove_after_print: false,
    }
}

#[test]
fn lp_ack_parses_to_job_id() {
    // The spooler acknowledgment carries the job id as the numeric suffix.
    let parsed = spooler::parse_lp_job_id("request id is HP_LaserJet-142 (1 file(s))");
    assert_eq!(parsed, Some(142));
}

#[test]
fn lp_ack_without_marker_has_no_job_id() {
    assert_eq!(spooler::parse_lp_job_id("no job was created"), None);
    assert_eq!(spooler::parse_lp_job_id("request id is "), None);
    assert_eq!(spooler::parse_lp_job_id("request id is Printer-abc (1 file(s))"), None);
}

#[test]
fn print_pdf_reports_submission() {
    let options = sample_options("/tmp/doc.pdf");
    let spool = Some(CmdOutput {
        success: true,
        stdout: "request id is HP_LaserJet-142 (1 file(s))\n".to_string(),
        stderr: String::new(),
    });
    let default = Some("HP_LaserJet".to_string());
    let result = print_pdf(&options, true, &spool, &default).unwrap();
    assert_eq!(result.job_id, Some(142));
    assert_eq!(result.printer, "HP_LaserJet");
    assert_eq!(result.message, "request id is HP_LaserJet-142 (1 file(s))");
}

#[test]
fn print_pdf_missing_path_fails_without_running() {
    let options = sample_options("/tmp/missing.pdf");
    let err = print_pdf(&options, false, &None, &None).unwrap_err();
    assert!(matches!(err, Error::PrintCommandFailed(ref m) if m == "PDF path does not exist"));
}

#[test]
fn print_pdf_spooler_failure_carries_stderr() {
    let options = sample_options("/tmp/doc.pdf");
    let spool = Some(CmdOutput {
        success: false,
        stdout: String::new(),
        stderr: " lp: The printer or class does not exist.\n".to_string(),
    });
    let err = print_pdf(&options, true, &spool, &None).unwrap_err();
    assert!(matches!(err, Error::PrintCommandFailed(ref m)
        if m == "lp: The printer or class does not exist."));
}

#[test]
fn lp_args_carry_every_recognized_field() {
    let options = PrintOptions {
        path: "/tmp/doc.pdf".to_string(),
        printer_name: Some("Office".to_string()),
        job_name: Some("report".to_string()),
        copies: Some(3),
        duplex: Some("long".to_string()),
        paper_size: Some("A4".to_string()),
        remove_after_print: false,
    };
    let args = spooler::build_lp_args(&options);
    assert_eq!(
        args,
        vec![
            "-d".to_string(),
            "Office".to_string(),
            "-t".to_string(),
            "report".to_string(),
            "-n".to_string(),
            "3".to_string(),
            "-o".to_string(),
            "sides=two-sided-long-edge".to_string(),
            "-o".to_string(),
            "media=A4".to_string(),
            "/tmp/doc.pdf".to_string(),
        ]
    );
}

#[test]
fn lp_args_drop_unrecognized_duplex_and_single_copies() {
    let options = PrintOptions {
        path: "a.pdf".to_string(),
        printer_name: None,
        job_name: None,
        copies: Some(1),
        duplex: Some("diagonal".to_string()),
        paper_size: Some(String::new()),
        remove_after_print: true,
    };
    let args = spooler::build_lp_args(&options);
    assert_eq!(args, vec!["a.pdf".to_string()]);
}

#[test]
fn printers_parse_from_status_listing() {
    let listing = "printer HP_LaserJet is idle.  enabled since Mon\n\
                   printer Basement disabled since Tue\n\
                   printer Lobby now printing Lobby-17.\n\
                   scheduler is running\n";
    let default = Some("Lobby".to_string());
    let printers = spooler::parse_printers(listing, &default);
    assert_eq!(
        printers,
        vec![
            PrinterInfo {
                name: "HP_LaserJet".to_string(),
                is_default: false,
                status: "idle".to_string(),
            },
            PrinterInfo {
                name: "Basement".to_string(),
                is_default: false,
                status: "disabled".to_string(),
            },
            PrinterInfo {
                name: "Lobby".to_string(),
                is_default: true,
                status: "printing".to_string(),
            },
        ]
    );
}

#[test]
fn get_printers_failure_is_lookup_error() {
    let output = CmdOutput {
        success: false,
        stdout: String::new(),
        stderr: "lpstat: not found\n".to_string(),
    };
    let err = get_printers(&output, &None).unwrap_err();
    assert!(matches!(err, Error::PrinterLookupFailed(ref m) if m == "lpstat: not found"));
}

#[test]
fn default_destination_parses_from_status() {
    let output = CmdOutput {
        success: true,
        stdout: "system default destination: HP_LaserJet\n".to_string(),
        stderr: String::new(),
    };
    assert_eq!(get_default_printer(&output).unwrap(), Some("HP_LaserJet".to_string()));

    let no_default = CmdOutput {
        success: true,
        stdout: "no system default destination\n".to_string(),
        stderr: String::new(),
    };
    assert_eq!(get_default_printer(&no_default).unwrap(), None);

    let failed = CmdOutput { success: false, stdout: String::new(), stderr: String::new() };
    assert_eq!(get_default_printer(&failed).unwrap(), None);
}

#[test]
fn media_listing_without_target_is_empty_not_error() {
    // No printer named and no default configured: an empty list, never an
    // error, and the options dump is never consulted.
    let target = resolve_media_target(None, None);
    assert_eq!(target, None);
    let output = CmdOutput {
        success: false,
        stdout: String::new(),
        stderr: "lpoptions: Unable to get printer\n".to_string(),
    };
    let media = get_printer_media(&target, &output).unwrap();
    assert!(media.is_empty());
}

#[test]
fn media_options_parse_with_single_default() {
    let dump = "PageSize/Media Size: *Letter/US-Letter A4/A4 Legal\n\
                Duplex/2-Sided Printing: None\n";
    let options = spooler::parse_media_options(dump);
    assert_eq!(
        options,
        vec![
            MediaOption {
                id: "Letter".to_string(),
                label: "US-Letter".to_string(),
                is_default: true,
            },
            MediaOption { id: "A4".to_string(), label: "A4".to_string(), is_default: false },
            MediaOption { id: "Legal".to_string(), label: "Legal".to_string(), is_default: false },
        ]
    );
    let defaults = options.iter().filter(|o| o.is_default).count();
    assert_eq!(defaults, 1);
}

#[test]
fn media_options_parse_is_idempotent() {
    let dump = "media/Paper: *a4 letter legal\n";
    let first = spooler::parse_media_options(dump);
    let second = spooler::parse_media_options(dump);
    assert_eq!(first, second);
    assert_eq!(first.len(), 3);
}

#[test]
fn media_options_skip_lines_without_tokens() {
    let dump = "Media:\nPageSize/Media Size: letter\n";
    let options = spooler::parse_media_options(dump);
    assert_eq!(options.len(), 1);
    assert_eq!(options[0].id, "letter");
    assert!(!options[0].is_default);
}

#[test]
fn payload_round_trips_through_base64() {
    let data: Vec<u8> = vec![0, 1, 2, 250, 255, 37, 80, 68, 70];
    let encoded = stage::encode_payload(&data);
    let decoded = stage::decode_payload(&encoded).unwrap();
    assert_eq!(decoded, data);
    assert_eq!(stage::payload_round_trip(&data), data);
}

#[test]
fn base64_decoding_is_not_the_identity() {
    assert_eq!(stage::encode_payload(&b"hi".to_vec()), "aGk=");
    assert_eq!(stage::decode_payload("aGk=").unwrap(), b"hi".to_vec());
}

#[test]
fn malformed_base64_is_read_failure() {
    let options = PrintBytesOptions {
        data_base64: "!!!not-base64!!!".to_string(),
        printer_name: None,
        job_name: None,
        copies: None,
        duplex: None,
        paper_size: None,
        remove_after_print: false,
    };
    let err = stage::prepare_print_bytes(options, "unused".to_string()).unwrap_err();
    assert!(matches!(err, Error::ReadFailed(_)));
}

#[test]
fn staged_request_carries_fields_over() {
    let data = b"%PDF-1.4 minimal".to_vec();
    let options = PrintBytesOptions {
        data_base64: stage::encode_payload(&data),
        printer_name: Some("Office".to_string()),
        job_name: Some("report".to_string()),
        copies: Some(2),
        duplex: Some("short".to_string()),
        paper_size: Some("A4".to_string()),
        remove_after_print: true,
    };
    let staged = stage::temp_file_name(1700000000123);
    assert_eq!(staged, "native-pdf-print-1700000000123.pdf");
    let (bytes, print_options) = stage::prepare_print_bytes(options, staged.clone()).unwrap();
    assert_eq!(bytes, data);
    assert_eq!(print_options.path, staged);
    assert_eq!(print_options.printer_name, Some("Office".to_string()));
    assert_eq!(print_options.job_name, Some("report".to_string()));
    assert_eq!(print_options.copies, Some(2));
    assert_eq!(print_options.duplex, Some("short".to_string()));
    assert_eq!(print_options.paper_size, Some("A4".to_string()));
    assert!(print_options.remove_after_print);
}

#[test]
fn printer_cache_honors_ttl_window() {
    let mut cache = PrinterCache::new();
    assert!(cache.lookup(0).is_none());
    let printers = vec![PrinterInfo {
        name: "Office".to_string(),
        is_default: true,
        status: "idle".to_string(),
    }];
    cache.store(printers.clone(), 1000);
    assert_eq!(cache.lookup(1000 + 29000), Some(&printers));
    assert_eq!(cache.lookup(1000 + 30000), Some(&printers));
    assert!(cache.lookup(1000 + 31000).is_none());
}

#[test]
fn media_cache_is_per_printer() {
    let mut cache = MediaCache::new();
    let a4 = vec![MediaOption { id: "A4".to_string(), label: "A4".to_string(), is_default: true }];
    let letter = vec![MediaOption {
        id: "Letter".to_string(),
        label: "US Letter".to_string(),
        is_default: true,
    }];
    cache.store("Office".to_string(), a4.clone(), 1000);
    cache.store("Lobby".to_string(), letter.clone(), 2000);
    assert_eq!(cache.lookup("Office", 1000 + 29000), Some(&a4));
    assert!(cache.lookup("Office", 1000 + 31000).is_none());
    assert_eq!(cache.lookup("Lobby", 2000 + 29000), Some(&letter));
    assert!(cache.lookup("Nowhere", 1000).is_none());
    // A refresh of one key leaves the other untouched.
    cache.store("Office".to_string(), letter.clone(), 5000);
    assert_eq!(cache.lookup("Office", 5000), Some(&letter));
    assert_eq!(cache.lookup("Lobby", 2000 + 1000), Some(&letter));
}

#[test]
fn raster_target_respects_pixel_ceiling() {
    // A US Letter page at the DPI ceiling stays within bounds untouched.
    let dpi = geometry::clamp_render_dpi(600);
    assert_eq!(dpi, 150);
    let w = geometry::target_dim(612, dpi);
    let h = geometry::target_dim(792, dpi);
    assert_eq!((w, h), (1275, 1650));
    assert_eq!(geometry::cap_dims(w, h), (1275, 1650));
    // An oversized raster is scaled uniformly under the ceiling.
    let (cw, ch) = geometry::cap_dims(4000, 1000);
    assert_eq!((cw, ch), (2000, 500));
    let (cw2, ch2) = geometry::cap_dims(3000, 6000);
    assert_eq!((cw2, ch2), (1000, 2000));
    assert!(cw <= 2000 && ch <= 2000 && cw2 <= 2000 && ch2 <= 2000);
}

#[test]
fn dest_rect_is_centered_and_letterboxed() {
    let r = geometry::compute_dest_rect(1000, 1000, 10, 20, 500, 250);
    assert_eq!(r, DestRect { x: 10, y: 270, w: 1000, h: 500 });
    // The wide axis binds: the blit fills it exactly and centers the other.
    let tall = geometry::compute_dest_rect(1000, 2000, 0, 0, 100, 100);
    assert_eq!(tall, DestRect { x: 0, y: 500, w: 1000, h: 1000 });
}

#[test]
fn dest_rect_scale_floors_at_one_hundredth() {
    // A degenerate printable area keeps a hundredth of the bitmap.
    let r = geometry::compute_dest_rect(1, 1, 0, 0, 1000, 1000);
    assert_eq!((r.w, r.h), (10, 10));
}

#[test]
fn reduced_dims_halve_and_floor_at_one() {
    assert_eq!(geometry::reduced_dims(1000, 501), (500, 250));
    assert_eq!(geometry::reduced_dims(1, 0), (1, 1));
}

#[test]
fn bgra_buffer_len_is_four_bytes_per_pixel() {
    assert_eq!(geometry::bgra_buffer_len(1275, 1650), 4 * 1275 * 1650);
    assert_eq!(geometry::bgra_buffer_len(0, 5), 0);
}

#[test]
fn job_name_defaults_to_base_name() {
    assert_eq!(raster::default_job_name("/tmp/stage/doc.pdf", &None), "doc.pdf");
    assert_eq!(raster::default_job_name("C:\\temp\\doc.pdf", &None), "doc.pdf");
    assert_eq!(raster::default_job_name("plain.pdf", &None), "plain.pdf");
    assert_eq!(raster::default_job_name("/ends/in/", &None), "PDF Print Job");
    assert_eq!(
        raster::default_job_name("/tmp/doc.pdf", &Some("My Job".to_string())),
        "My Job"
    );
}

#[test]
fn printer_resolution_prefers_request_then_default() {
    assert_eq!(
        raster::resolve_printer(&Some("Office".to_string()), &Some("Lobby".to_string())).unwrap(),
        "Office"
    );
    assert_eq!(raster::resolve_printer(&None, &Some("Lobby".to_string())).unwrap(), "Lobby");
    let err = raster::resolve_printer(&None, &None).unwrap_err();
    assert!(matches!(err, Error::PrinterLookupFailed(ref m)
        if m == "No default printer configured"));
}

#[test]
fn job_lifecycle_checks_reject_non_positive_returns() {
    assert_eq!(raster::check_job_start(7, 0).unwrap(), 7);
    let err = raster::check_job_start(0, 87).unwrap_err();
    assert!(matches!(err, Error::PrintCommandFailed(ref m)
        if m == "Failed to start GDI print job (error 87)"));
    assert!(raster::check_page_start(1).is_ok());
    assert!(matches!(raster::check_page_start(0).unwrap_err(),
        Error::PrintCommandFailed(ref m) if m == "Failed to start GDI page"));
    assert!(raster::check_blit(12, 0).is_ok());
    assert!(matches!(raster::check_blit(0, 6).unwrap_err(),
        Error::PrintCommandFailed(ref m)
            if m == "Failed to render page to printer (error 6)"));
    assert!(raster::check_page_end(1).is_ok());
    assert!(matches!(raster::check_page_end(-1).unwrap_err(),
        Error::PrintCommandFailed(ref m) if m == "Failed to end GDI page"));
    assert!(raster::check_job_end(1, 0).is_ok());
    assert!(matches!(raster::check_job_end(0, 5).unwrap_err(),
        Error::PrintCommandFailed(ref m)
            if m == "Failed to finalize GDI print job (error 5)"));
}

#[test]
fn render_failure_concatenates_all_three_errors() {
    let message = raster::render_failure_message("tier one", "tier two", "tier three");
    assert_eq!(message, "Render failed after retries: tier one; tier two; tier three");
}

#[test]
fn submission_results_carry_their_messages() {
    let submitted = raster::submitted_result("Office".to_string());
    assert_eq!(submitted.job_id, None);
    assert_eq!(submitted.message, "Print job submitted (async)");
    let finished = raster::finished_result(42, "Office".to_string());
    assert_eq!(finished.job_id, Some(42));
    assert_eq!(finished.message, "GDI print submitted");
}

#[test]
fn error_messages_name_their_kind() {
    assert_eq!(
        Error::PrintCommandFailed("boom".to_string()).message(),
        "Print command failed: boom"
    );
    assert_eq!(Error::ReadFailed("bad".to_string()).message(), "Failed to read file: bad");
    assert_eq!(Error::WriteFailed("disk".to_string()).message(), "Failed to write file: disk");
    assert_eq!(
        Error::PrinterLookupFailed("none".to_string()).message(),
        "Failed to resolve printer: none"
    );
    assert_eq!(Error::UnsupportedPlatform.message(), "Unsupported platform");
}

#[test]
fn page_raster_plan_caps_both_axes() {
    // An A0 page at a 600 DPI device: the DPI clamps to 150, the raster to
    // the pixel ceiling, aspect kept.
    let (w, h) = geometry::plan_page_raster(2384, 3370, 600, 600);
    assert!(w <= 2000 && h <= 2000);
    assert_eq!((w, h), (1415, 2000));
    // A small page is untouched.
    assert_eq!(geometry::plan_page_raster(612, 792, 96, 96), (816, 1056));
}

#[test]
fn empty_media_listing_falls_back_to_defaults() {
    let found = vec![MediaOption {
        id: "A4".to_string(),
        label: "A4".to_string(),
        is_default: true,
    }];
    assert_eq!(media_or_defaults(found.clone()), found);
    let defaults = media_or_defaults(Vec::new());
    assert_eq!(defaults, default_media_options());
    assert_eq!(defaults.len(), 7);
    assert_eq!(defaults[0].id, "Letter");
    assert!(defaults.iter().all(|m| !m.is_default));
}

#[test]
fn printer_status_codes_normalize() {
    assert_eq!(map_printer_status(Some(3)), "idle");
    assert_eq!(map_printer_status(Some(4)), "printing");
    assert_eq!(map_printer_status(Some(5)), "warming");
    assert_eq!(map_printer_status(Some(6)), "stopped");
    assert_eq!(map_printer_status(Some(7)), "offline");
    assert_eq!(map_printer_status(Some(1)), "unknown");
    assert_eq!(map_printer_status(None), "unknown");
}

#[test]
fn viewer_script_escapes_quotes() {
    let script = viewer_print_script("/tmp/it's \"ready\".pdf");
    assert!(script.starts_with("tell application \"Preview\""));
    assert!(script.contains("POSIX file \"/tmp/it\\'s \\\"ready\\\".pdf\""));
    assert!(script.contains("print theDoc with print dialog"));
    assert!(script.contains("close theDoc saving no"));
    assert!(script.ends_with("end tell"));
}

#[test]
fn render_fallback_walks_three_tiers() {
    assert_eq!(render_tier_dims(RenderTier::FullSize, 1600, 900), Some((1600, 900)));
    assert_eq!(render_tier_dims(RenderTier::HalfSize, 1600, 900), Some((800, 450)));
    assert_eq!(render_tier_dims(RenderTier::DefaultSize, 1600, 900), None);
    assert_eq!(next_render_tier(RenderTier::FullSize), Some(RenderTier::HalfSize));
    assert_eq!(next_render_tier(RenderTier::HalfSize), Some(RenderTier::DefaultSize));
    assert_eq!(next_render_tier(RenderTier::DefaultSize), None);
}
