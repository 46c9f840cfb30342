use base64::Engine;
use ilegallearn_desktop::pdf::{
    accept_decoded, is_pdf, prepare_pdf_download, safe_pdf_name, SaveError, MAX_ENCODED_PDF_SIZE,
};

fn encoded(bytes: &[u8]) -> String {
    base64::engine::general_purpose::STANDARD.encode(bytes)
}

fn named(name: &str) -> String {
    safe_pdf_name(Some(name.to_string()))
}

#[test]
fn names_are_cleaned() {
    assert_eq!(named("Case Notes.pdf"), "Case Notes.pdf");
    assert_eq!(named("a<b>c:d\"e/f\\g|h?i*j.pdf"), "a_b_c_d_e_f_g_h_i_j.pdf");
    assert_eq!(named("R\u{e9}sum\u{e9}"), "R\u{e9}sum\u{e9}.pdf");
    assert_eq!(named("NOTES.PDF"), "NOTES.PDF");
    assert_eq!(named("notes.pDf"), "notes.pDf");
    assert_eq!(named("notes.pdf.exe"), "notes.pdf.exe.pdf");
    assert_eq!(named("pdf"), "pdf.pdf");
    assert_eq!(named(".pdf"), ".pdf");
    assert_eq!(named(""), ".pdf");
    assert_eq!(safe_pdf_name(None), "iLegalLearn.pdf");
}

#[test]
fn long_names_are_cut() {
    let long = "x".repeat(300);
    assert_eq!(named(&long), format!("{}.pdf", "x".repeat(180)));
    let cut_inside = format!("{}.pdf", "x".repeat(178));
    assert_eq!(named(&cut_inside), format!("{}.p.pdf", "x".repeat(178)));
    let fits = format!("{}.pdf", "x".repeat(176));
    assert_eq!(named(&fits), fits);
    let wide = "\u{20ac}".repeat(181);
    assert_eq!(named(&wide), format!("{}.pdf", "\u{20ac}".repeat(180)));
}

#[test]
fn given_names_are_safe() {
    for request in ["", "..", "a/b", "con:x", "\u{0}", "x.PDF", "?*"] {
        let name = named(request);
        assert!(!name.contains(['<', '>', ':', '"', '/', '\\', '|', '?', '*']));
        assert!(name.to_ascii_lowercase().ends_with(".pdf"));
        assert!(name.chars().count() <= 184);
    }
}

#[test]
fn pdf_marker() {
    assert!(is_pdf(&b"%PDF-1.7".to_vec()));
    assert!(is_pdf(&b"%PDF-".to_vec()));
    assert!(!is_pdf(&b"%PDF".to_vec()));
    assert!(!is_pdf(&b" %PDF-".to_vec()));
    assert!(!is_pdf(&b"%pdf-".to_vec()));
    assert!(!is_pdf(&Vec::new()));
}

#[test]
fn download_is_prepared() {
    let download = prepare_pdf_download("Notes.pdf", &encoded(b"%PDF-1.4 body")).unwrap();
    assert_eq!(download.name, "Notes.pdf");
    assert_eq!(download.contents, b"%PDF-1.4 body".to_vec());
}

#[test]
fn requested_folders_are_dropped() {
    let name = |request: &str| prepare_pdf_download(request, &encoded(b"%PDF-")).unwrap().name;
    assert_eq!(name("some/folder/report.pdf"), "report.pdf");
    assert_eq!(name("../../etc/passwd"), "passwd.pdf");
    assert_eq!(name(".."), "iLegalLearn.pdf");
    assert_eq!(name("plain"), "plain.pdf");
}

#[test]
fn requested_colons_are_cleaned() {
    let name = |request: &str| prepare_pdf_download(request, &encoded(b"%PDF-")).unwrap().name;
    assert_eq!(name("Report: Q1.pdf"), "Report_ Q1.pdf");
    assert_eq!(name("a/b:c?.PDF"), "b_c_.PDF");
    assert_eq!(name("12:30"), "12_30.pdf");
    assert_eq!(name("1: intro.pdf"), "1_ intro.pdf");
    assert_eq!(name("a/b:"), "b_.pdf");
}

#[test]
fn ends_of_requested_paths() {
    let name = |request: &str| prepare_pdf_download(request, &encoded(b"%PDF-")).unwrap().name;
    assert_eq!(name("a/"), "a.pdf");
    assert_eq!(name("x/a///"), "a.pdf");
    assert_eq!(name("a/."), "a.pdf");
    assert_eq!(name("a/././"), "a.pdf");
    assert_eq!(name("/a"), "a.pdf");
    assert_eq!(name("a/.b"), ".b.pdf");
    assert_eq!(name("a/..."), "....pdf");
    for request in ["", ".", "/", "./", "/.", "a/..", "a/../", "../."] {
        assert_eq!(name(request), "iLegalLearn.pdf", "{request}");
    }
}

#[test]
fn bad_data_is_refused() {
    let error = prepare_pdf_download("a.pdf", "JVBERi0*").unwrap_err();
    assert_eq!(error, SaveError::InvalidData { reason: "Invalid symbol 42, offset 7.".to_string() });
    let reason = base64::engine::general_purpose::STANDARD.decode("JVBERi0").unwrap_err();
    let error = prepare_pdf_download("a.pdf", "JVBERi0").unwrap_err();
    assert_eq!(error.message(), format!("The PDF data was invalid: {reason}"));
}

#[test]
fn other_files_are_refused() {
    assert_eq!(prepare_pdf_download("a.pdf", &encoded(b"GIF89a")), Err(SaveError::NotPdf));
    assert_eq!(prepare_pdf_download("a.pdf", ""), Err(SaveError::NotPdf));
}

#[test]
fn size_limit() {
    assert_eq!(MAX_ENCODED_PDF_SIZE, 70 * 1024 * 1024);
    let over = "!".repeat(MAX_ENCODED_PDF_SIZE + 1);
    assert_eq!(prepare_pdf_download("a.pdf", &over), Err(SaveError::TooLarge));
    let at = "!".repeat(MAX_ENCODED_PDF_SIZE);
    assert_eq!(
        prepare_pdf_download("a.pdf", &at),
        Err(SaveError::InvalidData { reason: "Invalid symbol 33, offset 0.".to_string() })
    );
}

#[test]
fn decoded_data_is_accepted_or_refused() {
    assert_eq!(accept_decoded(Ok(b"%PDF-x".to_vec())), Ok(b"%PDF-x".to_vec()));
    assert_eq!(accept_decoded(Ok(b"x".to_vec())), Err(SaveError::NotPdf));
    assert_eq!(
        accept_decoded(Err("why".to_string())),
        Err(SaveError::InvalidData { reason: "why".to_string() })
    );
}

#[test]
fn messages() {
    let reason = || "r".to_string();
    assert_eq!(SaveError::TooLarge.message(), "The PDF is too large to save.");
    assert_eq!(
        SaveError::InvalidData { reason: reason() }.message(),
        "The PDF data was invalid: r"
    );
    assert_eq!(SaveError::NotPdf.message(), "The downloaded file was not a valid PDF.");
    assert_eq!(
        SaveError::NoFolder { reason: reason() }.message(),
        "Could not locate the Downloads folder: r"
    );
    assert_eq!(
        SaveError::NotWritten { reason: reason() }.message(),
        "Could not save the PDF: r"
    );
}
