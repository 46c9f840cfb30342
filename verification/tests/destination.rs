use ilegallearn_desktop::destination::{file_stem, find_free_name, Destination};

#[test]
fn stems_agree_with_paths() {
    for name in ["a.pdf", "a.b.pdf", ".pdf", "a", "a.", ".a.pdf", "..", ".", "..pdf", "\u{e9}.PDF"] {
        let stem = std::path::Path::new(name).file_stem().and_then(|stem| stem.to_str());
        assert_eq!(file_stem(name), stem.unwrap_or(name), "{name}");
    }
}

#[test]
fn candidates_in_order() {
    let mut destination = Destination::new("Notes.PDF".to_string());
    let mut names = vec![destination.name.clone()];
    for _ in 0..11 {
        destination.advance();
        names.push(destination.name.clone());
    }
    assert_eq!(names[0], "Notes.PDF");
    assert_eq!(names[1], "Notes (1).pdf");
    assert_eq!(names[2], "Notes (2).pdf");
    assert_eq!(names[11], "Notes (11).pdf");
    assert_eq!(destination.copy_number, 12);
    names.sort();
    names.dedup();
    assert_eq!(names.len(), 12);
}

#[test]
fn bare_extension() {
    let mut destination = Destination::new(".pdf".to_string());
    destination.advance();
    assert_eq!(destination.name, ".pdf (1).pdf");
}

fn free_name(name: &str, taken: &[String]) -> Option<String> {
    find_free_name(name.to_string(), |name| taken.iter().any(|other| other == name))
}

#[test]
fn first_free_name_is_found() {
    let taken = |names: &[&str]| names.iter().map(|name| name.to_string()).collect::<Vec<_>>();
    let found = |names: &[&str]| free_name("a.pdf", &taken(names)).unwrap();
    assert_eq!(found(&[]), "a.pdf");
    assert_eq!(found(&["b.pdf", "a (1).pdf"]), "a.pdf");
    assert_eq!(found(&["a.pdf"]), "a (1).pdf");
    assert_eq!(found(&["a (1).pdf", "a.pdf", "a (3).pdf"]), "a (2).pdf");
}

#[test]
fn repeated_download_keeps_the_earlier_files() {
    let mut taken: Vec<String> = Vec::new();
    for _ in 0..12 {
        let name = free_name("Case Notes.pdf", &taken).unwrap();
        assert!(!taken.contains(&name));
        taken.push(name);
    }
    assert_eq!(taken[0], "Case Notes.pdf");
    assert_eq!(taken[1], "Case Notes (1).pdf");
    assert_eq!(taken[11], "Case Notes (11).pdf");
}
