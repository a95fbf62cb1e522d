use dither_batch::batch::{
    completion_event, is_supported_image, plan_batch, progress_event_for, ErrorKind, WorkItem,
};

fn paths(names: &[&str]) -> Vec<String> {
    names.iter().map(|s| s.to_string()).collect()
}

#[test]
fn supported_extensions_case_insensitive() {
    assert!(is_supported_image("a.png"));
    assert!(is_supported_image("A.PNG"));
    assert!(is_supported_image("photo.Jpg"));
    assert!(is_supported_image("photo.jpeg"));
    assert!(is_supported_image("scan.BMP"));
    assert!(!is_supported_image("notes.txt"));
    assert!(!is_supported_image("archive.png.gz"));
    assert!(!is_supported_image("png"));
    assert!(!is_supported_image(""));
}

#[test]
fn plan_keeps_supported_paths_in_order() {
    let input = paths(&["dir/a.PNG", "b.txt", "c.jpeg", "d.BMP", "x/y/e.Jpg"]);
    let items = plan_batch(&input).unwrap();
    let sources: Vec<&str> = items.iter().map(|it| it.source.as_str()).collect();
    assert_eq!(sources, vec!["dir/a.PNG", "c.jpeg", "d.BMP", "x/y/e.Jpg"]);
    let names: Vec<&str> = items.iter().map(|it| it.file_name.as_str()).collect();
    assert_eq!(names, vec!["a.PNG", "c.jpeg", "d.BMP", "e.Jpg"]);
    for (k, it) in items.iter().enumerate() {
        assert_eq!(it.index, k);
    }
}

#[test]
fn empty_scan_is_no_input_found() {
    assert_eq!(plan_batch(&Vec::new()).unwrap_err(), ErrorKind::NoInputFound);
    let only_unsupported = paths(&["a.txt", "b.doc", "c.tiff"]);
    let err = plan_batch(&only_unsupported).unwrap_err();
    assert_eq!(err, ErrorKind::NoInputFound);
    assert_eq!(err.message(), "No images found");
}

#[test]
fn directory_failure_message() {
    // This variant is raised by the caller when the output directory
    // cannot be created; the batch aborts before any file is touched.
    assert_eq!(
        ErrorKind::DirectoryCreationFailure.message(),
        "Failed to create output directory"
    );
}

#[test]
fn progress_fires_at_throttled_indices() {
    // Eleven files: reports come from indices 0, 5 and 10 (the last)
    // and from no other.
    let total = 11;
    let mut fired = Vec::new();
    for i in 0..total {
        let item = WorkItem {
            index: i,
            source: format!("f{}.png", i),
            file_name: format!("f{}.png", i),
        };
        if let Some(ev) = progress_event_for(&item, total) {
            fired.push((i, ev.percent, ev.status));
        }
    }
    assert_eq!(fired.len(), 3);
    assert_eq!(fired[0], (0, 0, "Processing: f0.png".to_string()));
    assert_eq!(fired[1], (5, 45, "Processing: f5.png".to_string()));
    assert_eq!(fired[2], (10, 90, "Processing: f10.png".to_string()));
}

#[test]
fn completion_is_always_the_final_pair() {
    let ev = completion_event(11, 123);
    assert_eq!(ev.percent, 100);
    assert_eq!(ev.status, "Done! Processed 11 files in 1.23s");
}
