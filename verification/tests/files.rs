use slider_core::files::hovered_files_text;
use slider_core::files::DroppedFile;
use slider_core::files::HoveredFile;

fn hovered(path: Option<&str>, mime: &str) -> HoveredFile {
    HoveredFile { path: path.map(str::to_owned), mime: mime.to_owned() }
}

fn dropped(path: Option<&str>, name: &str, mime: &str, bytes: Option<usize>) -> DroppedFile {
    DroppedFile { path: path.map(str::to_owned), name: name.to_owned(), mime: mime.to_owned(), bytes }
}

#[test]
fn hovering_files_are_listed_under_a_heading() {
    assert_eq!(hovered_files_text(&vec![]), "Dropping files:\n");
    let files = vec![
        hovered(Some("/tmp/a.png"), "image/png"),
        hovered(None, "text/plain"),
        hovered(None, ""),
        hovered(Some(""), ""),
    ];
    assert_eq!(
        hovered_files_text(&files),
        "Dropping files:\n\n/tmp/a.png\ntext/plain\n???\n"
    );
}

#[test]
fn a_dropped_file_goes_by_its_path_or_its_name() {
    assert_eq!(dropped(Some("/tmp/a.png"), "a.png", "", None).info(), "/tmp/a.png");
    assert_eq!(dropped(None, "a.png", "", None).info(), "a.png");
    assert_eq!(dropped(None, "", "", None).info(), "???");
    assert_eq!(dropped(Some(""), "a.png", "", None).info(), "");
}

#[test]
fn what_else_is_known_of_a_dropped_file_follows_in_brackets() {
    assert_eq!(
        dropped(None, "a.png", "image/png", None).info(),
        "a.png (type: image/png)"
    );
    assert_eq!(dropped(None, "a.png", "", Some(1234)).info(), "a.png (1234 bytes)");
    assert_eq!(
        dropped(Some("/tmp/a.png"), "a.png", "image/png", Some(1234)).info(),
        "/tmp/a.png (type: image/png, 1234 bytes)"
    );
    assert_eq!(dropped(None, "", "", Some(0)).info(), "??? (0 bytes)");
    assert_eq!(
        dropped(None, "big", "", Some(usize::MAX)).info(),
        format!("big ({} bytes)", usize::MAX)
    );
    for count in [1usize, 9, 10, 99, 100, 1_000_000, 4_294_967_295] {
        assert_eq!(
            dropped(None, "f", "t", Some(count)).info(),
            format!("f (type: t, {count} bytes)")
        );
    }
}
