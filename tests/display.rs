use enkai::display::{DisplayLine, LineRole};
use enkai::{parse_conflicts, ConflictedFile, Resolution};

fn parsed(text: &str) -> ConflictedFile {
    parse_conflicts("v.rs".to_string(), text.to_string()).unwrap()
}

fn shown(lines: Vec<DisplayLine>) -> Vec<(LineRole, String)> {
    lines.into_iter().map(|d| (d.role, d.text)).collect()
}

fn line(role: LineRole, text: &str) -> (LineRole, String) {
    (role, text.to_string())
}

const TEXT: &str = "a\n<<<<<<< H\nX\n=======\nY1\nY2\n>>>>>>> B\nb\n<<<<<<< H\nP\n=======\nQ\n>>>>>>> B\n";

#[test]
fn unresolved_conflicts_show_markers_and_both_sides() {
    let file = parsed(TEXT);
    assert_eq!(
        shown(file.display_lines(1)),
        vec![
            line(LineRole::Plain, "a"),
            line(LineRole::StartMarker { active: false }, ""),
            line(LineRole::CurrentSide { resolved: false }, "X"),
            line(LineRole::Separator, ""),
            line(LineRole::IncomingSide { resolved: false }, "Y1"),
            line(LineRole::IncomingSide { resolved: false }, "Y2"),
            line(LineRole::EndMarker { active: false }, ""),
            line(LineRole::Plain, "b"),
            line(LineRole::StartMarker { active: true }, ""),
            line(LineRole::CurrentSide { resolved: false }, "P"),
            line(LineRole::Separator, ""),
            line(LineRole::IncomingSide { resolved: false }, "Q"),
            line(LineRole::EndMarker { active: true }, ""),
        ]
    );
}

#[test]
fn resolved_conflicts_show_only_chosen_sides() {
    let mut file = parsed(TEXT);
    file.set_resolution(0, Resolution::Incoming);
    file.set_resolution(1, Resolution::Both);
    assert_eq!(
        shown(file.display_lines(0)),
        vec![
            line(LineRole::Plain, "a"),
            line(LineRole::IncomingSide { resolved: true }, "Y1"),
            line(LineRole::IncomingSide { resolved: true }, "Y2"),
            line(LineRole::Plain, "b"),
            line(LineRole::CurrentSide { resolved: true }, "P"),
            line(LineRole::IncomingSide { resolved: true }, "Q"),
        ]
    );
    file.set_resolution(1, Resolution::Current);
    let last = shown(file.display_lines(0)).pop().unwrap();
    assert_eq!(last, line(LineRole::CurrentSide { resolved: true }, "P"));
}
