use clef_rush::keyboard::KeyPos;
use clef_rush::sheet::{
    generate_accid_sharp, generate_rest, inject_styles, render_note_mei, render_note_styles,
    render_notes_mei, Id, IdGenerator, Note, Sheet, Style,
};

fn note(pos: KeyPos, oct: u8, id: u64, style: Style) -> Note {
    Note::new(pos.oct(oct), style, Id(id))
}

#[test]
fn id_text_is_sixteen_hex_digits() {
    assert_eq!(Id(255).to_string(), "id00000000000000ff");
    assert_eq!(Id(0).to_string(), "id0000000000000000");
    assert_eq!(Id(u64::MAX).to_string(), "idffffffffffffffff");
    assert_eq!(Id(0x0123456789abcdef).to_string(), "id0123456789abcdef");
}

#[test]
fn id_generator_counts_and_wraps() {
    let mut ids = IdGenerator::new(u64::MAX - 1);
    assert_eq!(ids.generate(), Id(u64::MAX - 1));
    assert_eq!(ids.generate(), Id(u64::MAX));
    assert_eq!(ids.generate(), Id(0));
    assert_eq!(ids.next, 1);
    let mut random = IdGenerator::random();
    let a = random.generate();
    let b = random.generate();
    assert_ne!(a, b);
}

#[test]
fn rest_and_accidental_markup() {
    let mut ids = IdGenerator::new(0);
    assert_eq!(generate_rest(&mut ids), "<mRest xml:id=\"id0000000000000000\" />");
    assert_eq!(generate_accid_sharp(&mut ids), "<accid xml:id=\"id0000000000000001\" accid=\"s\"/>");
    assert_eq!(ids.next, 2);
}

#[test]
fn sharp_note_markup() {
    let mut ids = IdGenerator::new(16);
    let n = note(KeyPos::CSharp, 4, 1, Style::Default);
    assert_eq!(
        render_note_mei(&n, &mut ids),
        "<note xml:id=\"id0000000000000001\" dur=\"1\" pname=\"c\" oct=\"4\"><accid xml:id=\"id0000000000000010\" accid=\"s\"/></note>"
    );
    assert_eq!(ids.next, 17);
}

#[test]
fn natural_note_markup_takes_no_identity() {
    let mut ids = IdGenerator::new(3);
    let n = note(KeyPos::G, 2, 9, Style::Correct);
    assert_eq!(
        render_note_mei(&n, &mut ids),
        "<note xml:id=\"id0000000000000009\" dur=\"1\" pname=\"g\" oct=\"2\"></note>"
    );
    assert_eq!(ids.next, 3);
}

#[test]
fn chord_markup() {
    let mut ids = IdGenerator::new(7);
    let notes = vec![note(KeyPos::C, 4, 2, Style::Default), note(KeyPos::E, 4, 3, Style::Default)];
    assert_eq!(
        render_notes_mei(&notes, &mut ids),
        "<chord xml:id=\"id0000000000000007\" dur=\"1\"><note xml:id=\"id0000000000000002\" dur=\"1\" pname=\"c\" oct=\"4\"></note><note xml:id=\"id0000000000000003\" dur=\"1\" pname=\"e\" oct=\"4\"></note></chord>"
    );
    assert_eq!(ids.next, 8);
}

#[test]
fn style_rules() {
    let correct = note(KeyPos::C, 4, 10, Style::Correct);
    let wrong = note(KeyPos::D, 4, 11, Style::Incorrect);
    let plain = note(KeyPos::E, 4, 12, Style::Default);
    assert_eq!(correct.render_style(), "#id000000000000000a path, use { fill: #2e9c48; stroke: #2e9c48; }");
    assert_eq!(wrong.render_style(), "#id000000000000000b path, use { fill: #d7263d; stroke: #d7263d; }");
    assert_eq!(plain.render_style(), "");
    assert_eq!(
        render_note_styles(&vec![correct, plain, wrong]),
        format!("{}{}", correct.render_style(), wrong.render_style())
    );
    assert_eq!(Style::default(), Style::Default);
}

#[test]
fn style_splice_before_marker() {
    let svg = "<svg><style>path{}</style><g/></svg>";
    assert_eq!(inject_styles(svg, "#a{}"), "<svg><style>path{}#a{}</style><g/></svg>");
    assert_eq!(inject_styles("<svg/>", "#a{}"), "<svg/>");
    assert_eq!(inject_styles("</style></style>", "x"), "x</style></style>");
    assert_eq!(inject_styles(svg, ""), svg);
}

#[test]
fn sheet_keeps_one_note_per_key() {
    let notes = [note(KeyPos::C, 4, 1, Style::Default), note(KeyPos::C, 4, 2, Style::Correct)];
    let mut sheet = Sheet::new(false, &notes, KeyPos::C.oct(4), IdGenerator::new(100));
    assert_eq!(sheet.notes().len(), 1);
    assert_eq!(sheet.notes()[0].id, Id(2));

    sheet.add_note(KeyPos::D.oct(4), Style::Incorrect);
    assert_eq!(sheet.notes().len(), 2);
    assert_eq!(sheet.notes()[1].id, Id(100));
    assert_eq!(sheet.notes()[1].style, Style::Incorrect);

    sheet.set_note_style(KeyPos::D.oct(4), Style::Correct);
    assert_eq!(sheet.notes()[1].style, Style::Correct);
    sheet.set_note_style(KeyPos::E.oct(4), Style::Correct);
    assert_eq!(sheet.notes().len(), 2);

    sheet.add_note(KeyPos::C.oct(4), Style::Incorrect);
    assert_eq!(sheet.notes().len(), 2);
    assert_eq!(sheet.notes()[0].id, Id(101));

    sheet.remove_note(KeyPos::C.oct(4));
    assert_eq!(sheet.notes().len(), 1);
    sheet.remove_note(KeyPos::C.oct(4));
    assert_eq!(sheet.notes().len(), 1);
}

#[test]
fn two_staves_with_notes() {
    let notes = [note(KeyPos::C, 5, 1, Style::Default), note(KeyPos::C, 3, 2, Style::Default)];
    let mut sheet = Sheet::new(false, &notes, KeyPos::C.oct(4), IdGenerator::new(0));
    assert_eq!(sheet.treble_iter().len(), 1);
    assert_eq!(sheet.bass_iter().len(), 1);
    let (mei, styles) = sheet.render_hint();
    assert!(!mei.contains("mRest"));
    assert!(!mei.contains("{{"));
    assert!(mei.contains("<layer n=\"1\"><note xml:id=\"id0000000000000001\" dur=\"1\" pname=\"c\" oct=\"5\"></note></layer>"));
    assert!(mei.contains("<layer n=\"1\"><note xml:id=\"id0000000000000002\" dur=\"1\" pname=\"c\" oct=\"3\"></note></layer>"));
    assert_eq!(styles, "");
}

#[test]
fn empty_staff_is_a_rest() {
    let notes = [note(KeyPos::C, 4, 1, Style::Correct)];
    let mut sheet = Sheet::new(true, &notes, KeyPos::C.oct(4), IdGenerator::new(5));
    let (mei, styles) = sheet.render_hint();
    assert!(mei.contains("<layer n=\"1\"><mRest xml:id=\"id0000000000000005\" /></layer>"));
    assert!(mei.contains("pname=\"c\" oct=\"4\""));
    assert!(mei.contains("label="));
    assert_eq!(styles, "#id0000000000000001 path, use { fill: #2e9c48; stroke: #2e9c48; }");

    let mut blank = Sheet::new(false, &[], KeyPos::C.oct(4), IdGenerator::new(0));
    let (mei, _) = blank.render_hint();
    assert_eq!(mei.matches("<mRest").count(), 2);
}

#[test]
fn chord_on_one_staff() {
    let notes = [note(KeyPos::E, 4, 1, Style::Default), note(KeyPos::GSharp, 4, 2, Style::Default)];
    let mut sheet = Sheet::new(false, &notes, KeyPos::C.oct(4), IdGenerator::new(0));
    let (mei, _) = sheet.render_hint();
    assert!(mei.contains("<chord xml:id=\"id0000000000000000\" dur=\"1\"><note xml:id=\"id0000000000000001\""));
    assert!(mei.contains("<accid xml:id=\"id0000000000000001\" accid=\"s\"/>"));
    assert!(mei.contains("<mRest xml:id=\"id0000000000000002\" />"));
}
