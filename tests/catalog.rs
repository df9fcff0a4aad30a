use boardcat::board::Board;
use boardcat::catalog::{get_boards, load_board, scan, Entry, ProblemKind};
use boardcat::meta::{BoardMeta, Field, LoadError};
use boardcat::names::{is_image_name_for, is_metadata_file_name, same_text};
use boardcat::picture::BoardImage;
use boardcat::standard::BoardStandards;

fn file(name: &str, data: &[u8]) -> Entry {
    Entry::File { name: name.to_string(), data: Some(data.to_vec()) }
}

fn dir(name: &str, entries: Vec<Entry>) -> Entry {
    Entry::Dir { name: name.to_string(), entries }
}

fn png(width: u32, height: u32) -> Vec<u8> {
    let img = image::RgbaImage::from_pixel(width, height, image::Rgba([10, 20, 30, 255]));
    let mut out = std::io::Cursor::new(Vec::new());
    img.write_to(&mut out, image::ImageOutputFormat::Png).unwrap();
    out.into_inner()
}

fn meta(name: &str) -> BoardMeta {
    BoardMeta {
        name: name.to_string(),
        manufacturer: "Adafruit".to_string(),
        standard: None,
        cpu: None,
        ram: None,
        flash: None,
        related_crates: None,
    }
}

const FEATHER: &str = "name = \"Feather M4\"\nmanufacturer = \"Adafruit\"\nstandard = \"Feather\"\n";

#[test]
fn standard_names_round_trip() {
    let all = [
        BoardStandards::Feather,
        BoardStandards::Arduino,
        BoardStandards::RaspberryPi,
        BoardStandards::ThingPlus,
        BoardStandards::MicroMod,
    ];
    for s in all {
        assert_eq!(BoardStandards::from_name(&s.name()), Some(s));
    }
    assert_eq!(BoardStandards::RaspberryPi.name(), "RaspberryPi");
    assert_eq!(BoardStandards::from_name("feather"), None);
    assert_eq!(BoardStandards::from_name(""), None);
}

#[test]
fn same_text_compares_characters() {
    assert!(same_text("examples", "examples"));
    assert!(!same_text("examples", "example"));
    assert!(!same_text("Examples", "examples"));
    assert!(same_text("", ""));
}

#[test]
fn metadata_file_names() {
    assert!(is_metadata_file_name("feather_m4.toml"));
    assert!(is_metadata_file_name("a.b.toml"));
    assert!(!is_metadata_file_name("feather_m4.png"));
    assert!(!is_metadata_file_name("toml"));
    assert!(!is_metadata_file_name(".toml"));
    assert!(!is_metadata_file_name("README"));
    assert!(!is_metadata_file_name("x.tomls"));
}

#[test]
fn picture_names() {
    assert!(is_image_name_for("feather_m4.toml", "feather_m4.png"));
    assert!(is_image_name_for("a.b.toml", "a.b.png"));
    assert!(!is_image_name_for("feather_m4.toml", "feather_m4.jpg"));
    assert!(!is_image_name_for("feather_m4.toml", "feather_m3.png"));
    assert!(!is_image_name_for("feather_m4.toml", "feather_m4.toml"));
}

#[test]
fn full_metadata_parses() {
    let text = "name = \"Uno\"\nmanufacturer = \"Arduino\"\nstandard = \"Arduino\"\ncpu = \"ATmega328P\"\nram = 2\nflash = 32\nrelated_crates = [\"arduino-hal\", \"avr-device\"]\nextra = true\n";
    let m = BoardMeta::from_text(text).unwrap();
    assert_eq!(m.name, "Uno");
    assert_eq!(m.manufacturer, "Arduino");
    assert_eq!(m.standard, Some(BoardStandards::Arduino));
    assert_eq!(m.cpu, Some("ATmega328P".to_string()));
    assert_eq!(m.ram, Some(2));
    assert_eq!(m.flash, Some(32));
    assert_eq!(
        m.related_crates,
        Some(vec!["arduino-hal".to_string(), "avr-device".to_string()])
    );
}

#[test]
fn optional_fields_stay_unknown() {
    let m = BoardMeta::from_text("name = \"X\"\nmanufacturer = \"Y\"\n").unwrap();
    assert_eq!(m.standard, None);
    assert_eq!(m.cpu, None);
    assert_eq!(m.ram, None);
    assert_eq!(m.flash, None);
    assert_eq!(m.related_crates, None);
}

#[test]
fn metadata_errors() {
    let e = |t: &str| BoardMeta::from_text(t).unwrap_err();
    assert_eq!(e("manufacturer = \"Y\"\n"), LoadError::Missing(Field::Name));
    assert_eq!(e("name = \"X\"\n"), LoadError::Missing(Field::Manufacturer));
    assert_eq!(e("name = 3\nmanufacturer = \"Y\"\n"), LoadError::Invalid(Field::Name));
    assert_eq!(
        e("name = \"X\"\nmanufacturer = \"Y\"\nstandard = \"Nano\"\n"),
        LoadError::Invalid(Field::Standard)
    );
    assert_eq!(e("name = \"X\"\nmanufacturer = \"Y\"\ncpu = 1\n"), LoadError::Invalid(Field::Cpu));
    assert_eq!(e("name = \"X\"\nmanufacturer = \"Y\"\nram = \"lots\"\n"), LoadError::Invalid(Field::Ram));
    assert_eq!(e("name = \"X\"\nmanufacturer = \"Y\"\nflash = 1.5\n"), LoadError::Invalid(Field::Flash));
    assert_eq!(
        e("name = \"X\"\nmanufacturer = \"Y\"\nrelated_crates = [\"a\", 2]\n"),
        LoadError::Invalid(Field::RelatedCrates)
    );
    assert_eq!(
        e("name = \"X\"\nmanufacturer = \"Y\"\nrelated_crates = \"a\"\n"),
        LoadError::Invalid(Field::RelatedCrates)
    );
    assert_eq!(e("name = \"X\nmanufacturer"), LoadError::Syntax);
}

#[test]
fn metadata_from_table() {
    let t: toml::Table = toml::from_str("name = \"T\"\nmanufacturer = \"M\"\nram = 64\n").unwrap();
    let m = BoardMeta::from_table(&t).unwrap();
    assert_eq!(m.name, "T");
    assert_eq!(m.ram, Some(64));
    let empty = toml::Table::new();
    assert_eq!(BoardMeta::from_table(&empty).unwrap_err(), LoadError::Missing(Field::Name));
}

#[test]
fn boards_equal_by_name_only() {
    let a = Board::new(meta("Feather M4"), vec![], None);
    let mut other = meta("Feather M4");
    other.manufacturer = "Someone".to_string();
    other.ram = Some(192);
    let b = Board::new(other, vec!["blink.ino".to_string()], None);
    assert!(a == b);
    let c = Board::new(meta("Feather M0"), vec![], None);
    assert!(a != c);
    assert_eq!(a.get_name(), "Feather M4");
}

#[test]
fn picture_decodes() {
    let img = BoardImage::decode(&png(3, 2)).unwrap();
    assert_eq!(img.width, 3);
    assert_eq!(img.height, 2);
    assert_eq!(img.rgba.len(), 24);
    assert_eq!(&img.rgba[0..4], &[10, 20, 30, 255]);
    assert!(BoardImage::decode(b"not a picture").is_none());
}

#[test]
fn end_to_end_feather() {
    let root = vec![dir(
        "Adafruit",
        vec![dir(
            "Feather M4",
            vec![
                file("feather_m4.toml", FEATHER.as_bytes()),
                file("feather_m4.png", &png(2, 2)),
                dir("examples", vec![file("blink.ino", b"void loop() {}")]),
            ],
        )],
    )];
    let boards = get_boards(&root);
    assert_eq!(boards.len(), 1);
    let b = &boards[0];
    assert_eq!(b.get_name(), "Feather M4");
    assert_eq!(b.meta.manufacturer, "Adafruit");
    assert_eq!(b.meta.standard, Some(BoardStandards::Feather));
    assert!(b.pic.is_some());
    assert_eq!(b.pic.as_ref().unwrap().width, 2);
    assert_eq!(b.examples, vec!["blink.ino".to_string()]);
}

#[test]
fn missing_picture_is_no_error() {
    let root = vec![dir("M", vec![dir("B", vec![file("b.toml", FEATHER.as_bytes())])])];
    let c = scan(&root);
    assert_eq!(c.boards.len(), 1);
    assert!(c.boards[0].pic.is_none());
    assert!(c.problems.is_empty());
}

#[test]
fn missing_examples_is_no_error() {
    let root = vec![dir("M", vec![dir("B", vec![file("b.toml", FEATHER.as_bytes()), file("b.png", &png(1, 1))])])];
    let c = scan(&root);
    assert_eq!(c.boards.len(), 1);
    assert!(c.boards[0].examples.is_empty());
    assert!(c.boards[0].pic.is_some());
    assert!(c.problems.is_empty());
}

#[test]
fn malformed_file_is_skipped() {
    let root = vec![
        dir("A", vec![dir("One", vec![file("one.toml", b"name = \"One\"\nmanufacturer = \"A\"\n")])]),
        dir("B", vec![dir("Bad", vec![file("bad.toml", b"this is = = not toml")])]),
        dir("C", vec![dir("Two", vec![file("two.toml", b"name = \"Two\"\nmanufacturer = \"C\"\n")])]),
    ];
    let c = scan(&root);
    let names: Vec<&str> = c.boards.iter().map(|b| b.get_name()).collect();
    assert_eq!(names, vec!["One", "Two"]);
    assert_eq!(c.problems.len(), 1);
    assert_eq!(c.problems[0].path, vec!["B".to_string(), "Bad".to_string(), "bad.toml".to_string()]);
    assert_eq!(c.problems[0].kind, ProblemKind::Skipped(LoadError::Syntax));
}

#[test]
fn unreadable_files_are_skipped() {
    let root = vec![
        Entry::File { name: "gone.toml".to_string(), data: None },
        file("latin.toml", &[0xff, 0xfe, 0x41]),
        file("ok.toml", b"name = \"Ok\"\nmanufacturer = \"Z\"\n"),
    ];
    let c = scan(&root);
    assert_eq!(c.boards.len(), 1);
    assert_eq!(c.problems.len(), 2);
    assert_eq!(c.problems[0].kind, ProblemKind::Skipped(LoadError::Unreadable));
    assert_eq!(c.problems[1].kind, ProblemKind::Skipped(LoadError::Unreadable));
}

#[test]
fn bad_picture_keeps_board() {
    let root = vec![file("b.toml", FEATHER.as_bytes()), file("b.png", b"garbage")];
    let c = scan(&root);
    assert_eq!(c.boards.len(), 1);
    assert!(c.boards[0].pic.is_none());
    assert_eq!(c.problems.len(), 1);
    assert_eq!(c.problems[0].kind, ProblemKind::BadPicture);
    assert_eq!(c.problems[0].path, vec!["b.toml".to_string()]);
}

#[test]
fn examples_directories_are_not_scanned() {
    let root = vec![dir(
        "M",
        vec![dir(
            "B",
            vec![
                file("b.toml", FEATHER.as_bytes()),
                dir(
                    "examples",
                    vec![
                        file("inner.toml", b"name = \"Inner\"\nmanufacturer = \"X\"\n"),
                        dir("deep", vec![file("deep.toml", b"name = \"Deep\"\nmanufacturer = \"X\"\n")]),
                    ],
                ),
            ],
        )],
    )];
    let boards = get_boards(&root);
    assert_eq!(boards.len(), 1);
    assert_eq!(boards[0].get_name(), "Feather M4");
    assert_eq!(boards[0].examples, vec!["inner.toml".to_string(), "deep".to_string()]);
}

#[test]
fn count_matches_loadable_files() {
    let root = vec![
        file("README", b"hello"),
        file("notes.txt", b"x"),
        dir("empty", vec![]),
        dir("A", vec![file("a.toml", b"name = \"A\"\nmanufacturer = \"1\"\n"), file("b.toml", b"name = \"B\"\nmanufacturer = \"1\"\n")]),
        dir("x.toml", vec![file("c.toml", b"name = \"C\"\nmanufacturer = \"1\"\n")]),
        file("bad.toml", b"manufacturer = \"1\"\n"),
    ];
    let c = scan(&root);
    assert_eq!(c.boards.len(), 3);
    assert_eq!(c.problems.len(), 1);
    assert_eq!(c.problems[0].kind, ProblemKind::Skipped(LoadError::Missing(Field::Name)));
    assert!(get_boards(&vec![]).is_empty());
}

#[test]
fn load_board_reports_picture_trouble() {
    let siblings = vec![file("b.toml", FEATHER.as_bytes()), Entry::File { name: "b.png".to_string(), data: None }];
    let (r, trouble) = load_board(&siblings, "b.toml", &Some(FEATHER.as_bytes().to_vec()));
    assert!(r.unwrap().pic.is_none());
    assert!(trouble);
}
