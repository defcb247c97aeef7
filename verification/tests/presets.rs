use game_of_life::presets::{preset_name, read_presets, PRESET_COUNT};
use game_of_life::ui::App;
use include_dir::{Dir, DirEntry, File};

fn leak(text: String) -> &'static str {
    Box::leak(text.into_boxed_str())
}

/// A packed directory with a file for each of the given numbers, the text
/// of file `n` being `n` full stops' worth of pattern: a row of `n % 7 + 1`
/// cells.
fn packed(numbers: impl Iterator<Item = u32>) -> &'static Dir<'static> {
    let entries: Vec<DirEntry<'static>> = numbers
        .map(|n| {
            let name = leak(format!("pattern{}.txt", n));
            let body = leak(".".repeat((n % 7 + 1) as usize));
            DirEntry::File(File::new(name, body.as_bytes()))
        })
        .collect();
    let entries: &'static [DirEntry<'static>] = Box::leak(entries.into_boxed_slice());
    Box::leak(Box::new(Dir::new("", entries)))
}

#[test]
fn there_are_513_presets() {
    assert_eq!(PRESET_COUNT, 513);
}

#[test]
fn preset_names_hold_the_number_in_decimal() {
    assert_eq!(preset_name(1), "pattern1.txt");
    assert_eq!(preset_name(9), "pattern9.txt");
    assert_eq!(preset_name(10), "pattern10.txt");
    assert_eq!(preset_name(42), "pattern42.txt");
    assert_eq!(preset_name(100), "pattern100.txt");
    assert_eq!(preset_name(513), "pattern513.txt");
    assert_eq!(preset_name(0), "pattern0.txt");
    assert_eq!(preset_name(u32::MAX), "pattern4294967295.txt");
}

#[test]
fn preset_names_are_those_of_the_formatter() {
    for n in (0..2000).chain([65_535, 1_000_000, 999_999_999, 1_000_000_000]) {
        assert_eq!(preset_name(n), format!("pattern{}.txt", n));
    }
}

#[test]
fn the_presets_are_read_in_the_order_of_their_numbers() {
    let dir = packed((1..=513).rev());
    let presets = read_presets(dir).unwrap();
    assert_eq!(presets.len(), 513);
    for (k, (name, body)) in presets.iter().enumerate() {
        let n = k as u32 + 1;
        assert_eq!(name, &format!("pattern{}.txt", n));
        assert_eq!(body, &".".repeat((n % 7 + 1) as usize));
    }
}

#[test]
fn files_beyond_the_presets_are_left_out() {
    let dir = packed(0..=600);
    let presets = read_presets(dir).unwrap();
    assert_eq!(presets.len(), 513);
    assert_eq!(presets[0].0, "pattern1.txt");
    assert_eq!(presets[512].0, "pattern513.txt");
}

#[test]
fn a_missing_preset_leaves_nothing() {
    assert!(read_presets(packed(1..=512)).is_none());
    assert!(read_presets(packed(2..=513)).is_none());
    assert!(read_presets(packed((1..=513).filter(|n| *n != 77))).is_none());
    assert!(read_presets(packed(0..0)).is_none());
}

#[test]
fn a_preset_that_is_no_text_leaves_nothing() {
    let mut entries: Vec<DirEntry<'static>> = (1..=513u32)
        .map(|n| DirEntry::File(File::new(leak(format!("pattern{}.txt", n)), b"O.O")))
        .collect();
    entries[4] = DirEntry::File(File::new("pattern5.txt", &[0xff, 0xfe]));
    let entries: &'static [DirEntry<'static>] = Box::leak(entries.into_boxed_slice());
    let dir: &'static Dir<'static> = Box::leak(Box::new(Dir::new("", entries)));
    assert!(read_presets(dir).is_none());
}

#[test]
fn a_directory_of_that_name_is_no_preset() {
    let mut entries: Vec<DirEntry<'static>> = (1..=513u32)
        .map(|n| DirEntry::File(File::new(leak(format!("pattern{}.txt", n)), b"O.O")))
        .collect();
    entries[0] = DirEntry::Dir(Dir::new("pattern1.txt", &[]));
    let entries: &'static [DirEntry<'static>] = Box::leak(entries.into_boxed_slice());
    let dir: &'static Dir<'static> = Box::leak(Box::new(Dir::new("", entries)));
    assert!(read_presets(dir).is_none());
}

#[test]
fn the_application_starts_with_the_presets_and_nothing_selected() {
    let app = App::new(packed(1..=513)).unwrap();
    assert_eq!(app.items.items.len(), 513);
    assert_eq!(app.items.items[0], ("pattern1.txt".to_string(), "..".to_string()));
    assert_eq!(app.items.items[512], ("pattern513.txt".to_string(), "...".to_string()));
    assert_eq!(app.items.state.selected, None);
    assert_eq!(app.items.state.offset, 0);
    assert!(!app.flag_cur);
    assert_eq!(app.layout.list_percent, 12);
    assert_eq!(app.layout.board_percent, 90);
    assert!(app.cur_gen.is_empty());
}

#[test]
fn there_is_no_application_without_all_presets() {
    assert!(App::new(packed(1..=100)).is_none());
}
