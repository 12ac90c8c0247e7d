use random_emoji::parser::parse_emoji_data;
use random_emoji::record::{EmojiData, EmojiError, EmojiType};
use random_emoji::select::{choose_emoji, emoji_at, random_emoji};

fn basic(raw: u32) -> EmojiData {
    EmojiData { character_raw: raw, emoji_type: EmojiType::Basic }
}

fn owned(lines: &[&str]) -> Vec<String> {
    lines.iter().map(|l| l.to_string()).collect()
}

#[test]
fn to_char_gives_the_character_of_a_scalar_value() {
    assert_eq!(basic(0x231A).to_char(), Some('⌚'));
    assert_eq!(basic(0x1F600).to_char(), Some('😀'));
    assert_eq!(basic(0x41).to_char(), Some('A'));
    assert_eq!(basic(0).to_char(), Some('\0'));
    assert_eq!(basic(0xD7FF).to_char(), Some('\u{D7FF}'));
    assert_eq!(basic(0xE000).to_char(), Some('\u{E000}'));
    assert_eq!(basic(0x10FFFF).to_char(), Some('\u{10FFFF}'));
}

#[test]
fn to_char_refuses_surrogates_and_values_out_of_range() {
    assert_eq!(basic(0xD800).to_char(), None);
    assert_eq!(basic(0xDABC).to_char(), None);
    assert_eq!(basic(0xDFFF).to_char(), None);
    assert_eq!(basic(0x110000).to_char(), None);
    assert_eq!(basic(u32::MAX).to_char(), None);
}

#[test]
fn to_char_does_not_depend_on_the_type() {
    let record = EmojiData { character_raw: 0x23, emoji_type: EmojiType::KeycapSequence };
    assert_eq!(record.to_char(), Some('#'));
    let record = EmojiData { character_raw: 0xD800, emoji_type: EmojiType::Unknown };
    assert_eq!(record.to_char(), None);
}

#[test]
fn emoji_at_shows_the_record_at_the_position() {
    let pool = vec![basic(0x231A), basic(0x231B), basic(0xD800), basic(0x1F600)];
    assert_eq!(emoji_at(&pool, Some(0)), Ok('\u{231A}'));
    assert_eq!(emoji_at(&pool, Some(1)), Ok('\u{231B}'));
    assert_eq!(emoji_at(&pool, Some(2)), Err(EmojiError::Conversion));
    assert_eq!(emoji_at(&pool, Some(3)), Ok('\u{1F600}'));
    assert_eq!(emoji_at(&pool, None), Err(EmojiError::EmptyPool));
    assert_eq!(emoji_at(&Vec::new(), None), Err(EmojiError::EmptyPool));
}

#[test]
fn choosing_from_an_empty_pool_is_an_error() {
    let mut rng = rand::thread_rng();
    assert_eq!(choose_emoji(&Vec::new(), &mut rng), Err(EmojiError::EmptyPool));
}

#[test]
fn choosing_from_one_record_gives_that_record() {
    let mut rng = rand::thread_rng();
    for _ in 0..100 {
        assert_eq!(choose_emoji(&vec![basic(0x231A)], &mut rng), Ok('⌚'));
        assert_eq!(choose_emoji(&vec![basic(0xDFFF)], &mut rng), Err(EmojiError::Conversion));
    }
}

#[test]
fn choice_is_always_a_record_of_the_pool() {
    let pool: Vec<EmojiData> = (0x1F600..0x1F650).map(basic).collect();
    let mut rng = rand::thread_rng();
    for _ in 0..2000 {
        let c = choose_emoji(&pool, &mut rng).unwrap();
        assert!(('\u{1F600}'..'\u{1F650}').contains(&c));
    }
}

#[test]
fn choice_reaches_every_record() {
    let pool = vec![basic(0x231A), basic(0x231B), basic(0x1F600), basic(0xD800)];
    let mut rng = rand::thread_rng();
    let mut seen = [false; 4];
    for _ in 0..2000 {
        match choose_emoji(&pool, &mut rng) {
            Ok('\u{231A}') => seen[0] = true,
            Ok('\u{231B}') => seen[1] = true,
            Ok('\u{1F600}') => seen[2] = true,
            Err(EmojiError::Conversion) => seen[3] = true,
            other => panic!("not of the pool: {:?}", other),
        }
    }
    assert_eq!(seen, [true; 4]);
}

#[test]
fn choice_is_uniform_over_the_records() {
    let pool: Vec<EmojiData> = (0x1F600..0x1F605).map(basic).collect();
    let trials: u32 = 50_000;
    let mut counts = [0u32; 5];
    let mut rng = rand::thread_rng();
    for _ in 0..trials {
        let c = choose_emoji(&pool, &mut rng).unwrap();
        counts[(c as u32 - 0x1F600) as usize] += 1;
    }
    let expected = f64::from(trials) / 5.0;
    for count in counts {
        let deviation = (f64::from(count) - expected).abs() / expected;
        assert!(deviation < 0.08, "counts {:?}", counts);
    }
}

#[test]
fn file_of_comments_has_nothing_to_select() {
    assert_eq!(random_emoji(&owned(&["# only", "# comments", ""])), Err(EmojiError::EmptyPool));
    assert_eq!(random_emoji(&Vec::new()), Err(EmojiError::EmptyPool));
    assert_eq!(
        random_emoji(&owned(&["0023 FE0F 20E3 ; Emoji_Keycap_Sequence ; keycap"])),
        Err(EmojiError::EmptyPool)
    );
    assert_eq!(random_emoji(&owned(&["231B..231A ; Basic_Emoji"])), Err(EmojiError::EmptyPool));
}

#[test]
fn two_lines_give_one_of_their_three_characters() {
    let lines = owned(&["231A..231B ; Basic_Emoji ; watch", "1F600 ; Basic_Emoji ; grin"]);
    let mut seen = [false; 3];
    for _ in 0..1000 {
        match random_emoji(&lines) {
            Ok('\u{231A}') => seen[0] = true,
            Ok('\u{231B}') => seen[1] = true,
            Ok('\u{1F600}') => seen[2] = true,
            other => panic!("not one of the three: {:?}", other),
        }
    }
    assert_eq!(seen, [true; 3]);
}

#[test]
fn malformed_file_is_a_format_error() {
    let lines = owned(&["231A ; Basic_Emoji", "23!A ; Basic_Emoji"]);
    for _ in 0..20 {
        assert_eq!(random_emoji(&lines), Err(EmojiError::Format));
    }
}

#[test]
fn surrogate_in_the_file_is_a_conversion_error_when_selected() {
    let lines = owned(&["D800..D803 ; Basic_Emoji"]);
    for _ in 0..20 {
        assert_eq!(random_emoji(&lines), Err(EmojiError::Conversion));
    }
    let lines = owned(&["D800 ; Basic_Emoji", "231A ; Basic_Emoji"]);
    for _ in 0..200 {
        let r = random_emoji(&lines);
        assert!(r == Ok('⌚') || r == Err(EmojiError::Conversion));
    }
}

#[test]
fn selection_from_a_parsed_pool() {
    let pool = parse_emoji_data(&owned(&["231A..231B ; Basic_Emoji", "# c"])).unwrap();
    assert_eq!(emoji_at(&pool, Some(0)), Ok('⌚'));
    assert_eq!(emoji_at(&pool, Some(1)), Ok('⌛'));
    assert_eq!(pool.len(), 2);
}
