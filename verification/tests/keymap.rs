use schengen_client::keymap::{count_ones, KeyCombination, KeymapError, KeymapProcessor};

const SHIFT: u32 = 0x01;
const LOCK: u32 = 0x02;
const CONTROL: u32 = 0x04;
const MOD4: u32 = 0x40;
const MOD5: u32 = 0x80;

const MAP: &str = r#"
    xkb_keymap {
        xkb_keycodes {
            <a>         = 38;
            <b>         = 56;
            <leftshift> = 50;
        };
        xkb_symbols {
            key <a>         { [ a, A ] };
            key <b>         { [ b, a ] };
            key <leftshift> { [ Shift_L ] };
        };
    };
"#;

fn combination(keycode: u32, modifiers: u32) -> KeyCombination {
    KeyCombination { keycode, modifiers }
}

#[test]
fn keymap_is_reversed() {
    let processor = KeymapProcessor::new(MAP.as_bytes()).unwrap();
    assert_eq!(processor.lookup_keysym(0x61), Some(combination(38, 0)));
    assert_eq!(processor.lookup_keysym(0x41), Some(combination(38, SHIFT)));
    assert_eq!(processor.lookup_keysym(0x62), Some(combination(56, 0)));
    assert_eq!(processor.lookup_keysym(0x42), Some(combination(56, LOCK)));
    assert_eq!(processor.lookup_keysym(0xffe1), Some(combination(50, 0)));
    assert_eq!(processor.lookup_keysym(0x63), None);
    assert_eq!(processor.lookup_keysym(0), None);
}

#[test]
fn lookup_agrees_with_the_lookup_table() {
    let table = kbvm::xkb::Context::default()
        .keymap_from_bytes(kbvm::xkb::diagnostic::WriteToLog, None, MAP.as_bytes())
        .unwrap()
        .to_builder()
        .build_lookup_table();
    let processor = KeymapProcessor::build_reverse_map(&table);
    let first = |c: KeyCombination| {
        table
            .lookup(
                kbvm::GroupIndex(0),
                kbvm::ModifierMask(c.modifiers),
                kbvm::Keycode::from_x11(c.keycode),
            )
            .into_iter()
            .next()
            .map(|props| props.keysym().0)
    };
    let mut found = 0;
    for keysym in 0..0x1_0000u32 {
        if let Some(c) = processor.lookup_keysym(keysym) {
            assert_eq!(first(c), Some(keysym));
            found += 1;
        }
    }
    assert_eq!(found, 5);
    for keycode in 8..256 {
        for modifiers in 0..256 {
            if let Some(keysym) = first(combination(keycode, modifiers)) {
                let simplest = processor.lookup_keysym(keysym).unwrap();
                assert!(simplest.modifiers.count_ones() <= modifiers.count_ones());
            }
        }
    }
}

#[test]
fn text_that_is_no_keymap_is_refused() {
    assert!(matches!(KeymapProcessor::new(b""), Err(KeymapError::Parse)));
    assert!(matches!(KeymapProcessor::new(b"no keymap {"), Err(KeymapError::Parse)));
}

#[test]
fn fewest_modifiers_win() {
    let mut processor = KeymapProcessor::empty();
    assert_eq!(processor.lookup_keysym(0x61), None);
    processor.record(Some(0x61), combination(10, SHIFT | CONTROL));
    assert_eq!(processor.lookup_keysym(0x61), Some(combination(10, SHIFT | CONTROL)));
    processor.record(Some(0x61), combination(11, MOD4));
    processor.record(Some(0x61), combination(12, SHIFT));
    assert_eq!(processor.lookup_keysym(0x61), Some(combination(11, MOD4)));
    processor.record(Some(0x61), combination(255, 0));
    assert_eq!(processor.lookup_keysym(0x61), Some(combination(255, 0)));
    assert_eq!(processor.lookup_keysym(0x62), None);
}

#[test]
fn no_symbol_is_not_recorded() {
    let mut processor = KeymapProcessor::empty();
    processor.record(Some(0), combination(10, 0));
    processor.record(None, combination(11, 0));
    assert_eq!(processor.lookup_keysym(0), None);
}

#[test]
fn set_bits_are_counted() {
    for n in [0, 1, 2, 3, 0x0d, 0x40, 0x8000_0000, 0xffff_ffff, 0x1234_5678] {
        assert_eq!(count_ones(n), n.count_ones());
    }
}

#[test]
fn modifiers_are_the_low_eight_bits() {
    let masks = [
        kbvm::ModifierMask::SHIFT,
        kbvm::ModifierMask::LOCK,
        kbvm::ModifierMask::CONTROL,
        kbvm::ModifierMask::MOD1,
        kbvm::ModifierMask::MOD2,
        kbvm::ModifierMask::MOD3,
        kbvm::ModifierMask::MOD4,
        kbvm::ModifierMask::MOD5,
    ];
    for (bit, mask) in masks.iter().enumerate() {
        assert_eq!(mask.0, 1 << bit);
    }
    assert_eq!(kbvm::ModifierMask::NONE.0, 0);
}

const THIRD_LEVEL: &str = r#"
    xkb_keymap {
        xkb_keycodes {
            <e> = 26;
        };
        xkb_types {
            type "THIRD" {
                modifiers = Mod3+Mod5;
                map[Mod5] = 2;
                map[Mod3+Mod5] = 3;
                level_name[1] = "base";
                level_name[2] = "third";
                level_name[3] = "fifth";
            };
        };
        xkb_symbols {
            key <e> { type = "THIRD", [ e, EuroSign, currency ] };
        };
    };
"#;

#[test]
fn every_modifier_combination_is_tried() {
    let processor = KeymapProcessor::new(THIRD_LEVEL.as_bytes()).unwrap();
    assert_eq!(processor.lookup_keysym(0x65), Some(combination(26, 0)));
    assert_eq!(processor.lookup_keysym(0x20ac), Some(combination(26, MOD5)));
    assert_eq!(processor.lookup_keysym(0xa4), Some(combination(26, MOD5 | 0x20)));
}
