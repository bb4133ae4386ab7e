//! Secret generation: the drawn arrangement is the right size,
//! duplicate-free, and drawn from the palette; failure is exact.

use mastermind::secret::Secret;
use mastermind::symbols::{Palette, Symbol};
use mastermind::Error;

fn sym(id: u32) -> Symbol {
    Symbol::new(id)
}

fn palette_of(n: u32) -> Palette {
    let mut p = Palette::new();
    for id in 0..n {
        p.insert(sym(id));
    }
    p
}

#[test]
fn generate_draws_a_duplicate_free_arrangement_from_the_palette() {
    let palette = palette_of(6);
    let secret = Secret::generate(&palette, 4).unwrap();
    assert_eq!(secret.len(), 4);
    let pins = &secret.pins;
    for i in 0..pins.len() {
        assert!(pins[i].id < 6);
        for j in 0..i {
            assert_ne!(pins[j], pins[i]);
        }
    }
}

#[test]
fn generate_with_full_length_uses_every_symbol() {
    let palette = palette_of(5);
    let secret = Secret::generate(&palette, 5).unwrap();
    assert_eq!(secret.len(), 5);
    let mut seen = vec![false; 5];
    for p in secret.pins.iter() {
        assert!(!seen[p.id as usize]);
        seen[p.id as usize] = true;
    }
    assert!(seen.iter().all(|s| *s));
}

#[test]
fn generate_of_length_zero_is_empty() {
    let palette = palette_of(3);
    let secret = Secret::generate(&palette, 0).unwrap();
    assert_eq!(secret.len(), 0);
}

#[test]
fn generate_fails_when_length_exceeds_palette() {
    let palette = palette_of(4);
    assert_eq!(
        Secret::generate(&palette, 5).unwrap_err(),
        Error::GenerationError { length: 5, palette_size: 4 }
    );
    let empty = Palette::new();
    assert_eq!(
        Secret::generate(&empty, 1).unwrap_err(),
        Error::GenerationError { length: 1, palette_size: 0 }
    );
}

#[test]
fn palette_insert_keeps_symbols_unique() {
    let mut p = Palette::new();
    p.insert(sym(1));
    p.insert(sym(2));
    p.insert(sym(1));
    assert_eq!(p.len(), 2);
    assert!(p.contains(sym(1)));
    assert!(p.contains(sym(2)));
    assert!(!p.contains(sym(3)));
}
