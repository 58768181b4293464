use genetic_grid::types::{Number, Pair};

fn number(value: u8) -> Number {
    Number::new(value).unwrap()
}

fn pair(x: u8, y: u8) -> Pair {
    Pair::new(number(x), number(y))
}

fn code(p: &Pair) -> u8 {
    (p.x().value() << 3) | p.y().value()
}

#[test]
fn number_accepts_the_eight_coordinates() {
    for value in 0..8u8 {
        assert_eq!(Number::new(value).unwrap().value(), value);
    }
}

#[test]
fn number_rejects_what_lies_outside() {
    for value in 8..=255u8 {
        assert!(Number::new(value).is_none());
    }
}

#[test]
fn unpack_gives_back_what_was_packed() {
    for x in 0..8u8 {
        for y in 0..8u8 {
            let p = pair(x, y);
            assert_eq!(p.x().value(), x);
            assert_eq!(p.y().value(), y);
            assert_eq!(p.x(), number(x));
            assert_eq!(p.y(), number(y));
        }
    }
}

#[test]
fn pack_gives_back_what_was_unpacked() {
    for x in 0..8u8 {
        for y in 0..8u8 {
            let p = pair(x, y);
            assert_eq!(Pair::new(p.x(), p.y()), p);
        }
    }
}

#[test]
fn x_sits_above_y_in_the_code() {
    let p = pair(3, 2);
    assert_eq!(code(&p), 0b011_010);
    assert_ne!(pair(3, 2), pair(2, 3));
}

#[test]
fn bits_are_most_significant_first() {
    let expected = ["000", "001", "010", "011", "100", "101", "110", "111"];
    for value in 0..8u8 {
        assert_eq!(number(value).bits().to_string(), expected[value as usize]);
    }
}

#[test]
fn bits_text_has_three_characters() {
    for value in 0..8u8 {
        let text = number(value).bits().to_string();
        assert_eq!(text.len(), 3);
        assert!(text.chars().all(|c| c == '0' || c == '1'));
    }
}

#[test]
fn pair_text_shows_both_coordinates() {
    assert_eq!(pair(3, 2).to_string(), "(3,2)");
    assert_eq!(pair(0, 0).to_string(), "(0,0)");
    assert_eq!(pair(7, 7).to_string(), "(7,7)");
    for x in 0..8u8 {
        for y in 0..8u8 {
            assert_eq!(pair(x, y).to_string(), format!("({},{})", x, y));
        }
    }
}

#[test]
fn random_number_lies_on_the_grid() {
    for _ in 0..500 {
        assert!(Number::random().value() < 8);
    }
}

#[test]
fn random_number_reaches_every_coordinate() {
    let mut seen = [false; 8];
    for _ in 0..2000 {
        seen[Number::random().value() as usize] = true;
    }
    assert!(seen.iter().all(|s| *s));
}

#[test]
fn random_pair_lies_on_the_grid() {
    for _ in 0..500 {
        let p = Pair::random();
        assert!(p.x().value() < 8);
        assert!(p.y().value() < 8);
    }
}

#[test]
fn crossover_yields_ten_children() {
    for a in 0..64u8 {
        let b = 63 - a;
        let children = pair(a >> 3, a & 7).crossover(&pair(b >> 3, b & 7));
        assert_eq!(children.len(), 10);
    }
}

#[test]
fn crossover_cuts_at_every_point() {
    let children = pair(7, 0).crossover(&pair(0, 7));
    let expected = [
        0b111_001, 0b000_110, 0b111_011, 0b000_100, 0b111_111, 0b000_000, 0b110_111, 0b001_000,
        0b100_111, 0b011_000,
    ];
    let codes: Vec<u8> = children.iter().map(code).collect();
    assert_eq!(codes, expected);
}

#[test]
fn crossover_takes_each_bit_from_one_parent() {
    let a = pair(5, 2);
    let b = pair(2, 6);
    let children = a.crossover(&b);
    for point in 1..=5usize {
        let low: u8 = (1 << point) - 1;
        let first = code(&children[2 * (point - 1)]);
        let second = code(&children[2 * (point - 1) + 1]);
        assert_eq!(first & low, code(&b) & low);
        assert_eq!(first & !low, code(&a) & !low);
        assert_eq!(second & low, code(&a) & low);
        assert_eq!(second & !low, code(&b) & !low);
    }
}

#[test]
fn crossover_at_point_three_swaps_coordinates() {
    for a in 0..64u8 {
        for b in 0..64u8 {
            let pa = pair(a >> 3, a & 7);
            let pb = pair(b >> 3, b & 7);
            let children = pa.crossover(&pb);
            assert_eq!(children[4].x(), pa.x());
            assert_eq!(children[4].y(), pb.y());
            assert_eq!(children[5].x(), pb.x());
            assert_eq!(children[5].y(), pa.y());
        }
    }
}

#[test]
fn crossover_of_a_point_with_itself_repeats_it() {
    let p = pair(4, 1);
    for child in p.crossover(&p) {
        assert_eq!(child, p);
    }
}

#[test]
fn flip_counts_from_the_most_significant_bit() {
    let expected = [(4, 0), (2, 0), (1, 0), (0, 4), (0, 2), (0, 1)];
    for bit in 0..6u8 {
        let mut p = pair(0, 0);
        p.flip(bit);
        let (x, y) = expected[bit as usize];
        assert_eq!(p, pair(x, y));
    }
}

#[test]
fn flip_twice_restores_the_point() {
    for c in 0..64u8 {
        for bit in 0..6u8 {
            let before = pair(c >> 3, c & 7);
            let mut p = before;
            p.flip(bit);
            assert_eq!((code(&p) ^ code(&before)).count_ones(), 1);
            p.flip(bit);
            assert_eq!(p, before);
        }
    }
}

#[test]
fn mutate_changes_exactly_one_bit() {
    for c in 0..64u8 {
        for _ in 0..20 {
            let before = pair(c >> 3, c & 7);
            let mut p = before;
            p.mutate();
            assert!(code(&p) < 64);
            assert_eq!((code(&p) ^ code(&before)).count_ones(), 1);
        }
    }
}

#[test]
fn mutate_reaches_every_bit() {
    let mut seen = [false; 6];
    for _ in 0..2000 {
        let mut p = pair(0, 0);
        p.mutate();
        seen[code(&p).trailing_zeros() as usize] = true;
    }
    assert!(seen.iter().all(|s| *s));
}
