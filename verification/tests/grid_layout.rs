use poly_router::grid::{
    edo_grid_fields, edo_grid_input, edo_grid_steps, grid_header, horiz_offset_of, step_index, GridStep,
};

fn strings(v: &[&str]) -> Vec<String> {
    v.iter().map(|s| s.to_string()).collect()
}

const OPEN: [i32; 8] = [13, 0, -17, -28, -41, -52, -65, -82];

#[test]
fn default_grid_steps() {
    let out = edo_grid_steps(&OPEN, &[2], 0, 0, 41);
    assert_eq!(out.len(), 72);
    assert_eq!(out[0], GridStep { key: 0, steps: -82 });
    assert_eq!(out[10], GridStep { key: 17, steps: -63 });
    assert_eq!(out[63], GridStep { key: 112, steps: 13 });
    assert_eq!(out[71], GridStep { key: 120, steps: 29 });
}

#[test]
fn capo_and_octave_shift_the_grid() {
    let out = edo_grid_steps(&OPEN, &[2], 2, 1, 41);
    assert_eq!(out[0], GridStep { key: 0, steps: -82 + 4 + 41 });
    assert_eq!(out[9 + 8], GridStep { key: 24, steps: -65 + 20 + 41 });
}

#[test]
fn unequal_frets_cycle() {
    assert_eq!(horiz_offset_of(&[2, 3], 0), 0);
    assert_eq!(horiz_offset_of(&[2, 3], 3), 7);
    assert_eq!(horiz_offset_of(&[2, 3], -1), -3);
    assert_eq!(horiz_offset_of(&[2, 3], -2), -5);
    assert_eq!(horiz_offset_of(&[2, 3], 4), 10);
    assert_eq!(horiz_offset_of(&[2, 3], 4), 2 * horiz_offset_of(&[2, 3], 2));
}

#[test]
fn step_index_is_the_euclidean_remainder() {
    assert_eq!(step_index(-1, 3), 2);
    assert_eq!(step_index(7, 3), 1);
    assert_eq!(step_index(-6, 3), 0);
    for i in -10i64..10 {
        assert_eq!(step_index(i, 4) as i64, i.rem_euclid(4));
    }
}

#[test]
fn grid_header_fields_in_order() {
    let g = grid_header("260.89", "-1", "2").unwrap();
    assert_eq!(g.ref_pitch, "260.89");
    assert_eq!(g.capo, -1);
    assert_eq!(g.octave, 2);
    assert_eq!(grid_header("abc", "x", "y").err().unwrap(), "Invalid Ref Pitch");
    assert_eq!(grid_header("1", "x", "y").err().unwrap(), "Invalid Capo");
    assert_eq!(grid_header("1", "0", "y").err().unwrap(), "Invalid Octave");
}

#[test]
fn edo_grid_input_fields() {
    let open = strings(&["13", "0", "-17", "-28", "-41", "-52", "-65", "-82"]);
    let g = edo_grid_input("41", &open, &strings(&["2"])).unwrap();
    assert_eq!(g.edo, "41");
    assert_eq!(g.open, OPEN.to_vec());
    assert_eq!(g.horiz, vec![2]);
    assert_eq!(edo_grid_input("x", &open, &strings(&["2"])).err().unwrap(), "Invalid EDO");
    let mut bad = open.clone();
    bad[2] = "a".to_string();
    bad[5] = "b".to_string();
    assert_eq!(edo_grid_input("41", &bad, &strings(&["2"])).err().unwrap(), "Invalid Open String 3");
    assert_eq!(edo_grid_input("41", &open, &strings(&["2", "z"])).err().unwrap(), "Invalid Horiz Step");
    assert_eq!(edo_grid_input("41", &open, &[]).err().unwrap(), "No horizontal steps provided");
}

#[test]
fn edo_grid_reads_header_then_fields_and_ignores_the_reference_note() {
    let open = strings(&["13", "0", "-17", "-28", "-41", "-52", "-65", "-82"]);
    let horiz = strings(&["2"]);
    let a = edo_grid_fields("41", "48", "260.89", &open, &horiz, "1", "0").unwrap();
    let b = edo_grid_fields("41", "not a note", "260.89", &open, &horiz, "1", "0").unwrap();
    assert_eq!(a.header.ref_pitch, b.header.ref_pitch);
    assert_eq!((a.header.capo, a.header.octave), (b.header.capo, b.header.octave));
    assert_eq!(a.input.open, b.input.open);
    assert_eq!(a.input.horiz, b.input.horiz);
    assert_eq!(a.input.edo, "41");
    assert_eq!(edo_grid_fields("x", "", "y", &open, &horiz, "0", "0").err().unwrap(), "Invalid Ref Pitch");
    assert_eq!(edo_grid_fields("x", "", "1", &open, &horiz, "0", "z").err().unwrap(), "Invalid Octave");
    assert_eq!(edo_grid_fields("x", "", "1", &open, &horiz, "0", "0").err().unwrap(), "Invalid EDO");
}
