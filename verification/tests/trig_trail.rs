use openwa_core::fixed::Fixed;
use openwa_core::trig::{bungee_trail_vertices, trig_lookup, MAX_TRAIL_VERTICES, TRIG_TABLE_LEN};

#[test]
fn interpolated_lookup() {
    let ramp: Vec<i32> = (0..TRIG_TABLE_LEN as i32).map(|i| i * 64).collect();
    assert_eq!(trig_lookup(&ramp, 0), Fixed(0));
    assert_eq!(trig_lookup(&ramp, 0x40), Fixed(64));
    assert_eq!(trig_lookup(&ramp, 0x41), Fixed(65));
    // Only the low 16 bits of the angle count.
    assert_eq!(trig_lookup(&ramp, 0x1_0041), Fixed(65));
    let mut down = vec![0i32; TRIG_TABLE_LEN];
    down[1] = -64;
    assert_eq!(trig_lookup(&down, 1), Fixed(-1));
    assert_eq!(trig_lookup(&down, 63), Fixed(-63));
}

#[test]
fn trail_vertices_follow_the_segments() {
    let zero = vec![0i32; TRIG_TABLE_LEN];
    let one = vec![0x1_0000i32; TRIG_TABLE_LEN];
    let start = (100, 200);
    let target = (7, 8);
    // Straight segments without fill only keep the first point.
    assert_eq!(
        bungee_trail_vertices(start, &[0, 5, 0], target, false, &zero, &zero),
        vec![start, start, target]
    );
    // Each segment moves 8 units along the sine.
    assert_eq!(
        bungee_trail_vertices(start, &[0, 0, 0], target, true, &one, &zero),
        vec![(100, 200), (100 + 0x8_0000, 200), (100 + 0x10_0000, 200), target]
    );
    // The cosine moves up.
    assert_eq!(
        bungee_trail_vertices(start, &[0], target, true, &zero, &one)[0],
        start
    );
    let many = vec![0i32; 300];
    let v = bungee_trail_vertices(start, &many, target, true, &zero, &zero);
    assert_eq!(v.len(), MAX_TRAIL_VERTICES);
    assert_eq!(v[MAX_TRAIL_VERTICES - 1], start);
}
