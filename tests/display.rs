use sphere_lights::animation::{burst_mode, next_scan, AnimationLoop};
use sphere_lights::bus::{button_sample, read_buttons, BusOp, Line};
use sphere_lights::geometry::{are_neighbors, point, squared_distance, LIGHT_COUNT, NEIGHBOR_RADIUS_SQ};
use sphere_lights::lights::Lights;

/// The light positions as unit vectors in single precision.
const SPHERE: [[f32; 3]; 61] = [
    [-0.89438856, 0.0, 0.44729087],
    [-0.8374509, -0.17523615, 0.14909694],
    [-0.7805132, -0.3504722, -0.149097],
    [-0.29812953, 0.0, 0.81576365],
    [-0.39025664, -0.283538, 0.63152725],
    [-0.48238373, -0.567076, 0.44729087],
    [-0.42544606, -0.74231213, 0.14909694],
    [-0.24119182, -0.74231213, -0.149097],
    [-0.59625906, 0.0, 0.63152725],
    [-0.68838614, -0.28353807, 0.44729087],
    [-0.63144845, -0.4587741, 0.14909694],
    [-0.5745108, -0.63401014, -0.149097],
    [-0.18425423, -0.567076, 0.63152725],
    [0.056937594, -0.74231213, 0.44729087],
    [0.24119182, -0.74231213, 0.14909694],
    [0.42544606, -0.74231213, -0.149097],
    [-0.27638134, -0.850614, 0.44729087],
    [-0.09212711, -0.850614, 0.14909694],
    [0.09212714, -0.850614, -0.149097],
    [-0.092127115, -0.283538, 0.81576365],
    [0.1490647, -0.45877418, 0.63152725],
    [0.39025652, -0.6340103, 0.44729087],
    [0.57451075, -0.63401026, 0.14909694],
    [0.63144845, -0.45877412, -0.149097],
    [0.7235755, -0.52570844, 0.44729087],
    [0.7805131, -0.3504723, 0.14909694],
    [0.8374508, -0.17523615, -0.149097],
    [0.24119182, -0.17523615, 0.81576365],
    [0.48238364, 0.0, 0.63152725],
    [0.72357553, 0.1752361, 0.44729087],
    [0.7805132, 0.35047224, 0.14909694],
    [0.63144845, 0.45877412, -0.149097],
    [0.4823837, 0.35047224, 0.63152725],
    [0.3902566, 0.63401026, 0.44729087],
    [0.24119182, 0.74231213, 0.14909694],
    [0.09212708, 0.8506141, -0.149097],
    [-0.18425415, 0.567076, 0.63152725],
    [-0.48238364, 0.567076, 0.44729087],
    [-0.63144845, 0.4587741, 0.14909694],
    [-0.7805132, 0.35047218, -0.149097],
    [0.72357553, 0.5257084, 0.44729087],
    [0.57451075, 0.63401026, 0.14909694],
    [0.425446, 0.74231213, -0.149097],
    [0.24119185, 0.17523612, 0.81576365],
    [0.14906476, 0.45877418, 0.63152725],
    [0.056937695, 0.7423122, 0.44729087],
    [-0.09212708, 0.8506141, 0.14909694],
    [-0.24119185, 0.74231213, -0.149097],
    [-0.27638122, 0.8506141, 0.44729087],
    [-0.425446, 0.74231213, 0.14909694],
    [-0.57451075, 0.63401026, -0.149097],
    [-0.09212708, 0.283538, 0.81576365],
    [-0.3902566, 0.283538, 0.63152725],
    [-0.68838614, 0.28353795, 0.44729087],
    [-0.8374509, 0.17523605, 0.14909694],
    [-0.7805132, 0.0, -0.149097],
    [0.48238364, -0.3504723, 0.63152725],
    [0.72357553, -0.17523617, 0.44729087],
    [0.7805132, 0.0, 0.14909694],
    [0.8374508, 0.17523612, -0.149097],
    [0.0, 0.0, 1.0],
];

fn lit(banks: [u8; 8]) -> Vec<usize> {
    (0..64usize)
        .filter(|&i| (banks[7 - i / 8] >> (i % 8)) & 1 == 1)
        .collect()
}

fn frame_for(scan: usize, read: Option<u8>) -> Vec<usize> {
    let mut state = AnimationLoop::new();
    for _ in 0..scan {
        state.finish_frame(true);
    }
    assert_eq!(state.scan(), scan);
    state.compose(read);
    lit(state.lights().banks())
}

#[test]
fn single_light_sets_one_bit() {
    for i in 0..64usize {
        let mut lights = Lights::new();
        lights.set_light(13);
        lights.clear();
        lights.set_light(i);
        let banks = lights.banks();
        for b in 0..8usize {
            let expected: u8 = if b == 7 - i / 8 { 1u8 << (i % 8) } else { 0 };
            assert_eq!(banks[b], expected);
        }
        assert_eq!(lit(banks), vec![i]);
    }
}

#[test]
fn light_zero_is_lowest_bit_of_last_bank() {
    let mut lights = Lights::new();
    lights.set_light(0);
    lights.set_light(63);
    lights.set_light(9);
    assert_eq!(lights.banks(), [0x80, 0, 0, 0, 0, 0, 0x02, 0x01]);
}

#[test]
fn set_light_is_idempotent() {
    let mut once = Lights::new();
    once.set_light(5);
    once.set_light(42);
    let mut twice = Lights::new();
    twice.set_light(5);
    twice.set_light(42);
    twice.set_light(42);
    assert_eq!(once.banks(), twice.banks());
}

#[test]
fn clear_darkens_every_bank() {
    let mut lights = Lights::new();
    for i in 0..64usize {
        lights.set_light(i);
    }
    assert_eq!(lights.banks(), [0xff; 8]);
    lights.clear();
    assert_eq!(lights.banks(), [0; 8]);
    lights.clear();
    assert_eq!(lights.banks(), [0; 8]);
}

#[test]
fn scan_light_is_in_its_own_burst() {
    for scan in 0..LIGHT_COUNT {
        assert!(are_neighbors(scan, scan));
        assert_eq!(squared_distance(point(scan), point(scan)), 0);
        assert!(frame_for(scan, Some(0x01)).contains(&scan));
    }
}

#[test]
fn scan_index_has_period_61() {
    let mut state = AnimationLoop::new();
    assert_eq!(state.scan(), 0);
    for n in 1..=61usize {
        state.finish_frame(n % 2 == 0);
        if n < 61 {
            assert_eq!(state.scan(), n);
        }
    }
    assert_eq!(state.scan(), 0);
    assert_eq!(next_scan(60), 0);
    assert_eq!(next_scan(0), 1);
}

#[test]
fn branch_follows_bit_zero_only() {
    assert!(!burst_mode(0x00));
    assert!(burst_mode(0x01));
    assert!(!burst_mode(0xfe));
    assert!(burst_mode(0xff));
    for scan in [0usize, 17, 60] {
        assert_eq!(frame_for(scan, Some(0x00)), frame_for(scan, Some(0xfe)));
        assert_eq!(frame_for(scan, Some(0x01)), frame_for(scan, Some(0x81)));
    }
    let mut state = AnimationLoop::new();
    state.compose(Some(0x01));
    state.finish_frame(true);
    state.compose(Some(0x00));
    assert_eq!(lit(state.lights().banks()), vec![1]);
}

#[test]
fn base_display_lights_scan_index_only() {
    assert_eq!(frame_for(0, Some(0x00)), vec![0]);
    assert_eq!(frame_for(42, Some(0x00)), vec![42]);
}

#[test]
fn burst_includes_nearest_neighbour() {
    assert_eq!(point(0), [-89438856, 0, 44729087]);
    assert_eq!(point(1), [-83745090, -17523615, 14909694]);
    let d = squared_distance(point(0), point(1));
    assert_eq!(d, 1228692252819430);
    assert!(d < NEIGHBOR_RADIUS_SQ);
    let frame = frame_for(0, Some(0x01));
    assert_eq!(frame, vec![0, 1, 8, 9, 53, 54]);
    assert_eq!(frame_for(60, Some(0x01)), vec![3, 19, 27, 43, 51, 60]);
}

#[test]
fn burst_matches_single_precision_distances() {
    for scan in 0..LIGHT_COUNT {
        let base = SPHERE[scan];
        let expected: Vec<usize> = (0..LIGHT_COUNT)
            .filter(|&i| {
                let p = SPHERE[i];
                let d = [base[0] - p[0], base[1] - p[1], base[2] - p[2]];
                (d[0] * d[0] + d[1] * d[1] + d[2] * d[2]).sqrt() < 0.4
            })
            .collect();
        assert_eq!(frame_for(scan, Some(0x01)), expected);
    }
}

#[test]
fn failed_flush_does_not_stop_the_animation() {
    let mut ok = AnimationLoop::new();
    let mut failed = AnimationLoop::new();
    ok.compose(Some(0x01));
    failed.compose(Some(0x01));
    ok.finish_frame(true);
    failed.finish_frame(false);
    assert_eq!(ok.scan(), failed.scan());
    assert_eq!(failed.lights().banks(), [0; 8]);
    failed.compose(Some(0x00));
    assert_eq!(lit(failed.lights().banks()), vec![1]);
}

#[test]
fn failed_button_read_counts_as_no_press() {
    assert_eq!(button_sample(None), 0);
    assert_eq!(button_sample(Some(0x5b)), 0x5b);
    for scan in [0usize, 30, 60] {
        assert_eq!(frame_for(scan, None), frame_for(scan, Some(0x00)));
        assert_eq!(frame_for(scan, None), vec![scan]);
    }
}

#[test]
fn squared_distance_is_exact() {
    assert_eq!(squared_distance([0, 0, 0], [3, 4, 12]), 169);
    assert_eq!(squared_distance([3, 4, 12], [0, 0, 0]), 169);
    let far = squared_distance([i32::MIN; 3], [i32::MAX; 3]);
    assert_eq!(far, 3 * (u32::MAX as u128) * (u32::MAX as u128));
}

#[test]
fn draw_writes_banks_then_pulses_led_latch() {
    let mut lights = Lights::new();
    lights.set_light(0);
    lights.set_light(60);
    let ops = draw_ops(&lights);
    assert_eq!(
        ops,
        [
            BusOp::Write([0x10, 0, 0, 0, 0, 0, 0, 0x01]),
            BusOp::SetLow(Line::LedLatch),
            BusOp::SetHigh(Line::LedLatch),
        ]
    );
}

fn draw_ops(lights: &Lights) -> [BusOp; 3] {
    lights.draw()
}

#[test]
fn button_read_holds_latch_low_around_transfer() {
    assert_eq!(
        read_buttons(),
        [
            BusOp::SetLow(Line::ButtonLatch),
            BusOp::Transfer(0),
            BusOp::SetHigh(Line::ButtonLatch),
        ]
    );
}

#[test]
fn latches_never_low_together() {
    let mut state = AnimationLoop::new();
    let mut led_high = true;
    let mut button_high = true;
    for n in 0..5u8 {
        let read = read_buttons();
        state.compose(Some(n));
        let flush = state.lights().draw();
        for op in read.iter().chain(flush.iter()) {
            match *op {
                BusOp::SetLow(Line::LedLatch) => led_high = false,
                BusOp::SetHigh(Line::LedLatch) => led_high = true,
                BusOp::SetLow(Line::ButtonLatch) => button_high = false,
                BusOp::SetHigh(Line::ButtonLatch) => button_high = true,
                _ => {}
            }
            assert!(led_high || button_high);
        }
        assert!(led_high && button_high);
        state.finish_frame(true);
    }
}
