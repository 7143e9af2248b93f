use ranitask::hp_monitor::{
    color_dist, find_window_matching, hp_step, sample_delay, CLR_INVALID, HP_POLL_MS,
    HP_WINDOW_WAIT_MS,
};

#[test]
fn color_distance_sums_the_channels() {
    assert_eq!(color_dist(0x000000, 0x000000), 0);
    assert_eq!(color_dist(0x102030, 0x000000), 0x10 + 0x20 + 0x30);
    assert_eq!(color_dist(0x0000FF, 0x00FF00), 510);
    assert_eq!(color_dist(0x112233, 0x332211), 0x22 + 0 + 0x22);
    assert_eq!(color_dist(0xFF000000, 0x00000000), 0);
}

#[test]
fn one_press_per_departure_scenario() {
    let reference = 0x0000C0u32;
    let samples = [0x0000C0u32, 0x000010, 0x000012, CLR_INVALID, 0x0000B0, 0x000000, 0x000000];
    let mut armed = true;
    let mut presses = Vec::new();
    for (i, c) in samples.iter().enumerate() {
        let (next, press) = hp_step(armed, *c, reference);
        armed = next;
        if press {
            presses.push(i);
        }
    }
    assert_eq!(presses, vec![1, 5]);
}

#[test]
fn invalid_samples_change_nothing() {
    assert_eq!(hp_step(true, CLR_INVALID, 0), (true, false));
    assert_eq!(hp_step(false, CLR_INVALID, 0), (false, false));
}

#[test]
fn tolerance_is_inclusive() {
    assert_eq!(hp_step(true, 0x000030, 0x000000), (true, false));
    assert_eq!(hp_step(true, 0x000031, 0x000000), (false, true));
    assert_eq!(hp_step(false, 0x000030, 0x000000), (true, false));
}

#[test]
fn sampling_waits() {
    assert_eq!(sample_delay(true, false, true, true), Some(HP_WINDOW_WAIT_MS));
    assert_eq!(sample_delay(true, true, false, true), Some(HP_POLL_MS));
    assert_eq!(sample_delay(true, true, true, false), Some(HP_POLL_MS));
    assert_eq!(sample_delay(true, true, true, true), None);
    assert_eq!(sample_delay(false, false, false, true), None);
    assert_eq!(sample_delay(false, false, false, false), Some(200));
    assert_eq!(HP_WINDOW_WAIT_MS, 500);
}

#[test]
fn window_choice_by_title_prefix() {
    let titles: Vec<String> = vec!["Launcher".into(), "Game - Char1".into(), "Game - Char2".into()];
    assert_eq!(find_window_matching(&titles, "Game"), Some(1));
    assert_eq!(find_window_matching(&titles, "Game - Char2"), Some(2));
    assert_eq!(find_window_matching(&titles, ""), Some(0));
    assert_eq!(find_window_matching(&titles, "Nothing"), Some(0));
    assert_eq!(find_window_matching(&Vec::new(), "Game"), None);
}
