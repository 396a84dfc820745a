use bytebox::audio::{regulate, Regulation, MAX_LATENCY_SAMPLES, MIN_LATENCY_SAMPLES, SAMPLE_RATE, TARGET_LATENCY_SAMPLES};

const FRAME: u32 = SAMPLE_RATE / 50;

#[test]
fn an_empty_queue_is_refilled_with_a_cushion() {
    assert_eq!(regulate(0), Regulation::Send { padding: TARGET_LATENCY_SAMPLES });
    assert!(TARGET_LATENCY_SAMPLES > FRAME, "le coussin doit depasser une trame");
}

#[test]
fn a_healthy_queue_is_left_alone() {
    for queued in [MIN_LATENCY_SAMPLES, 2 * FRAME, MAX_LATENCY_SAMPLES] {
        assert_eq!(regulate(queued), Regulation::Send { padding: 0 });
    }
}

#[test]
fn an_overfull_queue_drops_a_frame() {
    assert_eq!(regulate(MAX_LATENCY_SAMPLES + 1), Regulation::Drop);
}

#[test]
fn the_regulation_settles_at_a_stable_latency() {
    let mut queued = 0u32;
    let mut refills = 0;
    for _ in 0..1000 {
        match regulate(queued) {
            Regulation::Drop => queued -= FRAME,
            Regulation::Send { padding } => {
                if padding > 0 {
                    refills += 1;
                }
                queued += padding + FRAME;
            }
        }
        queued = queued.saturating_sub(FRAME);
    }
    assert_eq!(refills, 1, "un seul remplissage, au demarrage");
    assert!(
        (MIN_LATENCY_SAMPLES..=MAX_LATENCY_SAMPLES).contains(&queued),
        "latence stabilisee hors de la plage visee : {queued}"
    );
}

#[test]
fn a_queue_just_below_the_floor_is_topped_up_to_the_target() {
    assert_eq!(
        regulate(MIN_LATENCY_SAMPLES - 1),
        Regulation::Send { padding: TARGET_LATENCY_SAMPLES - MIN_LATENCY_SAMPLES + 1 }
    );
}
