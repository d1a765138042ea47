use audio_graph::graph::{
    create_graph, AudioGraph, AudioNode, Gain, Input, Output, SCRATCH_LEN, TONE_FREQ, TONE_GAIN,
};
use audio_graph::osc::{triangle, Osc, OscWave, OSC_LEVEL};
use audio_graph::sample::{mix, scale, FULL_SCALE, GAIN_UNIT};

fn osc(sample_rate: u32, freq: u32) -> AudioNode {
    AudioNode::Osc(Osc::new(sample_rate, freq, OscWave::Triangle))
}

fn tone_samples(sample_rate: u32, freq: u32, n: usize) -> Vec<i32> {
    let mut o = Osc::new(sample_rate, freq, OscWave::Triangle);
    let mut buf = vec![0i32; n];
    o.process(&mut buf);
    buf
}

/// The triangle wave computed in floating point, attenuated to a tenth
/// and expressed in sample units.
fn float_triangle(phase: f64) -> f64 {
    let v = 4.0 * ((((phase + 0.25) % 1.0) - 0.5).abs()) - 1.0;
    v * 0.1 * FULL_SCALE as f64
}

#[test]
fn triangle_corners() {
    assert_eq!(triangle(0, 0, 4), 0);
    assert_eq!(triangle(1, 0, 4), -OSC_LEVEL);
    assert_eq!(triangle(2, 0, 4), 0);
    assert_eq!(triangle(3, 0, 4), OSC_LEVEL);
    assert_eq!(triangle(0, 1, 4), OSC_LEVEL);
    assert_eq!(triangle(1, 3, 4), 0);
}

#[test]
fn triangle_rounds_down() {
    // phase 1/3 gives -2/3 of the level, phase 2/3 gives 2/3
    assert_eq!(triangle(1, 0, 3), -66667);
    assert_eq!(triangle(2, 0, 3), 66666);
}

#[test]
fn osc_first_samples() {
    let buf = tone_samples(48000, 220_000, 3);
    assert_eq!(buf, vec![0, -1834, -3667]);
}

#[test]
fn osc_follows_float_formula() {
    let buf = tone_samples(44100, 293_660, 2000);
    for (k, s) in buf.iter().enumerate() {
        let phase = (k as f64 * 293.66 / 44100.0) % 1.0;
        assert!((*s as f64 - float_triangle(phase)).abs() <= 2.0, "sample {}", k);
    }
}

#[test]
fn osc_phase_advances_across_buffers() {
    let mut o = Osc::new(48000, 220_000, OscWave::Triangle);
    let mut a = vec![0i32; 100];
    let mut b = vec![0i32; 380];
    o.process(&mut a);
    assert_eq!(o.phase, 100 * 220_000);
    o.process(&mut b);
    a.extend_from_slice(&b);
    assert_eq!(a, tone_samples(48000, 220_000, 480));
    assert_eq!(o.phase, (480u64 * 220_000) % 48_000_000);
}

#[test]
fn osc_is_periodic() {
    // 480 Hz at 48000 Hz repeats every 100 samples
    let buf = tone_samples(48000, 480_000, 300);
    assert_eq!(buf[0..100], buf[100..200]);
    assert_eq!(buf[0..100], buf[200..300]);
    let mut o = Osc::new(48000, 480_000, OscWave::Triangle);
    let mut b = vec![0i32; 100];
    o.process(&mut b);
    assert_eq!(o.phase, 0);
}

#[test]
fn osc_wraps_phase_at_high_frequency() {
    let mut o = Osc::new(8000, 7_999_000, OscWave::Sine);
    let mut b = vec![0i32; 10];
    o.process(&mut b);
    assert!(o.phase < o.period);
    assert_eq!(o.phase, (10u64 * 7_999_000) % 8_000_000);
}

#[test]
fn triangle_output_is_bounded() {
    let buf = tone_samples(44100, 1_234_567, 4096);
    assert!(buf.iter().all(|s| -OSC_LEVEL <= *s && *s <= OSC_LEVEL));
    assert!(buf.iter().any(|s| *s > OSC_LEVEL - 10_000));
    assert!(buf.iter().any(|s| *s < -OSC_LEVEL + 10_000));
}

#[test]
fn mix_saturates() {
    assert_eq!(mix(3, 4), 7);
    assert_eq!(mix(-3, 4), 1);
    assert_eq!(mix(i32::MAX, 1), i32::MAX);
    assert_eq!(mix(i32::MIN, -1), i32::MIN);
}

#[test]
fn scale_rounds_toward_zero() {
    assert_eq!(scale(3, 500), 1);
    assert_eq!(scale(-3, 500), -1);
    assert_eq!(scale(1000, 250), 250);
    assert_eq!(scale(7, 0), 0);
    assert_eq!(scale(-7, GAIN_UNIT), -7);
    assert_eq!(scale(i32::MAX, 2000), i32::MAX);
    assert_eq!(scale(i32::MAX, -2000), i32::MIN);
}

#[test]
fn gain_of_zero_silences() {
    let mut g = Gain::new(0);
    g.add_input(osc(48000, 220_000));
    let mut buf = vec![5i32; 480];
    g.process(&mut buf);
    assert!(buf.iter().all(|s| *s == 0));
}

#[test]
fn gain_of_one_reproduces_its_input() {
    let mut g = Gain::new(GAIN_UNIT);
    g.add_input(osc(48000, 220_000));
    let mut buf = vec![0i32; 480];
    g.process(&mut buf);
    assert_eq!(buf, tone_samples(48000, 220_000, 480));
}

#[test]
fn gain_halves_its_input() {
    let mut g = Gain::new(500);
    g.add_input(osc(48000, 220_000));
    let mut buf = vec![0i32; 480];
    g.process(&mut buf);
    let expected: Vec<i32> = tone_samples(48000, 220_000, 480).iter().map(|s| s / 2).collect();
    assert_eq!(buf, expected);
}

#[test]
fn gain_without_inputs_leaves_the_buffer() {
    let mut g = Gain::new(500);
    let mut buf = vec![10i32, -10, 3];
    g.process(&mut buf);
    assert_eq!(buf, vec![10, -10, 3]);
}

#[test]
fn sink_without_inputs_leaves_the_buffer() {
    let mut s = Output::new();
    let mut buf = vec![10i32, -10, 3];
    s.process(&mut buf);
    assert_eq!(buf, vec![10, -10, 3]);
}

#[test]
fn single_input_passes_through() {
    let mut s = Output::new();
    s.add_input(osc(48000, 220_000));
    let mut buf = vec![0i32; 480];
    s.process(&mut buf);
    assert_eq!(buf, tone_samples(48000, 220_000, 480));
}

#[test]
fn two_identical_inputs_sum() {
    let mut s = Output::new();
    s.add_input(osc(48000, 220_000));
    s.add_input(osc(48000, 220_000));
    let mut buf = vec![0i32; 480];
    s.process(&mut buf);
    let expected: Vec<i32> = tone_samples(48000, 220_000, 480).iter().map(|s| 2 * s).collect();
    assert_eq!(buf, expected);
}

#[test]
fn two_different_inputs_sum() {
    let mut s = Output::new();
    s.add_input(osc(48000, 220_000));
    s.add_input(osc(48000, 330_000));
    let mut buf = vec![0i32; 64];
    s.process(&mut buf);
    let a = tone_samples(48000, 220_000, 64);
    let b = tone_samples(48000, 330_000, 64);
    let expected: Vec<i32> = a.iter().zip(b.iter()).map(|(x, y)| x + y).collect();
    assert_eq!(buf, expected);
}

#[test]
fn later_inputs_fill_their_scratch_buffer() {
    let mut s = Output::new();
    s.add_input(osc(48000, 220_000));
    s.add_input(osc(48000, 330_000));
    let mut buf = vec![0i32; 64];
    s.process(&mut buf);
    assert!(s.inputs[0].buffer.iter().all(|x| *x == 0));
    assert_eq!(s.inputs[1].buffer[..64], tone_samples(48000, 330_000, 64)[..]);
    assert!(s.inputs[1].buffer[64..].iter().all(|x| *x == 0));
    assert_eq!(s.inputs[1].buffer.len(), SCRATCH_LEN);
}

#[test]
fn osc_ignores_inputs() {
    let mut n = osc(48000, 220_000);
    n.add_input(osc(48000, 330_000));
    let mut buf = vec![0i32; 16];
    n.process(&mut buf);
    assert_eq!(buf, tone_samples(48000, 220_000, 16));
}

#[test]
fn nested_gains() {
    let mut inner = Gain::new(500);
    inner.add_input(osc(48000, 220_000));
    let mut outer = Gain::new(2000);
    outer.add_input(AudioNode::Gain(inner));
    let mut g = AudioGraph::new(48000);
    g.output.add_input(AudioNode::Gain(outer));
    let mut buf = vec![0i32; 128];
    g.process(&mut buf);
    let expected: Vec<i32> =
        tone_samples(48000, 220_000, 128).iter().map(|s| (s / 2) * 2).collect();
    assert_eq!(buf, expected);
}

#[test]
fn input_new_has_silent_scratch() {
    let i = Input::new(osc(48000, 220_000));
    assert_eq!(i.buffer.len(), SCRATCH_LEN);
    assert!(i.buffer.iter().all(|x| *x == 0));
}

#[test]
fn create_graph_wiring() {
    let g = create_graph(44100);
    assert_eq!(g.sample_rate, 44100);
    assert_eq!(g.output.inputs.len(), 1);
    match &*g.output.inputs[0].node {
        AudioNode::Gain(gain) => {
            assert_eq!(gain.amount, TONE_GAIN);
            assert_eq!(gain.inputs.len(), 1);
            match &*gain.inputs[0].node {
                AudioNode::Osc(o) => {
                    assert_eq!(o.freq, TONE_FREQ);
                    assert_eq!(o.wave, OscWave::Triangle);
                    assert_eq!(o.phase, 0);
                    assert_eq!(o.period, 44_100_000);
                }
                _ => panic!("expected a generator"),
            }
        }
        _ => panic!("expected a gain"),
    }
}

#[test]
fn process_is_deterministic() {
    let mut a = create_graph(48000);
    let mut b = create_graph(48000);
    for len in [480usize, 17, 4096, 1, 333] {
        let mut x = vec![0i32; len];
        let mut y = vec![0i32; len];
        a.process(&mut x);
        b.process(&mut y);
        assert_eq!(x, y);
    }
}

#[test]
fn process_accepts_full_scratch_length() {
    let mut g = create_graph(48000);
    let mut buf = vec![0i32; 4096];
    assert!(g.try_process(&mut buf));
    assert_eq!(buf[1], scale(tone_samples(48000, 220_000, 2)[1], 500));
}

#[test]
fn process_refuses_longer_buffer() {
    let mut g = create_graph(48000);
    let mut buf = vec![7i32; 4097];
    assert!(!g.try_process(&mut buf));
    assert!(buf.iter().all(|s| *s == 7));
    let mut small = vec![0i32; 2];
    g.process(&mut small);
    assert_eq!(small, vec![0, scale(-1834, 500)]);
}

#[test]
fn end_to_end_tone() {
    let mut g = create_graph(48000);
    let mut buf = vec![0i32; 480];
    g.process(&mut buf);
    assert_eq!(buf[0], 0);
    let mut phase: u64 = 0;
    for (k, s) in buf.iter().enumerate() {
        let expected = scale(triangle(phase, 0, 48_000_000), 500);
        assert_eq!(*s, expected, "sample {}", k);
        let float = 0.5 * float_triangle(phase as f64 / 48_000_000.0);
        assert!((*s as f64 - float).abs() <= 2.0, "sample {}", k);
        phase = (phase + 220_000) % 48_000_000;
    }
    assert_eq!(buf[1], -917);
}

#[test]
fn frames_repeat_each_sample_on_every_channel() {
    let mut o = Osc::new(48000, 220_000, OscWave::Triangle);
    let mut buf = vec![9i32; 5];
    o.process_frames(&mut buf, 2);
    let s = tone_samples(48000, 220_000, 3);
    assert_eq!(buf, vec![s[0], s[0], s[1], s[1], s[2]]);
    assert_eq!(o.phase, 3 * 220_000);
}

#[test]
fn one_channel_frames_match_process() {
    let mut o = Osc::new(44100, 293_660, OscWave::Triangle);
    let mut buf = vec![0i32; 300];
    o.process_frames(&mut buf, 1);
    assert_eq!(buf, tone_samples(44100, 293_660, 300));
    let mut empty: Vec<i32> = Vec::new();
    o.process_frames(&mut empty, 3);
    assert_eq!(o.phase, (300u64 * 293_660) % 44_100_000);
}

#[test]
fn retuning_keeps_the_phase() {
    let mut o = Osc::new(48000, 220_000, OscWave::Triangle);
    let mut buf = vec![0i32; 10];
    o.process(&mut buf);
    o.set_freq(440_000);
    assert_eq!(o.phase, 10 * 220_000);
    assert_eq!(o.freq, 440_000);
    let mut next = vec![0i32; 2];
    o.process(&mut next);
    assert_eq!(next[0], triangle(10 * 220_000, 0, 48_000_000));
    assert_eq!(next[1], triangle(10 * 220_000 + 440_000, 0, 48_000_000));
}

#[test]
fn gain_of_two_identical_inputs_scales_their_sum() {
    let mut g = Gain::new(500);
    g.add_input(osc(48000, 220_000));
    g.add_input(osc(48000, 220_000));
    let mut buf = vec![0i32; 480];
    g.process(&mut buf);
    let expected: Vec<i32> = tone_samples(48000, 220_000, 480).iter().map(|s| scale(2 * s, 500)).collect();
    assert_eq!(buf, expected);
}

#[test]
fn two_identical_fed_gains_sum_whatever_the_buffer_held() {
    let fed_gain = || {
        let mut g = Gain::new(500);
        g.add_input(osc(48000, 220_000));
        AudioNode::Gain(g)
    };
    let mut s = Output::new();
    s.add_input(fed_gain());
    s.add_input(fed_gain());
    let mut buf = vec![12345i32; 256];
    s.process(&mut buf);
    let expected: Vec<i32> =
        tone_samples(48000, 220_000, 256).iter().map(|x| 2 * scale(*x, 500)).collect();
    assert_eq!(buf, expected);
}
