use mantis::arc_length::{locate_sample, partition_point, sample_span, SampleSpan};

fn distances() -> Vec<f32> {
    vec![0.0, 1.0, 2.0, 3.0, 4.0]
}

#[test]
fn partition_point_counts_samples_below() {
    let d = distances();
    assert_eq!(partition_point(d.len(), |i| d[i] < 2.5), 3);
    assert_eq!(partition_point(d.len(), |i| d[i] < 2.0), 2);
    assert_eq!(partition_point(d.len(), |i| d[i] < 0.0), 0);
    assert_eq!(partition_point(d.len(), |i| d[i] < 10.0), 5);
}

#[test]
fn partition_point_of_nothing_is_zero() {
    assert_eq!(partition_point(0, |_| true), 0);
}

#[test]
fn partition_point_with_repeated_distances() {
    let d: Vec<f32> = vec![0.0, 1.0, 1.0, 1.0, 2.0];
    assert_eq!(partition_point(d.len(), |i| d[i] < 1.0), 1);
    assert_eq!(partition_point(d.len(), |i| d[i] < 1.5), 4);
}

#[test]
fn partition_point_matches_linear_count() {
    let d: Vec<f32> = (0..37).map(|i| (i as f32) * 0.5).collect();
    for k in 0..80 {
        let target = (k as f32) * 0.25 - 1.0;
        let expected = d.iter().filter(|x| **x < target).count();
        assert_eq!(partition_point(d.len(), |i| d[i] < target), expected);
    }
}

#[test]
fn span_of_first_sample_is_start() {
    assert_eq!(sample_span(0, 5), SampleSpan::Start);
    assert_eq!(sample_span(0, 1), SampleSpan::Start);
    assert_eq!(sample_span(7, 1), SampleSpan::Start);
}

#[test]
fn span_between_samples() {
    assert_eq!(sample_span(1, 5), SampleSpan::Between { lower: 0, upper: 1 });
    assert_eq!(sample_span(3, 5), SampleSpan::Between { lower: 2, upper: 3 });
}

#[test]
fn span_clamped_to_last_sample() {
    assert_eq!(sample_span(5, 5), SampleSpan::Between { lower: 3, upper: 4 });
    assert_eq!(sample_span(usize::MAX, 5), SampleSpan::Between { lower: 3, upper: 4 });
}

#[test]
fn locate_distances_on_a_curve() {
    let d = distances();
    assert_eq!(locate_sample(d.len(), |i| d[i] < 0.0), SampleSpan::Start);
    assert_eq!(locate_sample(d.len(), |i| d[i] < 1.5), SampleSpan::Between { lower: 1, upper: 2 });
    assert_eq!(locate_sample(d.len(), |i| d[i] < 4.0), SampleSpan::Between { lower: 3, upper: 4 });
    assert_eq!(locate_sample(d.len(), |i| d[i] < 9.0), SampleSpan::Between { lower: 3, upper: 4 });
}

#[test]
fn locate_on_a_single_sample() {
    assert_eq!(locate_sample(1, |_| true), SampleSpan::Start);
    assert_eq!(locate_sample(1, |_| false), SampleSpan::Start);
}
