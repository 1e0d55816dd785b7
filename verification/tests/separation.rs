use vocal_magic::models::source_separation::{
    batch_view, chunk_audio, chunk_view, crop_view, demix_track, full_chunk_samples, full_run_fits, infer_chunks,
    load_audio, output_view, pad_chunk_to_model_size, part_view, part_window, plane_view,
    reflect_pad_for_overlap, restore_audio, restored_shape, run_full, run_wsa,
    scatter_add_overlap, windowing_array, write_stems, wsa_chunk_samples, wsa_run_fits, Batch, ChannelPlan,
    DemixPart, PartPadding, Weight, WindowKind,
};
use vocal_magic::models::{vocal2midi, vocal_enhance};

#[test]
fn reflection_on_both_sides() {
    assert_eq!(reflect_pad_for_overlap(5, 2), vec![2, 1, 0, 1, 2, 3, 4, 3, 2]);
    assert_eq!(reflect_pad_for_overlap(3, 0), vec![0, 1, 2]);
}

#[test]
fn cropping_undoes_padding() {
    let padded = reflect_pad_for_overlap(7, 3);
    assert_eq!(padded.len(), 13);
    assert_eq!(padded[3..10].to_vec(), vec![0, 1, 2, 3, 4, 5, 6]);
}

#[test]
fn parts_are_filled_up() {
    assert!(matches!(pad_chunk_to_model_size(8, 8), PartPadding::Whole));
    match pad_chunk_to_model_size(6, 8) {
        PartPadding::Reflect(indices) => assert_eq!(indices, vec![0, 1, 2, 3, 4, 5, 4, 3]),
        _ => panic!("not reflected"),
    }
    match pad_chunk_to_model_size(5, 8) {
        PartPadding::Zeros(n) => assert_eq!(n, 3),
        _ => panic!("not zeros"),
    }
}

#[test]
fn addresses_of_an_overlap() {
    assert_eq!(scatter_add_overlap(3, 2, 10), vec![3, 4, 13, 14]);
    assert_eq!(scatter_add_overlap(0, 0, 10), Vec::<i64>::new());
}

#[test]
fn windows_fade_at_both_ends() {
    let w = windowing_array(40);
    assert_eq!(w.denominator, 3);
    assert_eq!(w.weights.len(), 40);
    assert_eq!(w.weights[0], Weight::Fade(0));
    assert_eq!(w.weights[3], Weight::Fade(3));
    assert_eq!(w.weights[4], Weight::One);
    assert_eq!(w.weights[35], Weight::One);
    assert_eq!(w.weights[36], Weight::Fade(3));
    assert_eq!(w.weights[39], Weight::Fade(0));
}

#[test]
fn the_first_and_the_last_window_keep_their_end() {
    let first = part_window(WindowKind::First, 40, 40);
    assert_eq!(first.weights[0], Weight::One);
    assert_eq!(first.weights[39], Weight::Fade(0));
    let last = part_window(WindowKind::Last, 40, 38);
    assert_eq!(last.weights.len(), 38);
    assert_eq!(last.weights[0], Weight::Fade(0));
    assert_eq!(last.weights[37], Weight::One);
}

#[test]
fn parts_of_a_long_signal() {
    let plan = demix_track(100, 2, 40);
    assert_eq!((plan.step, plan.border, plan.original_len), (20, 20, 100));
    assert!(plan.padded);
    assert_eq!(plan.total_length, 140);
    let offsets: Vec<i32> = plan.parts.iter().map(|p| p.offset).collect();
    assert_eq!(offsets, vec![0, 20, 40, 60, 80, 100, 120]);
    assert_eq!(plan.parts[0].window, WindowKind::First);
    assert_eq!(plan.parts[1].window, WindowKind::Middle);
    assert_eq!(plan.parts[4].window, WindowKind::Middle);
    assert_eq!(plan.parts[5].window, WindowKind::Last);
    assert_eq!(plan.parts[6], DemixPart { offset: 120, length: 20, window: WindowKind::Last });
}

#[test]
fn parts_of_a_short_signal() {
    let plan = demix_track(40, 2, 40);
    assert!(!plan.padded);
    assert_eq!(plan.total_length, 40);
    assert_eq!(plan.parts.len(), 2);
    assert_eq!(plan.parts[0], DemixPart { offset: 0, length: 40, window: WindowKind::First });
    assert_eq!(plan.parts[1], DemixPart { offset: 20, length: 20, window: WindowKind::Last });
    assert_eq!(demix_track(0, 2, 40).parts.len(), 0);
}

#[test]
fn every_sample_lies_in_a_part_and_has_weight() {
    for len in vec![1, 39, 40, 41, 79, 80, 81, 200] {
        let plan = demix_track(len, 2, 40);
        let mut weight = vec![0i32; plan.total_length as usize];
        for p in &plan.parts {
            let w = part_window(p.window, 40, p.length);
            for t in 0..p.length as usize {
                weight[p.offset as usize + t] += match w.weights[t] {
                    Weight::One => w.denominator,
                    Weight::Fade(n) => n,
                };
            }
        }
        assert!(weight.iter().all(|w| *w > 0), "{len}");
    }
}

#[test]
fn a_single_overlap_leaves_gaps() {
    let plan = demix_track(80, 1, 40);
    assert_eq!(plan.parts.len(), 2);
    let w = part_window(plan.parts[0].window, 40, 40);
    assert_eq!(w.weights[39], Weight::Fade(0));
    let v = part_window(plan.parts[1].window, 40, 40);
    assert_eq!(v.weights[0], Weight::Fade(0));
}

#[test]
fn views_into_planes() {
    let v = plane_view(100, 1, 7, 5);
    assert_eq!((v.shape, v.strides, v.offset), (vec![2, 5], vec![100, 1], 7));
    let part = DemixPart { offset: 20, length: 40, window: WindowKind::Middle };
    let v = part_view(1, 2, &part);
    assert_eq!((v.shape, v.strides, v.offset), (vec![2, 40], vec![1, 2], 40));
    let o = output_view(80, 40, 1, 30);
    assert_eq!((o.shape, o.strides, o.offset), (vec![1, 2, 30], vec![80, 40, 1], 0));
    let long = demix_track(100, 2, 40);
    let c = crop_view(140, 1, &long).unwrap_or_else(|| panic!("no crop"));
    assert_eq!((c.shape, c.strides, c.offset), (vec![2, 100], vec![140, 1], 20));
    assert!(crop_view(40, 1, &demix_track(40, 2, 40)).is_none());
}

#[test]
fn chunks_of_a_signal() {
    let plan = chunk_audio(100, 40);
    assert_eq!((plan.clips, plan.full_samples, plan.padding), (3, 120, 20));
    let exact = chunk_audio(80, 40);
    assert_eq!((exact.clips, exact.full_samples, exact.padding), (2, 80, 0));
    let v = chunk_view(120, 1, &plan);
    assert_eq!((v.shape, v.strides, v.offset), (vec![2, 3, 40], vec![120, 40, 1], 0));
    assert_eq!(restored_shape(3, 2, 40), vec![2, 120]);
    let r = restore_audio(120, 1, 2, 100);
    assert_eq!((r.shape, r.strides, r.offset), (vec![2, 100], vec![120, 1], 0));
}

#[test]
fn batches_of_clips() {
    assert_eq!(
        infer_chunks(10, 4),
        vec![
            Batch { pointer: 0, size: 4 },
            Batch { pointer: 4, size: 4 },
            Batch { pointer: 8, size: 2 },
        ]
    );
    assert_eq!(infer_chunks(0, 4), Vec::new());
    assert_eq!(infer_chunks(4, 4).len(), 1);
    let v = batch_view(80, 40, 1, 2, 40, &Batch { pointer: 4, size: 3 });
    assert_eq!((v.shape, v.strides, v.offset), (vec![3, 2, 40], vec![80, 40, 1], 320));
}

#[test]
fn decoded_files_become_stereo() {
    assert_eq!(load_audio(10, 1), Ok(ChannelPlan::Repeat));
    assert_eq!(load_audio(10, 2), Ok(ChannelPlan::Keep));
    assert_eq!(load_audio(10, 6), Ok(ChannelPlan::FirstTwo));
    assert_eq!(load_audio(0, 2), Err("input audio contains no decoded frames".to_string()));
    assert_eq!(load_audio(10, 0), Err("input audio contains no decoded channels".to_string()));
}

#[test]
fn chunk_sizes_in_samples() {
    assert_eq!(full_chunk_samples(8, 2), Ok(352_800));
    assert_eq!(full_chunk_samples(0, 2), Err("chunk-size must be positive".to_string()));
    assert_eq!(full_chunk_samples(8, 0), Err("overlap must be positive".to_string()));
    assert_eq!(wsa_chunk_samples(1, 4), Ok(44_100));
    assert_eq!(wsa_chunk_samples(-1, 4), Err("chunk-size must be positive".to_string()));
    assert_eq!(wsa_chunk_samples(8, -4), Err("batch-size must be positive".to_string()));
}

#[test]
fn the_overlapping_pipeline() {
    let run = run_full(500_000, 1, 8, 2, "song").unwrap_or_else(|e| panic!("{e}"));
    assert_eq!(run.channels, ChannelPlan::Repeat);
    assert_eq!(run.plan.total_length, 500_000 + 352_800);
    assert_eq!(run.plan.parts.len(), 5);
    assert_eq!(run.outputs[0].name, "song_vocal.wav");
    assert!(run_full(0, 1, 8, 2, "song").is_err());
    assert!(run_full(10, 1, 0, 2, "song").is_err());
}

#[test]
fn the_batched_pipeline() {
    let run = run_wsa(1_000_000, 2, 8, 2, "song").unwrap_or_else(|e| panic!("{e}"));
    assert_eq!(run.channels, ChannelPlan::Keep);
    assert_eq!((run.plan.clips, run.plan.padding), (3, 58_400));
    assert_eq!(run.batches, vec![Batch { pointer: 0, size: 2 }, Batch { pointer: 2, size: 1 }]);
    assert!(run_wsa(10, 0, 8, 2, "song").is_err());
}

#[test]
fn names_of_the_outputs() {
    let stems = write_stems("song");
    let names: Vec<String> = stems.iter().map(|o| o.name.clone()).collect();
    assert_eq!(names, vec!["song_vocal.wav", "song_instrumental.wav"]);
    let labels: Vec<String> = stems.iter().map(|o| o.label.clone()).collect();
    assert_eq!(labels, vec!["Vocal", "Instrumental"]);
    assert!(stems.iter().all(|o| o.kind == "audio"));
    let enhanced = vocal_enhance::run("song");
    assert_eq!(enhanced.len(), 1);
    assert_eq!(enhanced[0].name, "song_enhanced.wav");
    assert_eq!(enhanced[0].kind, "audio");
    assert_eq!(enhanced[0].label, "Enhanced");
    let midi = vocal2midi::run("song");
    assert_eq!(midi.len(), 2);
    assert_eq!(midi[0].name, "song.mid");
    assert_eq!(midi[0].kind, "midi");
    assert_eq!(midi[0].label, "MIDI");
    assert_eq!(midi[1].name, "song.json");
    assert_eq!(midi[1].kind, "json");
    assert_eq!(midi[1].label, "Notes (JSON)");
}

#[test]
fn lengths_that_can_be_counted() {
    assert!(full_run_fits(1_000_000, 2, 8, 2));
    assert!(full_run_fits(usize::MAX, 2, -1, 2));
    assert!(full_run_fits(usize::MAX, 2, 50_000, 0));
    assert!(full_run_fits(usize::MAX, 0, 8, 2));
    assert!(!full_run_fits(1 << 30, 2, 8, 2));
    assert!(!full_run_fits(10, 2, 50_000, 2));
    assert!(!full_run_fits(10, 2, 1, 44_101));
    assert!(full_run_fits(10, 2, 1, 44_100));
    assert!(full_run_fits(1_000, 2, 48_000, 1));
    assert!(wsa_run_fits(2_147_130_847, 2, 8, 4));
    assert!(!wsa_run_fits(2_147_130_848, 2, 8, 4));
    assert!(wsa_run_fits(2_147_130_848, 0, 8, 4));
    assert!(!wsa_run_fits(0, 2, 50_000, 4));
    assert!(wsa_run_fits(0, 2, 50_000, 0));
    assert_eq!(full_chunk_samples(50_000, 0), Err("overlap must be positive".to_string()));
    assert_eq!(wsa_chunk_samples(50_000, 0), Err("batch-size must be positive".to_string()));
    assert!(matches!(pad_chunk_to_model_size(0, 8), PartPadding::Zeros(8)));
    assert!(matches!(pad_chunk_to_model_size(i32::MAX, i32::MAX), PartPadding::Whole));
    assert_eq!(demix_track(1, 1, i32::MAX).parts.len(), 1);
}

#[test]
fn a_model_that_changes_nothing_gives_the_signal_back() {
    for len in vec![1i32, 7, 39, 40, 41, 80, 81, 200] {
        let signal: Vec<i64> = (0..len as i64).map(|t| t * t + 3).collect();
        let plan = demix_track(len, 2, 40);
        let mix: Vec<i64> = if plan.padded {
            reflect_pad_for_overlap(len, plan.border).iter().map(|i| signal[*i as usize]).collect()
        } else {
            signal.clone()
        };
        let total = plan.total_length as usize;
        assert_eq!(mix.len(), total);
        let mut sum = vec![0i64; 2 * total];
        let mut counter = vec![0i64; 2 * total];
        for p in &plan.parts {
            let part: Vec<i64> = mix[p.offset as usize..(p.offset + p.length) as usize].to_vec();
            let output: Vec<i64> = match pad_chunk_to_model_size(p.length, 40) {
                PartPadding::Whole => part,
                PartPadding::Reflect(indices) => indices.iter().map(|i| part[*i as usize]).collect(),
                PartPadding::Zeros(n) => {
                    let mut out = part;
                    out.extend(vec![0i64; n as usize]);
                    out
                }
            };
            assert_eq!(output.len(), 40);
            let w = part_window(p.window, 40, p.length);
            let places = scatter_add_overlap(p.offset, p.length, plan.total_length);
            for (j, place) in places.iter().enumerate() {
                let pos = j % p.length as usize;
                let weight = match w.weights[pos] {
                    Weight::One => w.denominator as i64,
                    Weight::Fade(n) => n as i64,
                };
                sum[*place as usize] += weight * output[pos];
                counter[*place as usize] += weight;
            }
        }
        let start = crop_view(total, 1, &plan).map_or(0, |v| v.offset);
        for c in 0..2usize {
            for t in 0..len as usize {
                let at = c * total + start + t;
                assert!(counter[at] > 0);
                assert_eq!(sum[at], signal[t] * counter[at], "{len} {c} {t}");
            }
        }
    }
}
