use omn_labs::sprites::aseprite::{Dimensions, ExportData, Meta};
use omn_labs::sprites::{
    AnimationClipTemplate, ClipStore, Direction, Frame, FrameTag, PlayMode, Region, SheetError,
};

fn frame(x: i32, y: i32, duration: u32) -> Frame {
    Frame {
        duration,
        bbox: Region {
            x,
            y,
            width: 32,
            height: 32,
        },
    }
}

fn tag(name: &str, from: usize, to: usize, direction: &str) -> FrameTag {
    FrameTag {
        name: name.to_string(),
        from,
        to,
        direction: direction.to_string(),
    }
}

fn sheet(frames: Vec<Frame>, tags: Vec<FrameTag>, width: i32, height: i32) -> ExportData {
    ExportData {
        frames,
        meta: Meta {
            frame_tags: tags,
            size: Dimensions { width, height },
        },
    }
}

/// A sheet with a 2 frame clip, durations 10 and 20.
fn get_two_sheet() -> ExportData {
    sheet(
        vec![frame(0, 0, 10), frame(32, 0, 20)],
        vec![tag("Alpha", 0, 1, "forward")],
        64,
        32,
    )
}

/// A 30-frame digit-matrix sheet with three ten-frame tags.
fn get_numbers_sheet() -> ExportData {
    let mut frames = Vec::new();
    for i in 0..30 {
        frames.push(frame((i % 10) * 32, (i / 10) * 32, 100));
    }
    sheet(
        frames,
        vec![
            tag("Alpha", 0, 9, "forward"),
            tag("Beta", 10, 19, "forward"),
            tag("Gamma", 20, 29, "forward"),
        ],
        320,
        96,
    )
}

/// A 21-frame pitcher sheet with four tags.
fn get_pitcher_sheet() -> ExportData {
    let durations: [u32; 21] = [
        100, 100, 100, 100, 100, 100, 100, 100, 1000, 200, 400, 200, 150, 150, 100, 100, 100, 100,
        100, 100, 100,
    ];
    let mut frames = Vec::new();
    for (i, d) in durations.iter().enumerate() {
        let x = (i as i32 / 3) * 257;
        let y = (i as i32 % 3) * 257;
        frames.push(Frame {
            duration: *d,
            bbox: Region {
                x,
                y,
                width: 256,
                height: 256,
            },
        });
    }
    sheet(
        frames,
        vec![
            tag("Ready", 0, 7, "forward"),
            tag("Winding", 8, 13, "forward"),
            tag("Pitching", 14, 17, "forward"),
            tag("Not Ready", 18, 20, "forward"),
        ],
        2048,
        1024,
    )
}

#[test]
fn test_read_from_file() {
    let sheet = get_numbers_sheet();
    let clips = ClipStore::new(&sheet).unwrap();

    let alpha = clips.create("Alpha", PlayMode::Loop).unwrap();
    let beta = clips.create("Beta", PlayMode::Loop).unwrap();
    let gamma = clips.create("Gamma", PlayMode::Loop).unwrap();
    assert_eq!(alpha.get_cell(), Some(0));
    assert_eq!(beta.get_cell(), Some(10));
    assert_eq!(gamma.get_cell(), Some(20));
}

#[test]
fn test_clips_are_distinct() {
    let sheet = get_numbers_sheet();
    let clips = ClipStore::new(&sheet).unwrap();

    // Each time we get a named clip, we're creating a new instance, and each
    // have their own internal clock.
    let mut alpha1 = clips.create("Alpha", PlayMode::Loop).unwrap();
    let mut alpha2 = clips.create("Alpha", PlayMode::Loop).unwrap();

    alpha1.update(20);
    alpha2.update(120);

    assert_eq!(alpha1.get_cell(), Some(0));
    assert_eq!(alpha2.get_cell(), Some(1));
}

#[test]
fn test_clip_cell_count() {
    let sheet = get_two_sheet();
    let clips = ClipStore::new(&sheet).unwrap();

    let alpha1 = clips.create("Alpha", PlayMode::Loop).unwrap();
    assert_eq!(alpha1.cells.len(), 2);
}

#[test]
fn test_clip_duration() {
    let sheet = get_two_sheet();
    let clips = ClipStore::new(&sheet).unwrap();

    let alpha1 = clips.create("Alpha", PlayMode::Loop).unwrap();
    assert_eq!(alpha1.duration, 30);
}

#[test]
fn test_oneshot_bounds() {
    let sheet = get_two_sheet();
    let clips = ClipStore::new(&sheet).unwrap();

    let mut alpha1 = clips.create("Alpha", PlayMode::OneShot).unwrap();

    assert_eq!(alpha1.get_cell(), Some(0));

    alpha1.update(10);
    assert_eq!(alpha1.get_cell(), Some(0));

    alpha1.update(1);
    assert_eq!(alpha1.get_cell(), Some(1));

    alpha1.update(19);
    assert_eq!(alpha1.get_cell(), Some(1));

    // we should be at the end of the clip at this point
    assert_eq!(alpha1.current_time, alpha1.duration);

    alpha1.update(1);
    assert_eq!(alpha1.get_cell(), None);
}

#[test]
fn test_hold_bounds() {
    let sheet = get_two_sheet();
    let clips = ClipStore::new(&sheet).unwrap();

    let mut alpha1 = clips.create("Alpha", PlayMode::Hold).unwrap();

    assert_eq!(alpha1.get_cell(), Some(0));

    alpha1.update(10);
    assert_eq!(alpha1.get_cell(), Some(0));

    alpha1.update(1);
    assert_eq!(alpha1.get_cell(), Some(1));

    alpha1.update(19);
    assert_eq!(alpha1.get_cell(), Some(1));

    // we should be at the end of the clip at this point
    assert_eq!(alpha1.current_time, alpha1.duration);
    assert_eq!(alpha1.drained, false);

    alpha1.update(1);
    assert_eq!(alpha1.drained, true);

    assert_eq!(alpha1.get_cell(), Some(1));
}

#[test]
fn test_deep_clips_report_correct_index() {
    let sheet = get_pitcher_sheet();
    let clips = ClipStore::new(&sheet).unwrap();

    let mut not_ready = clips.create("Not Ready", PlayMode::OneShot).unwrap();

    not_ready.update(100);
    assert_eq!(not_ready.get_cell(), Some(18));
    not_ready.update(100);
    assert_eq!(not_ready.get_cell(), Some(19));
    not_ready.update(100);
    assert_eq!(not_ready.get_cell(), Some(20));
    not_ready.update(100);
    assert_eq!(not_ready.get_cell(), None);
}

#[test]
fn test_template_duration_is_sum() {
    let frames = vec![frame(0, 0, 10), frame(32, 0, 20)];
    let template =
        AnimationClipTemplate::new("Alpha".to_string(), &frames, Direction::Forward, 0).unwrap();
    assert_eq!(template.duration, 30);
    assert_eq!(template.cells.len(), 2);
    assert_eq!(
        template.cells.iter().map(|c| c.duration as u64).sum::<u64>(),
        template.duration
    );
    assert!(template.duration > 0);
}

#[test]
fn test_loop_wraps_after_duration() {
    let sheet = get_two_sheet();
    let clips = ClipStore::new(&sheet).unwrap();

    let mut alpha = clips.create("Alpha", PlayMode::Loop).unwrap();
    assert_eq!(alpha.get_cell(), Some(0));

    alpha.update(10);
    assert_eq!(alpha.get_cell(), Some(0));

    alpha.update(1);
    assert_eq!(alpha.get_cell(), Some(1));

    alpha.update(19);
    assert_eq!(alpha.get_cell(), Some(1));

    // total elapsed time now exceeds the duration of 30; the head wraps
    alpha.update(1);
    assert_eq!(alpha.current_time, 1);
    assert_eq!(alpha.drained, false);
    assert_eq!(alpha.get_cell(), Some(0));
}

#[test]
fn test_loop_periodic_after_full_duration() {
    let sheet = get_two_sheet();
    let clips = ClipStore::new(&sheet).unwrap();

    let mut alpha = clips.create("Alpha", PlayMode::Loop).unwrap();
    alpha.update(11);
    let before = alpha.get_cell();

    alpha.update(alpha.duration);
    assert_eq!(alpha.current_time, 11);
    assert_eq!(alpha.get_cell(), before);
}

#[test]
fn test_oneshot_overflow_drains() {
    let sheet = get_two_sheet();
    let clips = ClipStore::new(&sheet).unwrap();

    let mut alpha = clips.create("Alpha", PlayMode::OneShot).unwrap();
    alpha.update(31);
    assert_eq!(alpha.drained, true);
    assert_eq!(alpha.get_cell(), None);

    alpha.update(5);
    assert_eq!(alpha.drained, true);
    assert_eq!(alpha.get_cell(), None);
}

#[test]
fn test_hold_overflow_reports_last() {
    let sheet = get_two_sheet();
    let clips = ClipStore::new(&sheet).unwrap();

    let mut alpha = clips.create("Alpha", PlayMode::Hold).unwrap();
    alpha.update(31);
    assert_eq!(alpha.drained, true);
    assert_eq!(alpha.get_cell(), Some(1));

    alpha.update(1000);
    assert_eq!(alpha.drained, true);
    assert_eq!(alpha.get_cell(), Some(1));
}

#[test]
fn test_reverse_template_order() {
    let sheet = sheet(
        vec![frame(0, 0, 10), frame(32, 0, 20)],
        vec![tag("Alpha", 0, 1, "reverse")],
        64,
        32,
    );
    let clips = ClipStore::new(&sheet).unwrap();

    let alpha = clips.create("Alpha", PlayMode::Loop).unwrap();
    // reversed iteration order, absolute indices kept per frame
    assert_eq!(alpha.cells.len(), 2);
    assert_eq!(alpha.cells[0].idx, 1);
    assert_eq!(alpha.cells[0].duration, 20);
    assert_eq!(alpha.cells[1].idx, 0);
    assert_eq!(alpha.cells[1].duration, 10);
    assert_eq!(alpha.get_cell(), Some(1));
}

#[test]
fn test_pingpong_duplicates_seam() {
    let sheet = sheet(
        vec![frame(0, 0, 10), frame(32, 0, 20)],
        vec![tag("Alpha", 0, 1, "pingpong")],
        64,
        32,
    );
    let clips = ClipStore::new(&sheet).unwrap();

    let mut alpha = clips.create("Alpha", PlayMode::Loop).unwrap();
    // forward pass then the whole reversed pass: both boundary cells twice
    let cells: Vec<(usize, u32)> = alpha.cells.iter().map(|c| (c.idx, c.duration)).collect();
    assert_eq!(cells, vec![(0, 10), (1, 20), (1, 20), (0, 10)]);
    assert_eq!(alpha.duration, 60);

    assert_eq!(alpha.get_cell(), Some(0));
    alpha.update(11);
    assert_eq!(alpha.get_cell(), Some(1));
    alpha.update(20);
    assert_eq!(alpha.get_cell(), Some(1));
    alpha.update(20);
    assert_eq!(alpha.get_cell(), Some(0));
}

#[test]
fn test_unrecognized_direction_falls_back() {
    let sheet = sheet(
        vec![frame(0, 0, 10), frame(32, 0, 20)],
        vec![tag("Alpha", 0, 1, "sideways")],
        64,
        32,
    );
    let clips = ClipStore::new(&sheet).unwrap();

    let alpha = clips.create("Alpha", PlayMode::Loop).unwrap();
    assert_eq!(alpha.cells.len(), 2);
    assert_eq!(alpha.cells[0].idx, 0);
    assert_eq!(alpha.cells[1].idx, 1);
}

#[test]
fn test_out_of_range_tag_fails_load() {
    let sheet = sheet(
        vec![frame(0, 0, 10), frame(32, 0, 20)],
        vec![tag("Alpha", 0, 5, "forward")],
        64,
        32,
    );
    assert_eq!(ClipStore::new(&sheet).unwrap_err(), SheetError::OutOfRange);
}

#[test]
fn test_inverted_tag_range_fails_load() {
    let sheet = sheet(
        vec![frame(0, 0, 10), frame(32, 0, 20)],
        vec![tag("Alpha", 1, 0, "forward")],
        64,
        32,
    );
    assert_eq!(ClipStore::new(&sheet).unwrap_err(), SheetError::OutOfRange);
}

#[test]
fn test_zero_duration_template_fails_load() {
    let sheet = sheet(
        vec![frame(0, 0, 0), frame(32, 0, 0)],
        vec![tag("Alpha", 0, 1, "forward")],
        64,
        32,
    );
    assert_eq!(ClipStore::new(&sheet).unwrap_err(), SheetError::InvalidTemplate);
}

#[test]
fn test_empty_slice_template_rejected() {
    let frames: Vec<Frame> = Vec::new();
    let result = AnimationClipTemplate::new("Alpha".to_string(), &frames, Direction::Forward, 0);
    assert_eq!(result.unwrap_err(), SheetError::InvalidTemplate);
}

#[test]
fn test_load_is_atomic() {
    // one bad tag fails the whole load, however many good ones stand around it
    let sheet = sheet(
        vec![frame(0, 0, 10), frame(32, 0, 20)],
        vec![
            tag("Alpha", 0, 1, "forward"),
            tag("Beta", 0, 2, "forward"),
            tag("Gamma", 0, 0, "forward"),
        ],
        64,
        32,
    );
    assert_eq!(ClipStore::new(&sheet).unwrap_err(), SheetError::OutOfRange);
}

#[test]
fn test_create_unknown_tag_is_none() {
    let sheet = get_two_sheet();
    let clips = ClipStore::new(&sheet).unwrap();
    assert!(clips.create("Delta", PlayMode::Loop).is_none());
}

#[test]
fn test_duplicate_tag_name_last_wins() {
    let sheet = sheet(
        vec![frame(0, 0, 10), frame(32, 0, 20)],
        vec![tag("Alpha", 0, 1, "forward"), tag("Alpha", 1, 1, "forward")],
        64,
        32,
    );
    let clips = ClipStore::new(&sheet).unwrap();
    let alpha = clips.create("Alpha", PlayMode::Loop).unwrap();
    assert_eq!(alpha.cells.len(), 1);
    assert_eq!(alpha.get_cell(), Some(1));
}

#[test]
fn test_empty_tag_list_loads_empty_store() {
    let sheet = sheet(vec![frame(0, 0, 10)], Vec::new(), 32, 32);
    let clips = ClipStore::new(&sheet).unwrap();
    assert!(clips.create("Alpha", PlayMode::Loop).is_none());
}

#[test]
fn test_set_time_and_reset() {
    let sheet = get_two_sheet();
    let clips = ClipStore::new(&sheet).unwrap();

    let mut alpha = clips.create("Alpha", PlayMode::Loop).unwrap();
    alpha.set_time(25);
    assert_eq!(alpha.current_time, 25);
    assert_eq!(alpha.get_cell(), Some(1));

    alpha.set_time(31);
    assert_eq!(alpha.current_time, 1);
    assert_eq!(alpha.get_cell(), Some(0));

    alpha.set_time(25);
    alpha.reset();
    assert_eq!(alpha.current_time, 0);
    assert_eq!(alpha.get_cell(), Some(0));
}

#[test]
fn test_reset_does_not_undrain() {
    let sheet = get_two_sheet();
    let clips = ClipStore::new(&sheet).unwrap();

    let mut alpha = clips.create("Alpha", PlayMode::Hold).unwrap();
    alpha.set_time(31);
    assert_eq!(alpha.drained, true);
    // resetting moves the play head, but only moving past the end touches
    // the drained flag
    alpha.reset();
    assert_eq!(alpha.current_time, 0);
    assert_eq!(alpha.drained, true);
    assert_eq!(alpha.get_cell(), Some(1));
}

#[test]
fn test_hold_reverse_reports_sequence_last() {
    // a drained non-one-shot head freezes on the last cell of the
    // direction-ordered sequence: under "reverse" that is the range's first
    // frame
    let sheet = sheet(
        vec![frame(0, 0, 10), frame(32, 0, 20)],
        vec![tag("Alpha", 0, 1, "reverse")],
        64,
        32,
    );
    let clips = ClipStore::new(&sheet).unwrap();
    let mut alpha = clips.create("Alpha", PlayMode::Hold).unwrap();
    alpha.update(31);
    assert_eq!(alpha.drained, true);
    assert_eq!(alpha.get_cell(), Some(0));
}

#[test]
fn test_forward_round_trip_preserves_indices() {
    let sheet = get_pitcher_sheet();
    let clips = ClipStore::new(&sheet).unwrap();

    let winding = clips.create("Winding", PlayMode::Loop).unwrap();
    let indices: Vec<usize> = winding.cells.iter().map(|c| c.idx).collect();
    assert_eq!(indices, vec![8, 9, 10, 11, 12, 13]);
    let durations: Vec<u32> = winding.cells.iter().map(|c| c.duration).collect();
    assert_eq!(durations, vec![1000, 200, 400, 200, 150, 150]);
}

#[test]
fn test_update_with_huge_delta() {
    let sheet = get_two_sheet();
    let clips = ClipStore::new(&sheet).unwrap();

    let mut alpha = clips.create("Alpha", PlayMode::Loop).unwrap();
    alpha.update(u64::MAX);
    assert_eq!(alpha.current_time, u64::MAX % 30);
    assert_eq!(alpha.get_cell(), Some(1));
}
