use comic_encoder::calc::{ceil_div, decimal_digits};
use comic_encoder::error::EncodingError;
use comic_encoder::plan::{
    batch_chapters_into_volumes, check_range, plan_volumes, resolve_selection, Chapter, Method,
};

fn sources(plan: &comic_encoder::plan::CompilationPlan) -> Vec<Vec<usize>> {
    plan.volumes
        .iter()
        .map(|batch| batch.chapters.iter().map(|chapter| chapter.source + 1).collect())
        .collect()
}

#[test]
fn ceiling_division() {
    assert_eq!(2 / 3, 0);
    assert_eq!(ceil_div(2, 3), 1);
    assert_eq!(ceil_div(0, 3), 0);
    assert_eq!(ceil_div(3, 3), 1);
    assert_eq!(ceil_div(4, 3), 2);
    assert_eq!(ceil_div(10, 1), 10);
    assert_eq!(ceil_div(usize::MAX, 1), usize::MAX);
    assert_eq!(ceil_div(usize::MAX, usize::MAX), 1);
}

#[test]
fn decimal_widths() {
    assert_eq!(decimal_digits(0), 1);
    assert_eq!(decimal_digits(7), 1);
    assert_eq!(decimal_digits(9), 1);
    assert_eq!(decimal_digits(10), 2);
    assert_eq!(decimal_digits(1234), 4);
    assert_eq!(decimal_digits(usize::MAX), usize::MAX.to_string().len());
}

#[test]
fn chapters_3_to_7_out_of_10_in_volumes_of_2() {
    assert_eq!(resolve_selection(Method::Compile(2), Some(3), Some(7), 10), (2, 5));
    let plan = plan_volumes(Method::Compile(2), Some(3), Some(7), 10).unwrap();
    assert_eq!(plan.selected_end - plan.selected_start, 5);
    assert_eq!(sources(&plan), vec![vec![3, 4], vec![5, 6], vec![7]]);
    assert_eq!(plan.volumes[0].volume_index, 1);
    assert_eq!(plan.volumes[1].volume_index, 2);
    assert_eq!(plan.volumes[2].volume_index, 3);
    assert_eq!(plan.volumes[0].starting_chapter_ordinal, 1);
    assert_eq!(plan.volumes[1].starting_chapter_ordinal, 3);
    assert_eq!(plan.volumes[2].starting_chapter_ordinal, 5);
    assert_eq!(plan.volumes[2].chapters, vec![Chapter { ordinal: 5, source: 6 }]);
    assert_eq!(plan.total_chapters_available, 10);
    assert_eq!(plan.chapters_per_volume, 2);
    assert_eq!(plan.volume_number_width, 1);
    assert_eq!(plan.chapter_number_width, 2);
}

#[test]
fn widths_come_from_the_chapters_found() {
    let plan = plan_volumes(Method::Compile(1), Some(1), Some(2), 1234).unwrap();
    assert_eq!(plan.chapter_number_width, 4);
    assert_eq!(plan.volume_number_width, 4);
    assert_eq!(plan.volumes.len(), 2);
    let plan = plan_volumes(Method::Compile(100), None, None, 1234).unwrap();
    assert_eq!(plan.chapter_number_width, 4);
    assert_eq!(plan.volume_number_width, 2);
    assert_eq!(plan.volumes.len(), 13);
}

#[test]
fn batching_splits_into_full_volumes_and_a_rest() {
    for count in 0..40usize {
        for size in 1..9usize {
            let volumes = batch_chapters_into_volumes(5, count, size);
            assert_eq!(volumes.len(), (count + size - 1) / size);
            let mut all = Vec::new();
            for (v, batch) in volumes.iter().enumerate() {
                assert_eq!(batch.volume_index, v + 1);
                assert_eq!(batch.starting_chapter_ordinal, v * size + 1);
                assert!(1 <= batch.chapters.len() && batch.chapters.len() <= size);
                if v + 1 < volumes.len() {
                    assert_eq!(batch.chapters.len(), size);
                }
                all.extend(batch.chapters.iter().copied());
            }
            let expected: Vec<Chapter> =
                (0..count).map(|i| Chapter { ordinal: i + 1, source: 5 + i }).collect();
            assert_eq!(all, expected);
        }
    }
}

#[test]
fn faulty_ranges_are_refused_in_order() {
    assert_eq!(check_range(Method::Compile(0), Some(0), Some(0)), Err(EncodingError::AtLeast1ChapterPerVolume));
    assert_eq!(check_range(Method::Compile(2), Some(0), Some(0)), Err(EncodingError::InvalidStartChapter));
    assert_eq!(check_range(Method::Individual, Some(0), None), Err(EncodingError::InvalidStartChapter));
    assert_eq!(check_range(Method::Compile(2), Some(1), Some(0)), Err(EncodingError::InvalidEndChapter));
    assert_eq!(check_range(Method::Single, None, Some(0)), Err(EncodingError::InvalidEndChapter));
    assert_eq!(
        check_range(Method::Compile(2), Some(5), Some(4)),
        Err(EncodingError::StartChapterCannotBeHigherThanEndChapter)
    );
    assert_eq!(check_range(Method::Compile(2), Some(5), Some(5)), Ok(()));
    assert_eq!(check_range(Method::Compile(2), None, None), Ok(()));
    assert_eq!(
        plan_volumes(Method::Compile(0), None, None, 3),
        Err(EncodingError::AtLeast1ChapterPerVolume)
    );
    assert_eq!(
        plan_volumes(Method::Compile(3), Some(4), Some(2), 9),
        Err(EncodingError::StartChapterCannotBeHigherThanEndChapter)
    );
}

#[test]
fn an_empty_selection_gives_no_volume() {
    let plan = plan_volumes(Method::Compile(3), None, None, 0).unwrap();
    assert!(plan.volumes.is_empty());
    assert_eq!(plan.volume_number_width, 1);
    assert_eq!(plan.chapter_number_width, 1);
    let plan = plan_volumes(Method::Compile(3), Some(11), None, 10).unwrap();
    assert!(plan.volumes.is_empty());
    let plan = plan_volumes(Method::Compile(3), Some(40), Some(50), 10).unwrap();
    assert!(plan.volumes.is_empty());
    assert_eq!(resolve_selection(Method::Compile(3), Some(8), None, 10), (7, 0));
}

#[test]
fn the_end_is_cut_to_what_is_left_behind_the_start() {
    assert_eq!(resolve_selection(Method::Compile(2), None, None, 10), (0, 10));
    assert_eq!(resolve_selection(Method::Compile(2), None, Some(4), 10), (0, 4));
    assert_eq!(resolve_selection(Method::Compile(2), Some(3), Some(20), 10), (2, 6));
    assert_eq!(resolve_selection(Method::Compile(2), Some(3), None, 10), (2, 6));
    assert_eq!(resolve_selection(Method::Compile(2), Some(6), None, 10), (5, 0));
}

#[test]
fn one_volume_per_chapter() {
    let plan = plan_volumes(Method::Individual, None, None, 4).unwrap();
    assert_eq!(sources(&plan), vec![vec![1], vec![2], vec![3], vec![4]]);
    assert_eq!(plan.volume_number_width, 1);
}

#[test]
fn a_single_volume_takes_all_chapters() {
    let plan = plan_volumes(Method::Single, None, None, 4).unwrap();
    assert_eq!(sources(&plan), vec![vec![1, 2, 3, 4]]);
    assert_eq!(plan.chapters_per_volume, 65535);
    let plan = plan_volumes(Method::Single, None, None, 70000).unwrap();
    assert_eq!(plan.volumes.len(), 1);
    assert_eq!(plan.volumes[0].chapters.len(), 65535);
    let plan = plan_volumes(Method::Single, Some(2), None, 140000).unwrap();
    assert_eq!(plan.volumes.len(), 1);
    assert_eq!(plan.volumes[0].chapters.len(), 65535);
    assert_eq!(plan.volumes[0].chapters[0], Chapter { ordinal: 1, source: 1 });
    assert_eq!(Method::Single.chapters_per_volume(), u16::MAX);
    assert_eq!(Method::Individual.chapters_per_volume(), 1);
    assert_eq!(Method::Compile(12).chapters_per_volume(), 12);
}
