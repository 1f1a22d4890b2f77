use voxel_stream::spiral::Spiral;
use voxel_stream::task::TaskWrapper;

#[test]
fn spiral_first_ring_positions() {
    // Steps 0..7 walk the first ring (radius 1) around the origin.
    let expected = [
        (0, -1, 1),
        (1, -1, 1),
        (1, 0, 1),
        (1, 1, 1),
        (0, 1, 1),
        (-1, 1, 1),
        (-1, 0, 1),
        (-1, -1, 1),
    ];
    for (n, e) in expected.iter().enumerate() {
        let spiral = Spiral::new(n as i32);
        assert_eq!(spiral.calculate_position(n as i32), *e);
    }
}

#[test]
fn spiral_second_ring_starts_after_eight_steps() {
    // Step 8 lands on the ring of radius 2.
    let spiral = Spiral::new(8);
    assert_eq!(spiral.calculate_position(8), (-1, -2, 2));
    let spiral = Spiral::new(23);
    assert_eq!(spiral.calculate_position(23), (-2, -2, 2));
}

#[test]
fn task_wrapper_completes_once_and_is_taken() {
    let mut task: TaskWrapper<u32> = TaskWrapper::new();
    assert!(!task.is_finished());
    assert_eq!(task.take(), None);
    task.complete(42);
    assert!(task.is_finished());
    assert_eq!(task.take(), Some(42));
    assert!(!task.is_finished());
    assert_eq!(task.take(), None);
}
