use lumen::coordinator::{chunk_size, plan_chunks, Chunk, ResultBuffer, WORKERS};

#[test]
fn a_chunk_is_a_quarter_of_the_batch_rounded_up() {
    assert_eq!(chunk_size(0), 1);
    assert_eq!(chunk_size(1), 1);
    assert_eq!(chunk_size(4), 1);
    assert_eq!(chunk_size(5), 2);
    assert_eq!(chunk_size(8), 2);
    assert_eq!(chunk_size(9), 3);
    assert_eq!(chunk_size(37), 10);
    assert_eq!(chunk_size(usize::MAX), usize::MAX / 4 + 1);
}

#[test]
fn a_plan_cuts_the_batch_into_consecutive_chunks() {
    assert_eq!(plan_chunks(0), Vec::<Chunk>::new());
    assert_eq!(plan_chunks(1), vec![Chunk { start: 0, end: 1 }]);
    assert_eq!(
        plan_chunks(5),
        vec![Chunk { start: 0, end: 2 }, Chunk { start: 2, end: 4 }, Chunk { start: 4, end: 5 }]
    );
    assert_eq!(
        plan_chunks(37),
        vec![
            Chunk { start: 0, end: 10 },
            Chunk { start: 10, end: 20 },
            Chunk { start: 20, end: 30 },
            Chunk { start: 30, end: 37 },
        ]
    );
}

#[test]
fn a_plan_never_has_more_chunks_than_workers() {
    for n in 0..200 {
        let plan = plan_chunks(n);
        assert!(plan.len() <= WORKERS);
        let mut next = 0;
        for chunk in &plan {
            assert_eq!(chunk.start, next);
            assert!(chunk.start < chunk.end);
            assert!(chunk.end - chunk.start <= chunk_size(n));
            next = chunk.end;
        }
        assert_eq!(next, n);
    }
}

fn squares_of(chunk: &Chunk) -> Vec<Option<usize>> {
    (chunk.start..chunk.end).map(|i| Some(i * i)).collect()
}

#[test]
fn results_come_out_in_input_order_when_later_chunks_finish_first() {
    for n in 1..=37 {
        let plan = plan_chunks(n);
        let mut buffer = ResultBuffer::new();
        for chunk in plan.iter().rev() {
            buffer.absorb(chunk.start, squares_of(chunk));
        }
        let results = buffer.into_results(n);
        let expected: Vec<Option<usize>> = (0..n).map(|i| Some(i * i)).collect();
        assert_eq!(results, expected, "{n}");
    }
}

#[test]
fn results_come_out_in_input_order_for_every_order_of_four_chunks() {
    let n = 11;
    let plan = plan_chunks(n);
    assert_eq!(plan.len(), 4);
    let expected: Vec<Option<usize>> = (0..n).map(|i| Some(i * i)).collect();
    for a in 0..4 {
        for b in 0..4 {
            for c in 0..4 {
                for d in 0..4 {
                    let order = [a, b, c, d];
                    if (0..4).any(|k| !order.contains(&k)) {
                        continue;
                    }
                    let mut buffer = ResultBuffer::new();
                    for k in order {
                        buffer.absorb(plan[k].start, squares_of(&plan[k]));
                    }
                    assert_eq!(buffer.into_results(n), expected);
                }
            }
        }
    }
}

#[test]
fn a_chunk_that_never_comes_in_leaves_its_places_empty() {
    let n = 10;
    let plan = plan_chunks(n);
    let mut buffer = ResultBuffer::new();
    buffer.absorb(plan[0].start, squares_of(&plan[0]));
    buffer.absorb(plan[2].start, squares_of(&plan[2]));
    let results = buffer.into_results(n);
    assert_eq!(
        results,
        vec![Some(0), Some(1), Some(4), None, None, None, Some(36), Some(49), Some(64), None]
    );
}

#[test]
fn a_single_value_is_stored_at_its_place() {
    let mut buffer = ResultBuffer::new();
    buffer.store(3, Some("d"));
    buffer.store(1, Some("b"));
    buffer.store(3, Some("e"));
    assert_eq!(buffer.into_results(5), vec![None, Some("b"), None, Some("e"), None]);
}

#[test]
fn results_are_cut_to_the_batch() {
    let mut buffer = ResultBuffer::new();
    buffer.absorb(0, vec![Some(1), Some(2), Some(3)]);
    assert_eq!(buffer.into_results(2), vec![Some(1), Some(2)]);
    let empty: ResultBuffer<u8> = ResultBuffer::new();
    assert_eq!(empty.into_results(0), Vec::<Option<u8>>::new());
}

#[test]
fn an_empty_delivery_changes_nothing() {
    let mut buffer = ResultBuffer::new();
    buffer.absorb(7, Vec::<Option<u8>>::new());
    assert_eq!(buffer.into_results(1), vec![None]);
}
