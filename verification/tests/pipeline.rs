use rustyroad::error::Error;
use rustyroad::error::Field;
use rustyroad::pipeline::ChapterResult;
use rustyroad::pipeline::Failure;
use rustyroad::pipeline::Pipeline;
use rustyroad::pipeline::Step;
use rustyroad::story::Chapter;

fn story(n: usize) -> Vec<Chapter> {
    (0..n)
        .map(|i| Chapter { name: format!("Chapter {}", i), link: format!("/chapter/{}", i) })
        .collect()
}

fn texts(n: usize) -> Vec<Result<String, Error>> {
    (0..n).map(|i| Ok(format!("<p>{}</p>", i))).collect()
}

/// What a run did, as its driver saw it.
struct Run {
    delivered: Vec<ChapterResult>,
    failure: Option<Failure<Error>>,
    fetched: Vec<(usize, String)>,
    most_in_flight: usize,
}

/// Drives a pipeline to its end. Whenever it has to wait, the unit of work
/// that `pick` chooses among those in flight ends, with the outcome that
/// `outcomes` holds for its chapter.
fn drive(
    chapters: Vec<Chapter>,
    concurrency: usize,
    outcomes: &[Result<String, Error>],
    mut pick: impl FnMut(&[usize]) -> usize,
) -> Run {
    let mut pipeline: Pipeline<Error> = Pipeline::new(chapters, concurrency).unwrap();
    let mut run = Run { delivered: vec![], failure: None, fetched: vec![], most_in_flight: 0 };
    let mut in_flight: Vec<usize> = vec![];
    loop {
        assert_eq!(pipeline.in_flight(), in_flight.len());
        assert!(pipeline.in_flight() <= pipeline.concurrency());
        assert_eq!(pipeline.delivered(), run.delivered.len());
        match pipeline.poll() {
            Step::Fetch { index, link } => {
                in_flight.push(index);
                run.fetched.push((index, link));
                run.most_in_flight = run.most_in_flight.max(in_flight.len());
            }
            Step::Deliver(result) => run.delivered.push(result),
            Step::Wait => {
                assert!(!in_flight.is_empty());
                let at = pick(&in_flight);
                let index = in_flight.remove(at);
                assert!(pipeline.complete(index, outcomes[index].clone()));
            }
            Step::Finished => return run,
            Step::Failed(failure) => {
                run.failure = Some(failure);
                assert!(pipeline.has_failed());
                assert!(matches!(pipeline.poll(), Step::Halted));
                return run;
            }
            Step::Halted => panic!("halted before any failure"),
        }
    }
}

fn oldest(_: &[usize]) -> usize {
    0
}

fn newest(in_flight: &[usize]) -> usize {
    in_flight.len() - 1
}

fn assert_in_order(run: &Run, n: usize) {
    assert_eq!(run.delivered.len(), n);
    for (i, result) in run.delivered.iter().enumerate() {
        assert_eq!(result.index, i);
        assert_eq!(result.chapter.name, format!("Chapter {}", i));
        assert_eq!(result.chapter.link, format!("/chapter/{}", i));
        assert_eq!(result.content, format!("<p>{}</p>", i));
    }
}

fn assert_fetched_once_in_order(run: &Run) {
    for (i, (index, link)) in run.fetched.iter().enumerate() {
        assert_eq!(*index, i);
        assert_eq!(*link, format!("/chapter/{}", i));
    }
}

#[test]
fn zero_concurrency_is_a_config_error() {
    assert_eq!(Pipeline::<Error>::new(story(3), 0).err(), Some(Error::Config));
    assert_eq!(Pipeline::<Error>::new(story(0), 0).err(), Some(Error::Config));
}

#[test]
fn empty_story_finishes_without_a_fetch() {
    for concurrency in [1, 5] {
        let mut pipeline: Pipeline<Error> = Pipeline::new(vec![], concurrency).unwrap();
        assert!(matches!(pipeline.poll(), Step::Finished));
        assert!(matches!(pipeline.poll(), Step::Finished));
        assert_eq!(pipeline.admitted(), 0);
        assert_eq!(pipeline.delivered(), 0);
        assert_eq!(pipeline.len(), 0);
    }
}

#[test]
fn delivers_in_order_when_units_end_in_order() {
    for n in 1..8 {
        for concurrency in 1..=n {
            let run = drive(story(n), concurrency, &texts(n), oldest);
            assert!(run.failure.is_none());
            assert_in_order(&run, n);
            assert_fetched_once_in_order(&run);
            assert_eq!(run.fetched.len(), n);
            assert_eq!(run.most_in_flight, concurrency);
        }
    }
}

#[test]
fn delivers_in_order_when_units_end_in_reverse() {
    for n in 1..8 {
        for concurrency in 1..=n + 2 {
            let run = drive(story(n), concurrency, &texts(n), newest);
            assert!(run.failure.is_none());
            assert_in_order(&run, n);
            assert_fetched_once_in_order(&run);
            assert_eq!(run.fetched.len(), n);
            assert_eq!(run.most_in_flight, concurrency.min(n));
        }
    }
}

#[test]
fn delivers_in_order_under_every_mix_of_ends() {
    let n = 6;
    for seed in 0..200usize {
        let mut state = seed * 2654435761 + 1;
        let pick = |in_flight: &[usize]| {
            state = state.wrapping_mul(6364136223846793005).wrapping_add(1442695040888963407);
            (state >> 33) % in_flight.len()
        };
        let run = drive(story(n), 1 + seed % 4, &texts(n), pick);
        assert!(run.failure.is_none());
        assert_in_order(&run, n);
        assert_fetched_once_in_order(&run);
    }
}

#[test]
fn a_late_first_chapter_holds_the_others_back() {
    let mut pipeline: Pipeline<Error> = Pipeline::new(story(3), 3).unwrap();
    assert!(matches!(pipeline.poll(), Step::Fetch { index: 0, .. }));
    assert!(matches!(pipeline.poll(), Step::Fetch { index: 1, .. }));
    assert!(matches!(pipeline.poll(), Step::Fetch { index: 2, .. }));
    assert!(matches!(pipeline.poll(), Step::Wait));
    assert!(pipeline.complete(2, Ok("two".to_string())));
    assert!(matches!(pipeline.poll(), Step::Wait));
    assert!(pipeline.complete(1, Ok("one".to_string())));
    assert!(matches!(pipeline.poll(), Step::Wait));
    assert_eq!(pipeline.in_flight(), 1);
    assert_eq!(pipeline.delivered(), 0);
    assert!(pipeline.complete(0, Ok("zero".to_string())));
    for (index, content) in ["zero", "one", "two"].iter().enumerate() {
        match pipeline.poll() {
            Step::Deliver(result) => {
                assert_eq!(result.index, index);
                assert_eq!(result.content, *content);
            }
            _ => panic!("chapter {} was not delivered", index),
        }
    }
    assert!(matches!(pipeline.poll(), Step::Finished));
}

#[test]
fn admits_the_next_chapter_when_a_unit_ends() {
    let mut pipeline: Pipeline<Error> = Pipeline::new(story(4), 2).unwrap();
    assert!(matches!(pipeline.poll(), Step::Fetch { index: 0, .. }));
    assert!(matches!(pipeline.poll(), Step::Fetch { index: 1, .. }));
    assert!(matches!(pipeline.poll(), Step::Wait));
    assert_eq!(pipeline.in_flight(), 2);
    assert!(pipeline.complete(1, Ok("one".to_string())));
    assert_eq!(pipeline.in_flight(), 1);
    assert!(matches!(pipeline.poll(), Step::Fetch { index: 2, .. }));
    assert!(matches!(pipeline.poll(), Step::Wait));
    assert_eq!(pipeline.admitted(), 3);
    assert_eq!(pipeline.in_flight(), 2);
}

#[test]
fn a_report_for_no_unit_in_flight_changes_nothing() {
    let mut pipeline: Pipeline<Error> = Pipeline::new(story(3), 2).unwrap();
    assert!(!pipeline.complete(0, Ok("early".to_string())));
    assert!(matches!(pipeline.poll(), Step::Fetch { index: 0, .. }));
    assert!(!pipeline.complete(1, Ok("not admitted".to_string())));
    assert!(!pipeline.complete(7, Ok("no such chapter".to_string())));
    assert!(pipeline.complete(0, Ok("zero".to_string())));
    assert!(!pipeline.complete(0, Ok("again".to_string())));
    match pipeline.poll() {
        Step::Deliver(result) => assert_eq!(result.content, "zero"),
        _ => panic!("chapter 0 was not delivered"),
    }
    assert!(!pipeline.complete(0, Ok("after delivery".to_string())));
    assert_eq!(pipeline.in_flight(), 0);
}

#[test]
fn failure_names_the_failing_chapter() {
    let n = 5;
    for k in 0..n {
        for concurrency in 1..=n {
            for reverse in [false, true] {
                let mut outcomes = texts(n);
                outcomes[k] = Err(Error::Network);
                let run = if reverse {
                    drive(story(n), concurrency, &outcomes, newest)
                } else {
                    drive(story(n), concurrency, &outcomes, oldest)
                };
                let failure = run.failure.as_ref().unwrap();
                assert_eq!(failure.index, k);
                assert_eq!(failure.error, Error::Network);
                assert_in_order(&run, k);
                assert_fetched_once_in_order(&run);
                assert!(run.fetched.len() <= n);
            }
        }
    }
}

#[test]
fn the_first_failure_by_index_wins() {
    let mut outcomes = texts(4);
    outcomes[1] = Err(Error::Extraction(Field::ChapterContent));
    outcomes[3] = Err(Error::Network);
    for run in [drive(story(4), 4, &outcomes, newest), drive(story(4), 4, &outcomes, oldest)] {
        let failure = run.failure.as_ref().unwrap();
        assert_eq!(failure.index, 1);
        assert_eq!(failure.error, Error::Extraction(Field::ChapterContent));
        assert_in_order(&run, 1);
    }
}

#[test]
fn no_chapter_is_admitted_after_an_error() {
    let mut pipeline: Pipeline<Error> = Pipeline::new(story(5), 2).unwrap();
    assert!(matches!(pipeline.poll(), Step::Fetch { index: 0, .. }));
    assert!(matches!(pipeline.poll(), Step::Fetch { index: 1, .. }));
    assert!(pipeline.complete(1, Err(Error::Network)));
    assert!(matches!(pipeline.poll(), Step::Wait));
    assert_eq!(pipeline.admitted(), 2);
    assert!(pipeline.complete(0, Ok("zero".to_string())));
    assert!(matches!(pipeline.poll(), Step::Deliver(_)));
    match pipeline.poll() {
        Step::Failed(failure) => {
            assert_eq!(failure.index, 1);
            assert_eq!(failure.error, Error::Network);
        }
        _ => panic!("the run did not fail"),
    }
    assert!(matches!(pipeline.poll(), Step::Halted));
    assert!(!pipeline.complete(2, Ok("late".to_string())));
    assert!(matches!(pipeline.poll(), Step::Halted));
    assert_eq!(pipeline.delivered(), 1);
}

#[test]
fn a_late_last_chapter_still_comes_last() {
    let outcomes = texts(3);
    let mut waits = 0;
    let pick = |in_flight: &[usize]| {
        waits += 1;
        in_flight.iter().position(|&index| index != 2).unwrap_or(0)
    };
    let run = drive(story(3), 2, &outcomes, pick);
    assert!(run.failure.is_none());
    assert_in_order(&run, 3);
    assert_eq!(run.fetched.len(), 3);
    assert!(run.most_in_flight <= 2);
}

#[test]
fn the_error_type_is_the_callers() {
    let mut pipeline: Pipeline<String> = Pipeline::new(story(1), 1).unwrap();
    assert!(matches!(pipeline.poll(), Step::Fetch { index: 0, .. }));
    assert!(pipeline.complete(0, Err("timed out".to_string())));
    match pipeline.poll() {
        Step::Failed(failure) => {
            assert_eq!(failure.index, 0);
            assert_eq!(failure.error, "timed out");
        }
        _ => panic!("the run did not fail"),
    }
}
