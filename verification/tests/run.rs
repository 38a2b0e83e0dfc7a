use vectorium::config::ProcessingConfig;
use vectorium::error::{ErrorKind, IngestError};
use vectorium::ingest::{Event, Ingestion, Request};
use vectorium::model::{IdPolicy, Point, PointId};
use vectorium::text::split_lines;

struct Source {
    path: &'static str,
    name: Option<&'static str>,
    modified: u64,
    content: &'static str,
}

struct Trace {
    result: Option<Result<u64, IngestError>>,
    flushes: Vec<Vec<Point<Vec<f32>>>>,
    embeds: Vec<Vec<String>>,
    opened: Vec<String>,
    skipped: usize,
}

fn config(chunk_size: usize, batch_size: usize) -> ProcessingConfig {
    ProcessingConfig {
        chunk_size,
        batch_size,
        buffer_size: 1024,
        file_extensions: vec!["txt".to_string(), "md".to_string()],
    }
}

fn source(path: &'static str, name: &'static str, content: &'static str) -> Source {
    Source { path, name: Some(name), modified: 7, content }
}

fn vector_for(text: &str) -> Vec<f32> {
    vec![text.len() as f32, 1.0]
}

// Plays the part of the reader, the embedding backend and the index.
fn drive(
    files: &[Source],
    config: &ProcessingConfig,
    policy: IdPolicy,
    start_id: u64,
    fail_embed_at: Option<usize>,
    fail_upsert_at: Option<usize>,
) -> Trace {
    let paths: Vec<String> = files.iter().map(|f| f.path.to_string()).collect();
    let mut run: Ingestion<Vec<f32>> = Ingestion::new(config, policy, start_id, paths).unwrap();
    let mut trace =
        Trace { result: None, flushes: vec![], embeds: vec![], opened: vec![], skipped: 0 };
    let mut lines: Vec<String> = vec![];
    let mut at = 0usize;
    let mut file = 0usize;
    let mut request = run.awaiting();
    let mut steps = 0;
    loop {
        steps += 1;
        assert!(steps < 10_000);
        let event = match request {
            Request::Open => {
                let path = run.current_path().unwrap().clone();
                assert_eq!(path, files[file].path);
                trace.opened.push(path);
                lines = split_lines(files[file].content);
                at = 0;
                let opened = Event::Opened {
                    file_name: files[file].name.map(|n| n.to_string()),
                    last_modified: files[file].modified,
                };
                file += 1;
                opened
            }
            Request::ReadLine => {
                if at < lines.len() {
                    at += 1;
                    Event::Line(lines[at - 1].clone())
                } else {
                    Event::EndOfFile
                }
            }
            Request::Embed => {
                let chunk = run.chunk().clone();
                trace.embeds.push(chunk.clone());
                if fail_embed_at == Some(trace.embeds.len() - 1) {
                    Event::EmbedFailed("model unavailable".to_string())
                } else {
                    Event::Embedded(chunk.iter().map(|t| vector_for(t)).collect())
                }
            }
            Request::Upsert => {
                if fail_upsert_at == Some(trace.flushes.len()) {
                    Event::UpsertFailed("connection refused".to_string())
                } else {
                    trace.flushes.push(run.next_batch().to_vec());
                    Event::Upserted
                }
            }
            Request::Finished | Request::Failed => break,
        };
        let (next, wanted) = run.step(event);
        run = next;
        request = wanted;
    }
    trace.result = run.outcome();
    trace.skipped = run.skipped();
    trace
}

fn numbers(batch: &[Point<Vec<f32>>]) -> Vec<u64> {
    batch
        .iter()
        .map(|p| match &p.id {
            PointId::Number(n) => *n,
            PointId::Digest(_) => panic!("a number was expected"),
        })
        .collect()
}

fn digests(batch: &[Point<Vec<f32>>]) -> Vec<String> {
    batch
        .iter()
        .map(|p| match &p.id {
            PointId::Digest(d) => d.clone(),
            PointId::Number(_) => panic!("a digest was expected"),
        })
        .collect()
}

fn texts(batch: &[Point<Vec<f32>>]) -> Vec<String> {
    batch.iter().map(|p| p.payload.text.clone()).collect()
}

#[test]
fn three_lines_two_chunks_one_flush() {
    let files = [source("data/a.txt", "a.txt", "x\ny\nz\n")];
    let trace = drive(&files, &config(2, 10), IdPolicy::Counter, 0, None, None);
    assert_eq!(trace.result, Some(Ok(3)));
    assert_eq!(trace.embeds, vec![vec!["x".to_string(), "y".to_string()], vec!["z".to_string()]]);
    assert_eq!(trace.flushes.len(), 1);
    assert_eq!(numbers(&trace.flushes[0]), vec![1, 2, 3]);
    assert_eq!(texts(&trace.flushes[0]), vec!["x", "y", "z"]);
    assert_eq!(trace.skipped, 0);
    for p in &trace.flushes[0] {
        assert_eq!(p.payload.title, "a.txt");
        assert_eq!(p.payload.last_modified, 7);
        assert_eq!(p.payload.preview, p.payload.text);
        assert_eq!(p.vector, vector_for(&p.payload.text));
    }
}

#[test]
fn test_upsert_documents_from_directory_simple() {
    let files = [source("./test_upsert_data/sample.txt", "sample.txt", "Hello upsert")];
    let trace = drive(&files, &ProcessingConfig::default(), IdPolicy::PathHash, 0, None, None);
    let result = trace.result.unwrap();
    assert!(result.is_ok());
    assert_eq!(trace.flushes.len(), 1);
    assert_eq!(texts(&trace.flushes[0]), vec!["Hello upsert"]);
    let expected = format!("{:x}", md5::compute("./test_upsert_data/sample.txt"));
    assert_eq!(digests(&trace.flushes[0]), vec![expected]);
}

#[test]
fn total_is_the_number_of_non_blank_lines() {
    let files = [
        source("d/a.txt", "a.txt", "one\n\ntwo\n   \nthree"),
        source("d/b.md", "b.md", "four\r\nfive\r\n"),
        source("d/c.txt", "c.txt", "six"),
    ];
    let trace = drive(&files, &config(2, 3), IdPolicy::Counter, 0, None, None);
    assert_eq!(trace.result, Some(Ok(6)));
    let all: Vec<String> = trace.flushes.iter().flat_map(|b| texts(b)).collect();
    assert_eq!(all, vec!["one", "two", "three", "four", "five", "six"]);
    let ids: Vec<u64> = trace.flushes.iter().flat_map(|b| numbers(b)).collect();
    assert_eq!(ids, vec![1, 2, 3, 4, 5, 6]);
    assert_eq!(trace.opened, vec!["d/a.txt", "d/b.md", "d/c.txt"]);
}

#[test]
fn chunks_never_span_files_and_keep_the_order() {
    let files = [source("d/a.txt", "a.txt", "1\n2\n3\n"), source("d/b.txt", "b.txt", "4\n5\n")];
    let trace = drive(&files, &config(2, 100), IdPolicy::Counter, 0, None, None);
    let expected: Vec<Vec<String>> = vec![
        vec!["1".to_string(), "2".to_string()],
        vec!["3".to_string()],
        vec!["4".to_string(), "5".to_string()],
    ];
    assert_eq!(trace.embeds, expected);
    for chunk in &trace.embeds {
        assert!(!chunk.is_empty() && chunk.len() <= 2);
    }
    let titles: Vec<String> =
        trace.flushes.iter().flatten().map(|p| p.payload.title.clone()).collect();
    assert_eq!(titles, vec!["a.txt", "a.txt", "a.txt", "b.txt", "b.txt"]);
}

#[test]
fn batches_are_bounded_and_the_rest_is_flushed_at_the_end() {
    let files = [source("d/a.txt", "a.txt", "1\n2\n3\n4\n5\n6\n7\n")];
    let trace = drive(&files, &config(3, 2), IdPolicy::Counter, 0, None, None);
    assert_eq!(trace.result, Some(Ok(7)));
    let sizes: Vec<usize> = trace.flushes.iter().map(|b| b.len()).collect();
    assert_eq!(sizes, vec![2, 2, 2, 1]);
    let ids: Vec<u64> = trace.flushes.iter().flat_map(|b| numbers(b)).collect();
    assert_eq!(ids, vec![1, 2, 3, 4, 5, 6, 7]);
}

#[test]
fn empty_directory_succeeds_with_zero_points() {
    let trace = drive(&[], &config(2, 2), IdPolicy::Counter, 0, None, None);
    assert_eq!(trace.result, Some(Ok(0)));
    assert!(trace.flushes.is_empty());
    assert!(trace.embeds.is_empty());
    let run: Ingestion<Vec<f32>> =
        Ingestion::new(&config(2, 2), IdPolicy::Counter, 0, vec![]).unwrap();
    assert!(run.empty_corpus());
    assert_eq!(run.awaiting(), Request::Finished);
    assert_eq!(run.points_built(), 0);
}

#[test]
fn blank_file_is_skipped_and_the_run_goes_on() {
    let files = [
        source("d/empty.txt", "empty.txt", ""),
        source("d/blank.txt", "blank.txt", "  \n\t\n\r\n \u{3000}"),
        source("d/a.txt", "a.txt", "kept"),
    ];
    let trace = drive(&files, &config(2, 2), IdPolicy::Counter, 0, None, None);
    assert_eq!(trace.result, Some(Ok(1)));
    assert_eq!(trace.skipped, 2);
    assert_eq!(trace.flushes.len(), 1);
    assert_eq!(texts(&trace.flushes[0]), vec!["kept"]);
    assert_eq!(numbers(&trace.flushes[0]), vec![1]);
}

#[test]
fn embedding_failure_aborts_and_nothing_more_is_flushed() {
    let files = [source("d/a.txt", "a.txt", "1\n2\n3\n4\n5\n")];
    // The third chunk fails; one point of the second chunk still waits in the buffer.
    let trace = drive(&files, &config(2, 3), IdPolicy::Counter, 0, Some(2), None);
    let err = trace.result.unwrap().unwrap_err();
    assert_eq!(err.kind, ErrorKind::EmbeddingError);
    assert_eq!(err.message, "model unavailable");
    assert_eq!(trace.flushes.len(), 1);
    assert_eq!(numbers(&trace.flushes[0]), vec![1, 2, 3]);
    assert_eq!(trace.embeds.len(), 3);
}

#[test]
fn embedding_failure_on_first_chunk_flushes_nothing() {
    let files = [source("d/a.txt", "a.txt", "1\n2\n")];
    let trace = drive(&files, &config(2, 1), IdPolicy::Counter, 0, Some(0), None);
    assert_eq!(trace.result.unwrap().unwrap_err().kind, ErrorKind::EmbeddingError);
    assert!(trace.flushes.is_empty());
}

#[test]
fn failed_run_ignores_what_it_is_told() {
    let paths = vec!["d/a.txt".to_string()];
    let run: Ingestion<Vec<f32>> =
        Ingestion::new(&config(1, 1), IdPolicy::Counter, 0, paths).unwrap();
    let (run, r) = run.step(Event::Opened { file_name: Some("a.txt".into()), last_modified: 0 });
    assert_eq!(r, Request::ReadLine);
    let (run, r) = run.step(Event::Line("x".into()));
    assert_eq!(r, Request::Embed);
    let (run, r) = run.step(Event::EmbedFailed("boom".into()));
    assert_eq!(r, Request::Failed);
    let (run, r) = run.step(Event::Embedded(vec![vec![1.0]]));
    assert_eq!(r, Request::Failed);
    let (run, r) = run.step(Event::Upserted);
    assert_eq!(r, Request::Failed);
    assert!(run.next_batch().is_empty());
    assert_eq!(run.total(), 0);
    assert_eq!(run.chunk().len(), 1);
}

#[test]
fn upsert_failure_fails_the_run_and_keeps_the_buffer() {
    let paths = vec!["d/a.txt".to_string()];
    let run: Ingestion<Vec<f32>> =
        Ingestion::new(&config(2, 2), IdPolicy::Counter, 0, paths).unwrap();
    let (run, _) = run.step(Event::Opened { file_name: Some("a.txt".into()), last_modified: 0 });
    let (run, _) = run.step(Event::Line("x".into()));
    let (run, r) = run.step(Event::Line("y".into()));
    assert_eq!(r, Request::Embed);
    let (run, r) = run.step(Event::Embedded(vec![vec![1.0], vec![2.0]]));
    assert_eq!(r, Request::Upsert);
    let before = run.next_batch().to_vec();
    assert_eq!(numbers(&before), vec![1, 2]);
    let (run, r) = run.step(Event::UpsertFailed("connection refused".into()));
    assert_eq!(r, Request::Failed);
    assert_eq!(run.next_batch().to_vec(), before);
    let err = run.outcome().unwrap().unwrap_err();
    assert_eq!(err.kind, ErrorKind::UpsertError);
    assert_eq!(err.message, "connection refused");
    assert_eq!(err.describe(), "UpsertError: connection refused");
}

#[test]
fn read_failure_is_an_io_error() {
    let paths = vec!["d/a.txt".to_string()];
    let run: Ingestion<Vec<f32>> =
        Ingestion::new(&config(2, 2), IdPolicy::Counter, 0, paths.clone()).unwrap();
    let (run, r) = run.step(Event::ReadFailed("permission denied".into()));
    assert_eq!(r, Request::Failed);
    let err = run.outcome().unwrap().unwrap_err();
    assert_eq!(err, IngestError { kind: ErrorKind::IoError, message: "permission denied".into() });

    let run: Ingestion<Vec<f32>> =
        Ingestion::new(&config(2, 2), IdPolicy::Counter, 0, paths).unwrap();
    let (run, _) = run.step(Event::Opened { file_name: Some("a.txt".into()), last_modified: 0 });
    let (run, _) = run.step(Event::Line("x".into()));
    let (run, r) = run.step(Event::ReadFailed("disk error".into()));
    assert_eq!(r, Request::Failed);
    assert_eq!(run.outcome().unwrap().unwrap_err().kind, ErrorKind::IoError);
}

#[test]
fn file_without_a_text_name_is_a_metadata_error() {
    let files = [Source { path: "d/a.txt", name: None, modified: 0, content: "x" }];
    let trace = drive(&files, &config(2, 2), IdPolicy::Counter, 0, None, None);
    let err = trace.result.unwrap().unwrap_err();
    assert_eq!(err.kind, ErrorKind::MetadataError);
    assert_eq!(err.message, "file name is missing or not valid UTF-8");
}

#[test]
fn wrong_number_of_vectors_is_an_embedding_error() {
    let paths = vec!["d/a.txt".to_string()];
    let run: Ingestion<Vec<f32>> =
        Ingestion::new(&config(1, 1), IdPolicy::Counter, 0, paths).unwrap();
    let (run, _) = run.step(Event::Opened { file_name: Some("a.txt".into()), last_modified: 0 });
    let (run, _) = run.step(Event::Line("x".into()));
    let (run, r) = run.step(Event::Embedded(vec![]));
    assert_eq!(r, Request::Failed);
    let err = run.outcome().unwrap().unwrap_err();
    assert_eq!(err.kind, ErrorKind::EmbeddingError);
    assert_eq!(err.message, "embedding backend returned a different number of vectors than texts");
}

#[test]
fn counter_that_would_overflow_is_a_configuration_error() {
    let files = [source("d/a.txt", "a.txt", "x\ny\n")];
    let trace = drive(&files, &config(2, 2), IdPolicy::Counter, u64::MAX - 1, None, None);
    let err = trace.result.unwrap().unwrap_err();
    assert_eq!(err.kind, ErrorKind::ConfigurationError);
    assert_eq!(err.message, "point id counter would overflow");
    assert!(trace.flushes.is_empty());
}

#[test]
fn zero_sizes_are_configuration_errors() {
    let err = Ingestion::<Vec<f32>>::new(&config(0, 0), IdPolicy::Counter, 0, vec![]).unwrap_err();
    assert_eq!(err.kind, ErrorKind::ConfigurationError);
    assert_eq!(err.message, "chunk_size must be at least 1");
    let err = Ingestion::<Vec<f32>>::new(&config(1, 0), IdPolicy::Counter, 0, vec![]).unwrap_err();
    assert_eq!(err.kind, ErrorKind::ConfigurationError);
    assert_eq!(err.message, "batch_size must be at least 1");
}

#[test]
fn hash_policy_gives_the_same_ids_in_every_run() {
    let files =
        [source("d/a.txt", "a.txt", "alpha\nbeta\n"), source("d/b.txt", "b.txt", "gamma\n")];
    let first = drive(&files, &config(2, 2), IdPolicy::PathHash, 0, None, None);
    let second = drive(&files, &config(2, 2), IdPolicy::PathHash, 500, None, None);
    assert_eq!(first.result, Some(Ok(3)));
    assert_eq!(second.result, Some(Ok(503)));
    assert_eq!(first.flushes, second.flushes);
    let ids: Vec<String> = first.flushes.iter().flat_map(|b| digests(b)).collect();
    let a = format!("{:x}", md5::compute("d/a.txt"));
    let b = format!("{:x}", md5::compute("d/b.txt"));
    assert_eq!(ids, vec![a.clone(), a, b]);
}

#[test]
fn counter_policy_runs_are_disjoint_when_the_counter_is_carried_on() {
    let files = [source("d/a.txt", "a.txt", "1\n2\n3\n")];
    let first = drive(&files, &config(2, 2), IdPolicy::Counter, 0, None, None);
    let end = first.result.clone().unwrap().unwrap();
    let second = drive(&files, &config(2, 2), IdPolicy::Counter, end, None, None);
    let a: Vec<u64> = first.flushes.iter().flat_map(|b| numbers(b)).collect();
    let b: Vec<u64> = second.flushes.iter().flat_map(|b| numbers(b)).collect();
    assert_eq!(a, vec![1, 2, 3]);
    assert_eq!(b, vec![4, 5, 6]);
    assert!(a.iter().all(|id| !b.contains(id)));
    assert_eq!(second.result, Some(Ok(6)));
}

#[test]
fn events_out_of_turn_change_nothing() {
    let paths = vec!["d/a.txt".to_string()];
    let run: Ingestion<Vec<f32>> =
        Ingestion::new(&config(2, 2), IdPolicy::Counter, 0, paths).unwrap();
    let (run, r) = run.step(Event::Line("early".into()));
    assert_eq!(r, Request::Open);
    let (run, r) = run.step(Event::Upserted);
    assert_eq!(r, Request::Open);
    let (run, r) = run.step(Event::EndOfFile);
    assert_eq!(r, Request::Open);
    assert_eq!(run.chunk().len(), 0);
    assert_eq!(run.total(), 0);
    assert_eq!(run.outcome(), None);
    assert_eq!(run.current_path(), Some(&"d/a.txt".to_string()));
}

#[test]
fn lines_are_kept_as_they_stand() {
    let files = [source("d/a.txt", "a.txt", "  padded  \n\tx\n")];
    let trace = drive(&files, &config(5, 5), IdPolicy::Counter, 10, None, None);
    assert_eq!(trace.result, Some(Ok(12)));
    assert_eq!(texts(&trace.flushes[0]), vec!["  padded  ", "\tx"]);
    assert_eq!(numbers(&trace.flushes[0]), vec![11, 12]);
}

// A plain rendering of the pipeline to hold the run against: lines, chunks within
// a file, one point for each line, batches across files.
fn expected_flushes(contents: &[String], batch_size: usize) -> (Vec<Vec<u64>>, Vec<String>) {
    let mut ids: Vec<u64> = vec![];
    let mut all: Vec<String> = vec![];
    for content in contents {
        for line in content.lines() {
            if !line.trim().is_empty() {
                all.push(line.to_string());
                ids.push(all.len() as u64);
            }
        }
    }
    (ids.chunks(batch_size).map(|c| c.to_vec()).collect(), all)
}

#[test]
fn many_shapes_of_corpus_agree_with_a_plain_rendering() {
    let mut seed: u64 = 0x2545_f491_4f6c_dd1d;
    let mut next = move |bound: u64| {
        seed ^= seed << 13;
        seed ^= seed >> 7;
        seed ^= seed << 17;
        seed % bound
    };
    for _ in 0..60 {
        let n_files = next(4) as usize;
        let mut contents: Vec<String> = vec![];
        for _ in 0..n_files {
            let mut text = String::new();
            for _ in 0..next(9) {
                match next(5) {
                    0 => text.push_str("\n"),
                    1 => text.push_str("  \t\r\n"),
                    2 => text.push_str(&format!("word {}\r\n", next(100))),
                    _ => text.push_str(&format!("line {}\n", next(100))),
                }
            }
            if next(2) == 0 {
                text.push_str("tail");
            }
            contents.push(text);
        }
        let chunk_size = 1 + next(4) as usize;
        let batch_size = 1 + next(5) as usize;
        let cfg = config(chunk_size, batch_size);
        let paths: Vec<String> = (0..n_files).map(|i| format!("d/{}.txt", i)).collect();
        let mut run: Ingestion<Vec<f32>> =
            Ingestion::new(&cfg, IdPolicy::Counter, 0, paths).unwrap();
        let mut flushes: Vec<Vec<u64>> = vec![];
        let mut written: Vec<String> = vec![];
        let mut lines: Vec<String> = vec![];
        let mut at = 0;
        let mut file = 0;
        let mut request = run.awaiting();
        loop {
            let event = match request {
                Request::Open => {
                    lines = contents[file].lines().map(|l| l.to_string()).collect();
                    at = 0;
                    file += 1;
                    Event::Opened { file_name: Some("f.txt".to_string()), last_modified: 0 }
                }
                Request::ReadLine => {
                    if at < lines.len() {
                        at += 1;
                        Event::Line(lines[at - 1].clone())
                    } else {
                        Event::EndOfFile
                    }
                }
                Request::Embed => {
                    assert!(!run.chunk().is_empty() && run.chunk().len() <= chunk_size);
                    Event::Embedded(run.chunk().iter().map(|t| vector_for(t)).collect())
                }
                Request::Upsert => {
                    let batch = run.next_batch();
                    assert!(!batch.is_empty() && batch.len() <= batch_size);
                    flushes.push(numbers(batch));
                    written.extend(texts(batch));
                    Event::Upserted
                }
                Request::Finished | Request::Failed => break,
            };
            let (next_run, wanted) = run.step(event);
            run = next_run;
            request = wanted;
        }
        let (ids, all) = expected_flushes(&contents, batch_size);
        assert_eq!(flushes, ids);
        assert_eq!(written, all);
        assert_eq!(run.outcome(), Some(Ok(all.len() as u64)));
        assert_eq!(run.points_built(), all.len() as u64);
    }
}
