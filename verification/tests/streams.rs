use medley::fmp4::duration_patch;
use medley::http::{range_header, total_from_content_range, verdict, RangeReader, ReadStep as HttpStep, Refusal, Verdict};
use medley::paged::{PagedList, RemotePage, WalkStep};
use medley::producer::{FillNext, MediaForm, RunStep, SourceRead};
use medley::ranges::{covers, downloaded, hole_from, insert_range, prefix, run_end, whole, Span};
use medley::rate_limit::{GateStep, RateGate, RateLimiter};
use medley::stream::{
    plan_open, retry_wait_ms, seek_target, truncated, Attempts, FinishStep, Intent, OpenFacts, OpenPlan, ProduceStep,
    ReadStep, Reader, SeekError, SeekTo, State, StreamState,
};
use medley::streaming::{
    body_step, media_plan, open_from, streaming_failure, BodyStep, MediaKind, OpenFrom, ReadNext, StreamProgress,
    StreamingReader,
};
use medley::SourceId;

fn span(start: u64, end: u64) -> Span {
    Span { start, end }
}

#[test]
fn a_short_body_is_truncated() {
    assert!(matches!(body_step(0, 10, 100), BodyStep::Write));
    assert!(matches!(body_step(100, 0, 100), BodyStep::Done));
    match body_step(40, 0, 100) {
        BodyStep::Truncated(why) => assert_eq!(why, "truncated: got 40 of 100 bytes"),
        _ => panic!("expected a truncated body"),
    }
}

#[test]
fn ranges_join() {
    let mut v: Vec<Span> = Vec::new();
    insert_range(&mut v, span(10, 20));
    insert_range(&mut v, span(30, 40));
    insert_range(&mut v, span(20, 25));
    assert_eq!(v, vec![span(10, 25), span(30, 40)]);
    insert_range(&mut v, span(0, 35));
    assert_eq!(v, vec![span(0, 40)]);
    assert_eq!(downloaded(&v), 40);
    assert_eq!(prefix(&v), 40);
    assert_eq!(run_end(&v, 5), Some(40));
    assert_eq!(run_end(&v, 40), None);
    assert!(covers(&v, span(3, 40)));
    assert!(!covers(&v, span(3, 41)));
    assert_eq!(hole_from(&v, 100, 0), Some(span(40, 100)));
    assert_eq!(hole_from(&v, 40, 0), None);
    assert_eq!(whole(7), vec![span(0, 7)]);
}

#[test]
fn a_complete_file_reports_what_it_holds() {
    let s = State::complete(40);
    assert_eq!(s.info().prefix, 40);
    assert_eq!(s.info().percent, Some(100));
}

#[test]
fn a_download_goes_through_its_states() {
    let mut s = State::new(StreamState::Connecting);
    assert_eq!(s.attach(Intent::Fetch), Some(true));
    assert!(s.set_len(100));
    assert!(s.record_write(0, 60));
    assert_eq!(s.info().prefix, 60);
    assert_eq!(s.info().percent, Some(60));
    assert!(s.alive(0));
    s.record_write(60, 40);
    assert_eq!(s.finish(), FinishStep::Commit);
    assert!(s.committed());
    assert_eq!(s.phase, StreamState::Done);
    assert!(!s.stopped());
    assert!(!s.alive(0));
    assert!(!s.cancel());
}

#[test]
fn a_download_with_holes_fails() {
    let mut s = State::new(StreamState::Connecting);
    s.attach(Intent::Fetch);
    s.set_len(100);
    s.record_write(0, 60);
    assert_eq!(s.finish(), FinishStep::Failed);
    assert!(s.stopped());
}

#[test]
fn an_unclaimed_download_is_cancelled_after_its_grace() {
    let mut s = State::new(StreamState::Connecting);
    s.attach(Intent::Fetch);
    s.release(1_000);
    assert!(s.alive(1_001));
    assert!(!s.alive(10_000_000));
    assert_eq!(s.phase, StreamState::Cancelled);
}

#[test]
fn readers_wait_for_bytes() {
    let mut s = State::new(StreamState::Connecting);
    s.attach(Intent::Play);
    s.set_len(100);
    s.record_write(0, 10);
    let at_start = Reader { pos: 0, play: false, marked: false };
    assert_eq!(s.read_step(at_start, 4, 0).0, ReadStep::Take(4));
    let at_ten = Reader { pos: 10, play: false, marked: false };
    assert_eq!(s.read_step(at_ten, 4, 0).0, ReadStep::Wait);
    s.fail("gone".to_string());
    assert_eq!(s.read_step(at_ten, 4, 0).0, ReadStep::Wait);
    s.set_phase(StreamState::Failed("gone".to_string()));
    assert_eq!(s.read_step(at_ten, 4, 0).0, ReadStep::Fail("gone".to_string()));
    let past_the_end = Reader { pos: 100, play: false, marked: false };
    assert_eq!(s.read_step(past_the_end, 4, 0).0, ReadStep::End);
}

#[test]
fn producers_resume_while_they_bring_something() {
    let mut s = State::new(StreamState::Connecting);
    s.attach(Intent::Fetch);
    s.set_len(100);
    s.record_write(0, 10);
    let (a, step) = s.after_run(Attempts { have: 0, failures: 0 });
    assert_eq!(a.have, 10);
    assert!(matches!(step, ProduceStep::Resume { .. }));
    s.cancel();
    assert_eq!(s.after_run(a).1, ProduceStep::Stop);
}

#[test]
fn seeks_of_streams() {
    assert_eq!(seek_target(5, Some(10), SeekTo::Start(3)), Ok(3));
    assert_eq!(seek_target(5, Some(10), SeekTo::Current(-2)), Ok(3));
    assert_eq!(seek_target(5, Some(10), SeekTo::End(-1)), Ok(9));
    assert_eq!(seek_target(5, None, SeekTo::End(0)), Err(SeekError::UnknownLength));
    assert_eq!(seek_target(5, None, SeekTo::Current(-6)), Err(SeekError::BeforeStart));
}

#[test]
fn what_is_opened_first() {
    let f = OpenFacts { running: false, cached_bytes: None, duration_ms: 60_000, local: false, provider: false };
    assert_eq!(plan_open(f, Intent::Play), OpenPlan::NoSource);
    assert_eq!(plan_open(f, Intent::Peek), OpenPlan::NotFound);
    assert_eq!(plan_open(OpenFacts { provider: true, ..f }, Intent::Play), OpenPlan::Start);
    assert_eq!(plan_open(OpenFacts { cached_bytes: Some(1_000_000), ..f }, Intent::Play), OpenPlan::Cached);
    assert_eq!(plan_open(OpenFacts { cached_bytes: Some(10), local: true, ..f }, Intent::Play), OpenPlan::Local);
    assert_eq!(plan_open(OpenFacts { running: true, ..f }, Intent::Play), OpenPlan::Join);
    assert!(truncated(10, 60_000));
    assert!(!truncated(10, 30_000));
    assert!(retry_wait_ms(0).is_some());
}

#[test]
fn requests_for_parts_of_a_file() {
    assert_eq!(range_header(0), "bytes=0-262143");
    assert_eq!(total_from_content_range("bytes 0-9/1234"), Some(1234));
    assert_eq!(total_from_content_range("bytes 0-9/*"), None);
    assert_eq!(verdict(403, true, true), Verdict::Refresh);
    assert_eq!(verdict(403, false, true), Verdict::Fail);
    assert_eq!(verdict(416, false, false), Verdict::Take);
    assert_eq!(verdict(206, true, false), Verdict::Take);
    assert_eq!(verdict(500, true, true), Verdict::Fail);
}

#[test]
fn a_file_is_read_in_parts() {
    let mut r = RangeReader::ranged(Some("bytes 0-3/8".to_string()), vec![1, 2, 3, 4]);
    assert_eq!(r.len, Some(8));
    assert_eq!(r.read_step(10), HttpStep::Ready(4));
    assert_eq!(r.take_ready(4), vec![1, 2, 3, 4]);
    assert_eq!(r.read_step(10), HttpStep::Fetch(4));
    assert!(r.fill_chunk(206, vec![5, 6, 7, 8]).is_ok());
    assert_eq!(r.take_ready(2), vec![5, 6]);
    assert_eq!(r.seek(medley::http::SeekTo::Start(8)), Ok(8));
    assert_eq!(r.read_step(10), HttpStep::End);
    assert_eq!(r.seek(medley::http::SeekTo::Current(-9)), Err(Refusal::BeforeStart));
    let mut whole_file = RangeReader::sequential(None);
    assert_eq!(whole_file.read_step(3), HttpStep::Body);
    assert_eq!(whole_file.seek(medley::http::SeekTo::End(0)), Err(Refusal::LengthUnknown));
}

#[test]
fn one_page_after_the_other() {
    let mut l: PagedList<u32> = PagedList::new_with_delay("tracks".to_string(), 100);
    assert!(l.snapshot(3));
    assert!(!l.snapshot(3));
    assert_eq!(l.first_page(), 0);
    let step = l.page_landed(Ok(RemotePage { hits: vec![1, 2], total: 5, consumed: 2 }));
    assert_eq!(step, WalkStep::Fetch { offset: 2, wait: 0 });
    let step = l.page_landed(Ok(RemotePage { hits: vec![3, 4], total: 5, consumed: 2 }));
    assert_eq!(step, WalkStep::Fetch { offset: 4, wait: 100 });
    assert_eq!(l.items(), &vec![1, 2, 3, 4]);
    assert!(l.partial());
    assert_eq!(l.page_landed(Err("offline".to_string())), WalkStep::End);
    assert!(l.errored());
    assert!(!l.snapshot(5));
    l.retry();
    assert!(l.snapshot(5));
    assert_eq!(l.first_page(), 4);
    assert_eq!(l.page_landed(Ok(RemotePage { hits: vec![5], total: 5, consumed: 1 })), WalkStep::End);
    assert!(!l.partial());
    assert!(!l.snapshot(9));
    assert_eq!(l.label(), "tracks");
}

#[test]
fn an_empty_page_ends_a_list() {
    let mut l: PagedList<u32> = PagedList::new("tracks".to_string());
    assert!(l.partial());
    assert!(l.snapshot(3));
    assert!(l.partial());
    assert_eq!(l.page_landed(Ok(RemotePage { hits: vec![], total: 5, consumed: 0 })), WalkStep::End);
    assert!(!l.partial());
    assert!(!l.snapshot(5));
    assert!(l.items().is_empty());
    assert!(!l.partial());
}

#[test]
fn requests_are_spaced() {
    let mut l = RateLimiter::new(100, 0, 1_000);
    assert_eq!(l.pause_with(1_000, 0), 0);
    l.passed(1_000);
    assert_eq!(l.pause_with(1_030, 0), 70);
    assert_eq!(l.pause_with(1_030, 5), 75);
    assert_eq!(l.pause(1_030), 70);
    let jittered = RateLimiter::new(0, 10, 0);
    assert!(jittered.pause(0) < 10);
    let mut g = RateGate::new(0, 0, 0);
    assert_eq!(g.wait_turn(5), GateStep::Go);
    g.set_cooldown(5, 1_000);
    assert_eq!(g.wait_turn(5), GateStep::Sleep(250));
    assert_eq!(g.wait_turn(1_000), GateStep::Sleep(5));
    assert_eq!(g.wait_turn_while(false, 1_000), GateStep::GiveUp);
    assert_eq!(g.wait_turn(1_006), GateStep::Go);
}

#[test]
fn a_reader_follows_a_download() {
    let mut p = StreamProgress::new();
    let mut r = StreamingReader::new(10);
    assert!(matches!(r.next(4, &p), ReadNext::Wait));
    p.advance(6);
    assert!(matches!(r.next(4, &p), ReadNext::Take(4)));
    let mut buf = vec![0, 1, 2, 3];
    r.took(&mut buf);
    assert_eq!(buf, vec![0, 1, 2, 3]);
    assert!(matches!(r.next(4, &p), ReadNext::Take(2)));
    assert_eq!(r.seek(SeekTo::End(0)), 10);
    p.finish(Some("cut off".to_string()));
    match r.next(4, &p) {
        ReadNext::Fail(why) => assert_eq!(why, "cut off"),
        _ => panic!("expected a failure"),
    }
    assert!(matches!(r.next(4, &StreamProgress::ready(10)), ReadNext::End));
    assert_eq!(r.seek(SeekTo::Current(-100)), 0);
    assert_eq!(r.seek(SeekTo::Start(u64::MAX)), 0);
}

#[test]
fn corrected_bytes_do_not_depend_on_how_the_file_is_cut() {
    let file: Vec<u8> = (0..20).collect();
    for size in 1..20usize {
        let mut r = StreamingReader::new(20);
        r.correct(Some((7, [100, 101, 102, 103])));
        let mut seen: Vec<u8> = Vec::new();
        while seen.len() < 20 {
            let from = seen.len();
            let to = (from + size).min(20);
            let mut buf = file[from..to].to_vec();
            r.took(&mut buf);
            seen.extend(buf);
        }
        let mut want = file.clone();
        want[7..11].copy_from_slice(&[100, 101, 102, 103]);
        assert_eq!(seen, want);
    }
}

#[test]
fn where_a_rendition_is_opened() {
    let local = SourceId::new("local");
    let other = SourceId::new("soundcloud");
    assert_eq!(open_from(&local, false, true, true), OpenFrom::Disk);
    assert_eq!(open_from(&local, true, true, true), OpenFrom::Cache);
    assert_eq!(open_from(&other, true, false, true), OpenFrom::Provider);
    assert_eq!(open_from(&other, false, false, true), OpenFrom::HttpProvider);
    assert_eq!(open_from(&other, false, false, false), OpenFrom::Nothing);
    assert!(media_plan(MediaKind::Path, true).link);
    assert_eq!(media_plan(MediaKind::Url(Some(9)), true).stream, Some(9));
    assert!(!media_plan(MediaKind::Url(Some(9)), true).whole);
    assert!(media_plan(MediaKind::Url(None), false).copy);
    assert!(media_plan(MediaKind::Reader, true).store);
    assert_eq!(streaming_failure("http://h", "x"), "streaming download of http://h failed: x");
}

fn boxed(kind: &[u8; 4], body: &[u8]) -> Vec<u8> {
    let mut v = ((body.len() + 8) as u32).to_be_bytes().to_vec();
    v.extend_from_slice(kind);
    v.extend_from_slice(body);
    v
}

#[test]
fn files_without_a_duration_are_left_alone() {
    let file = boxed(b"ftyp", &[0; 8]);
    assert_eq!(duration_patch(&file, file.len() as u64), None);
    assert_eq!(duration_patch(&[], 0), None);
}

#[test]
fn the_duration_of_a_fragmented_file_is_summed() {
    let mut movie = b"mdhd".to_vec();
    movie.extend_from_slice(&[0; 12]);
    movie.extend_from_slice(&44_100u32.to_be_bytes());
    movie.extend_from_slice(&[0; 4]);
    let mut index = vec![0; 8];
    index.extend_from_slice(&1_000u32.to_be_bytes());
    index.extend_from_slice(&[0; 8]);
    index.extend_from_slice(&[0, 0, 0, 2]);
    for ticks in [3_000u32, 2_000] {
        index.extend_from_slice(&[0; 4]);
        index.extend_from_slice(&ticks.to_be_bytes());
        index.extend_from_slice(&[0; 4]);
    }
    let mut file = boxed(b"moov", &movie);
    file.extend(boxed(b"sidx", &index));
    assert_eq!(duration_patch(&file, file.len() as u64), Some((28, 220_500u32.to_be_bytes())));
}

fn downloading() -> State {
    let mut s = State::new(StreamState::Connecting);
    s.attach(Intent::Fetch);
    s
}

#[test]
fn a_run_keeps_to_the_form_of_the_first() {
    let mut s = downloading();
    let mut first: Option<MediaForm> = None;
    assert_eq!(s.begin_run(&mut first, Err("offline".to_string())), RunStep::End);
    assert_eq!(s.failure, Some("open: offline".to_string()));
    assert_eq!(first, None);
    assert_eq!(s.begin_run(&mut first, Ok(MediaForm::Url)), RunStep::Fetch { from: 0 });
    assert!(s.source_opened("http://h/a", None));
    assert_eq!(s.phase, StreamState::Fetching);
    assert!(s.begin_fill(100));
    assert_eq!(s.wrote(0, 30, None), Some(30));
    assert_eq!(s.begin_run(&mut first, Ok(MediaForm::Url)), RunStep::Fetch { from: 30 });
    assert_eq!(s.begin_run(&mut first, Ok(MediaForm::Path)), RunStep::End);
    assert_eq!(s.failure, Some("the source changed media kind".to_string()));
    assert_eq!(first, Some(MediaForm::Url));
    assert!(!s.begin_fill(99));
    assert_eq!(s.failure, Some("source length changed to 99".to_string()));
    assert!(!s.source_opened("http://h/a", Some("gone".to_string())));
    assert_eq!(s.failure, Some("open http://h/a: gone".to_string()));
    assert_eq!(s.ranges, vec![span(0, 30)]);
    let mut other: Option<MediaForm> = None;
    assert_eq!(downloading().begin_run(&mut other, Ok(MediaForm::Path)), RunStep::Adopt);
    let mut own = downloading();
    let mut none: Option<MediaForm> = None;
    assert_eq!(own.begin_run(&mut none, Ok(MediaForm::Stream)), RunStep::Run);
    assert_eq!(own.phase, StreamState::Fetching);
}

#[test]
fn reads_of_a_source_fill_the_stream() {
    let mut s = downloading();
    s.begin_fill(100);
    assert_eq!(s.filled(0, Some(100), SourceRead::Bytes(10), 0), FillNext::Write);
    assert_eq!(s.wrote(0, 10, None), Some(10));
    assert_eq!(s.filled(10, Some(100), SourceRead::End, 0), FillNext::Stop);
    assert_eq!(s.failure, Some("source ended at 10 of 100 bytes".to_string()));
    assert_eq!(s.filled(10, Some(100), SourceRead::Failed("reset".to_string()), 0), FillNext::Stop);
    assert_eq!(s.failure, Some("read at 10: reset".to_string()));
    assert_eq!(s.filled(10, None, SourceRead::End, 0), FillNext::Finish);
    assert_eq!(s.wrote(10, 5, Some("disk full".to_string())), None);
    assert_eq!(s.phase, StreamState::Failed("write: disk full".to_string()));
    assert_eq!(s.filled(10, Some(100), SourceRead::Bytes(10), 0), FillNext::Stop);
}
