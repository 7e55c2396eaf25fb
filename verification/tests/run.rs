use osm_local_tile_dl::job::{FetchError, Fetched, JobPhase};
use osm_local_tile_dl::pyramid::TilePyramid;
use osm_local_tile_dl::range::TileRange;
use osm_local_tile_dl::run::{fetch, Config, Directive, FatalError, PathKind, Run, RunEvent};
use osm_local_tile_dl::Tile;

fn config(ranges: &[TileRange], fetch_rate: u8) -> Config {
    let mut pyramid = TilePyramid::new();
    for range in ranges {
        assert!(pyramid.push(*range).is_some());
    }
    Config { pyramid, fetch_rate, url: String::from("http://localhost/{z}/{x}/{y}") }
}

fn begin(run: &mut Run) {
    assert_eq!(run.poll(), Directive::ProbeRoot);
    run.handle(RunEvent::RootProbed(PathKind::Directory));
    assert_eq!(run.poll(), Directive::BuildClient);
    run.handle(RunEvent::ClientBuilt);
}

#[test]
fn jobs_are_made_under_the_template_of_the_run() {
    let cfg = config(&[TileRange::new(4, 5, 4, 5)], 1);
    let mut run = fetch(&cfg);
    begin(&mut run);
    match run.poll() {
        Directive::Start(tile) => {
            let job = run.job(tile);
            assert_eq!(job.tile(), Tile::new(4, 5, 1));
            assert_eq!(job.url(), "http://localhost/1/4/5");
            assert_eq!(job.phase(), JobPhase::CreateDir);
        }
        other => panic!("unexpected {:?}", other),
    }
}

#[test]
fn config_enumerates_its_pyramid() {
    let cfg = config(&[TileRange::new(0, 0, 0, 1), TileRange::new(3, 3, 3, 3)], 5);
    let mut cursor = cfg.tiles();
    assert_eq!(cursor.take(10), vec![Tile::new(0, 0, 1), Tile::new(0, 1, 1), Tile::new(3, 3, 2)]);
}

#[test]
fn a_missing_output_directory_is_created_first() {
    let cfg = config(&[TileRange::new(0, 0, 0, 0)], 1);
    let mut run = fetch(&cfg);
    assert!(!run.is_done());
    assert_eq!(run.poll(), Directive::ProbeRoot);
    assert_eq!(run.poll(), Directive::ProbeRoot);
    run.handle(RunEvent::RootProbed(PathKind::Missing));
    assert_eq!(run.poll(), Directive::CreateRoot);
    run.handle(RunEvent::RootCreated);
    assert_eq!(run.poll(), Directive::BuildClient);
    run.handle(RunEvent::ClientBuilt);
    assert_eq!(run.poll(), Directive::Start(Tile::new(0, 0, 1)));
}

#[test]
fn an_output_path_that_is_no_directory_ends_the_run() {
    let cfg = config(&[TileRange::new(0, 0, 3, 3)], 4);
    let mut run = fetch(&cfg);
    run.handle(RunEvent::RootProbed(PathKind::Other));
    assert!(run.is_done());
    assert_eq!(run.poll(), Directive::Finish(Err(FatalError::OutputNotDirectory)));
    run.handle(RunEvent::RootProbed(PathKind::Directory));
    run.handle(RunEvent::ClientBuilt);
    assert_eq!(run.poll(), Directive::Finish(Err(FatalError::OutputNotDirectory)));
    assert_eq!(run.in_flight(), 0);
}

#[test]
fn failing_to_create_the_output_directory_ends_the_run() {
    let cfg = config(&[TileRange::new(0, 0, 3, 3)], 4);
    let mut run = fetch(&cfg);
    run.handle(RunEvent::RootProbed(PathKind::Missing));
    run.handle(RunEvent::RootCreateFailed);
    assert_eq!(run.poll(), Directive::Finish(Err(FatalError::CreateRoot)));
    assert!(run.is_done());
}

#[test]
fn failing_to_build_the_client_ends_the_run() {
    let cfg = config(&[TileRange::new(0, 0, 3, 3)], 4);
    let mut run = fetch(&cfg);
    run.handle(RunEvent::RootProbed(PathKind::Directory));
    run.handle(RunEvent::ClientFailed);
    assert_eq!(run.poll(), Directive::Finish(Err(FatalError::Client)));
    assert!(run.is_done());
}

#[test]
fn no_more_fetches_are_under_way_than_the_rate_allows() {
    let cfg = config(&[TileRange::new(0, 0, 1, 2)], 2);
    let mut run = fetch(&cfg);
    begin(&mut run);
    assert_eq!(run.poll(), Directive::Start(Tile::new(0, 0, 1)));
    assert_eq!(run.in_flight(), 1);
    assert_eq!(run.poll(), Directive::Start(Tile::new(0, 1, 1)));
    assert_eq!(run.in_flight(), 2);
    assert_eq!(run.poll(), Directive::Wait);
    assert_eq!(run.poll(), Directive::Wait);
    assert_eq!(run.in_flight(), 2);
    run.handle(RunEvent::TileDone(Tile::new(0, 1, 1), Ok(Fetched::Saved)));
    assert_eq!(run.in_flight(), 1);
    assert_eq!(run.poll(), Directive::Start(Tile::new(0, 2, 1)));
    assert_eq!(run.poll(), Directive::Wait);
    run.handle(RunEvent::TileDone(Tile::new(0, 0, 1), Ok(Fetched::Saved)));
    run.handle(RunEvent::TileDone(Tile::new(0, 2, 1), Ok(Fetched::Skipped)));
    assert_eq!(run.in_flight(), 0);
    assert_eq!(run.poll(), Directive::Start(Tile::new(1, 0, 1)));
    assert_eq!(run.poll(), Directive::Start(Tile::new(1, 1, 1)));
    assert_eq!(run.poll(), Directive::Wait);
    run.handle(RunEvent::TileDone(Tile::new(1, 0, 1), Ok(Fetched::Saved)));
    assert_eq!(run.poll(), Directive::Start(Tile::new(1, 2, 1)));
    assert_eq!(run.poll(), Directive::Wait);
    run.handle(RunEvent::TileDone(Tile::new(1, 1, 1), Ok(Fetched::Saved)));
    assert_eq!(run.poll(), Directive::Wait);
    assert!(!run.is_done());
    run.handle(RunEvent::TileDone(Tile::new(1, 2, 1), Ok(Fetched::Saved)));
    assert_eq!(run.poll(), Directive::Finish(Ok(())));
    assert!(run.is_done());
}

#[test]
fn the_bound_holds_for_every_rate() {
    for rate in [1u8, 2, 3, 7, 255] {
        let cfg = config(&[TileRange::new(0, 0, 19, 19)], rate);
        let mut run = fetch(&cfg);
        begin(&mut run);
        let mut started = Vec::new();
        let mut ended = 0usize;
        loop {
            match run.poll() {
                Directive::Start(tile) => {
                    started.push(tile);
                    assert!(started.len() - ended <= rate as usize);
                    assert_eq!(run.in_flight() as usize, started.len() - ended);
                }
                Directive::Wait => {
                    let under_way = started.len() - ended;
                    assert!(under_way == rate as usize || started.len() == 400);
                    run.handle(RunEvent::TileDone(started[ended], Ok(Fetched::Saved)));
                    ended += 1;
                }
                Directive::Finish(result) => {
                    assert_eq!(result, Ok(()));
                    break;
                }
                other => panic!("unexpected {:?}", other),
            }
        }
        assert_eq!(ended, 400);
        let mut cursor = cfg.tiles();
        assert_eq!(started, cursor.take(1000));
    }
}

#[test]
fn a_failed_tile_holds_nothing_up() {
    let errors = [
        FetchError::CreateDir,
        FetchError::ForbiddenUrl,
        FetchError::Transport,
        FetchError::Status(500),
        FetchError::Body,
        FetchError::Write,
    ];
    let cfg = config(&[TileRange::new(0, 0, 0, 6)], 1);
    let mut run = fetch(&cfg);
    begin(&mut run);
    for (row, error) in errors.iter().enumerate() {
        assert_eq!(run.poll(), Directive::Start(Tile::new(0, row, 1)));
        assert_eq!(run.poll(), Directive::Wait);
        run.handle(RunEvent::TileDone(Tile::new(0, row, 1), Err(*error)));
        assert!(!run.is_done());
    }
    assert_eq!(run.poll(), Directive::Start(Tile::new(0, 6, 1)));
    run.handle(RunEvent::TileDone(Tile::new(0, 6, 1), Ok(Fetched::Saved)));
    assert_eq!(run.poll(), Directive::Finish(Ok(())));
}

#[test]
fn a_run_in_which_every_tile_fails_still_succeeds() {
    let cfg = config(&[TileRange::new(0, 0, 2, 2)], 3);
    let mut run = fetch(&cfg);
    begin(&mut run);
    let mut under_way = Vec::new();
    let result = loop {
        match run.poll() {
            Directive::Start(tile) => under_way.push(tile),
            Directive::Wait => {
                run.handle(RunEvent::TileDone(under_way.remove(0), Err(FetchError::Status(404))))
            }
            Directive::Finish(result) => break result,
            other => panic!("unexpected {:?}", other),
        }
    };
    assert_eq!(result, Ok(()));
    assert!(under_way.is_empty());
}

#[test]
fn a_run_without_tiles_is_over_at_once() {
    let cfg = config(&[TileRange::new(1, 1, 0, 0)], 5);
    let mut run = fetch(&cfg);
    begin(&mut run);
    assert_eq!(run.poll(), Directive::Finish(Ok(())));
    assert!(run.is_done());
    assert_eq!(run.poll(), Directive::Finish(Ok(())));
}

#[test]
fn events_nobody_waits_for_change_nothing() {
    let cfg = config(&[TileRange::new(0, 0, 0, 1)], 1);
    let mut run = fetch(&cfg);
    run.handle(RunEvent::ClientBuilt);
    run.handle(RunEvent::RootCreated);
    run.handle(RunEvent::TileDone(Tile::new(0, 0, 1), Ok(Fetched::Saved)));
    assert_eq!(run.poll(), Directive::ProbeRoot);
    begin(&mut run);
    run.handle(RunEvent::TileDone(Tile::new(0, 0, 1), Ok(Fetched::Saved)));
    assert_eq!(run.in_flight(), 0);
    run.handle(RunEvent::RootProbed(PathKind::Other));
    run.handle(RunEvent::ClientFailed);
    assert_eq!(run.poll(), Directive::Start(Tile::new(0, 0, 1)));
    assert_eq!(run.poll(), Directive::Wait);
    run.handle(RunEvent::RootCreateFailed);
    assert_eq!(run.poll(), Directive::Wait);
    run.handle(RunEvent::TileDone(Tile::new(0, 0, 1), Ok(Fetched::Saved)));
    assert_eq!(run.poll(), Directive::Start(Tile::new(0, 1, 1)));
    run.handle(RunEvent::TileDone(Tile::new(0, 1, 1), Ok(Fetched::Saved)));
    assert_eq!(run.poll(), Directive::Finish(Ok(())));
    run.handle(RunEvent::RootProbed(PathKind::Other));
    assert_eq!(run.poll(), Directive::Finish(Ok(())));
}
