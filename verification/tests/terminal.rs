use tqdm::terminal::{finalize, render, resolve_size, resolve_width, FALLBACK_COLUMNS, FALLBACK_ROWS};
use tqdm::{pbar, refresh, Command, Pbar, Record, Registry, Setting, MIN_INTERVAL, MIN_ITERATIONS};

const SECOND: u64 = 1_000_000;

fn print(text: &str) -> Command {
    Command::Print(String::from(text))
}

#[test]
fn size_falls_back_to_eighty_by_twenty_four() {
    assert_eq!(resolve_size(None), (80, 24));
    assert_eq!(resolve_size(Some((132, 43))), (132, 43));
    assert_eq!(resolve_size(Some((0, 0))), (0, 0));
    assert_eq!((FALLBACK_COLUMNS, FALLBACK_ROWS), (80, 24));
}

#[test]
fn fixed_width_goes_before_the_terminal() {
    assert_eq!(resolve_width(Some(100), 80), 100);
    assert_eq!(resolve_width(Some(0), 80), 0);
    assert_eq!(resolve_width(None, 80), 80);
    assert_eq!(resolve_width(None, resolve_size(None).0), 80);
}

#[test]
fn frame_of_two_bars() {
    let records = vec![Record::new(Some(10), 0), Record::new(None, 0)];
    assert_eq!(
        render(&records, 0, 30, 24),
        vec![
            Command::HideCursor,
            Command::MoveToColumn(0),
            print("  0%|  | 0/10 [00:00<?, ?it/s]"),
            print("0it [00:00, ?it/s]            "),
            Command::MoveUp(1),
            Command::ShowCursor,
            Command::Flush,
        ]
    );
}

#[test]
fn frame_of_one_bar_needs_no_rewind() {
    let records = vec![Record::new(None, 0)];
    assert_eq!(
        render(&records, 2 * SECOND, 20, 24),
        vec![
            Command::HideCursor,
            Command::MoveToColumn(0),
            print("0it [00:02, ?it/s]  "),
            Command::ShowCursor,
            Command::Flush,
        ]
    );
}

#[test]
fn frame_without_bars_is_empty() {
    assert_eq!(render(&Vec::new(), 0, 80, 24), Vec::<Command>::new());
    assert_eq!(refresh(&Registry::new(), 0, None), Vec::<Command>::new());
}

#[test]
fn lines_are_cut_to_the_terminal() {
    let records = vec![Record::new(None, 0)];
    assert_eq!(
        render(&records, 0, 10, 24)[2],
        print("0it [00:00")
    );
    let mut wide = Record::new(Some(10), 0);
    wide.configure(Setting::Width(Some(40))).unwrap();
    let frame = render(&vec![wide], 0, 30, 24);
    // drawn for 40 columns, cut to the 30 there are
    assert_eq!(frame[2], print("  0%|            | 0/10 [00:00"));
    let mut narrow = Record::new(Some(10), 0);
    narrow.configure(Setting::Width(Some(29))).unwrap();
    let frame = render(&vec![narrow], 0, 32, 24);
    assert_eq!(frame[2], print("  0%| | 0/10 [00:00<?, ?it/s]   "));
}

#[test]
fn bars_that_do_not_fit_are_counted() {
    let mut records = Vec::new();
    for _ in 0..5 {
        records.push(Record::new(None, 0));
    }
    assert_eq!(
        render(&records, 0, 18, 3),
        vec![
            Command::HideCursor,
            Command::MoveToColumn(0),
            print("0it [00:00, ?it/s]"),
            print("0it [00:00, ?it/s]"),
            Command::ClearFromCursorDown,
            print(" ... (3 more hidden) ..."),
            Command::MoveToColumn(0),
            Command::MoveUp(2),
            Command::ShowCursor,
            Command::Flush,
        ]
    );
    // exactly as many bars as rows: one has to go
    let frame = render(&records, 0, 18, 5);
    assert_eq!(frame.len(), 2 + 4 + 3 + 1 + 2);
    assert_eq!(frame[7], print(" ... (1 more hidden) ..."));
    assert_eq!(frame[9], Command::MoveUp(4));
    // one row to spare: all are drawn
    let frame = render(&records, 0, 18, 6);
    assert_eq!(frame.len(), 2 + 5 + 1 + 2);
    assert_eq!(frame[7], Command::MoveUp(4));
}

#[test]
fn tiny_terminals() {
    let records = vec![Record::new(None, 0), Record::new(None, 0)];
    for rows in [0, 1] {
        assert_eq!(
            render(&records, 0, 18, rows),
            vec![
                Command::HideCursor,
                Command::MoveToColumn(0),
                Command::ClearFromCursorDown,
                print(" ... (2 more hidden) ..."),
                Command::MoveToColumn(0),
                Command::ShowCursor,
                Command::Flush,
            ]
        );
    }
    assert_eq!(
        render(&records, 0, 0, 24),
        vec![
            Command::HideCursor,
            Command::MoveToColumn(0),
            print(""),
            print(""),
            Command::MoveUp(1),
            Command::ShowCursor,
            Command::Flush,
        ]
    );
}

#[test]
fn kept_bar_prints_its_last_line() {
    let mut record = Record::new(Some(4), 0);
    record.update(4, SECOND);
    assert_eq!(
        finalize(&record, 2, SECOND, 33),
        vec![
            Command::MoveToColumn(0),
            print("100%|██████| 4/4 [00:01<?, ?it/s]"),
            print("\n"),
        ]
    );
    record.configure(Setting::Width(Some(31))).unwrap();
    assert_eq!(
        finalize(&record, 0, SECOND, 33)[1],
        print("100%|████| 4/4 [00:01<?, ?it/s]")
    );
}

#[test]
fn cleared_bar_wipes_its_row() {
    let mut record = Record::new(Some(4), 0);
    record.configure(Setting::ClearOnClose(true)).unwrap();
    assert_eq!(
        finalize(&record, 2, SECOND, 33),
        vec![
            Command::MoveToColumn(0),
            Command::MoveDown(2),
            Command::ClearCurrentLine,
            Command::MoveUp(2),
        ]
    );
    assert_eq!(
        finalize(&record, 0, SECOND, 33),
        vec![Command::MoveToColumn(0), Command::ClearCurrentLine]
    );
    assert_eq!(
        finalize(&record, 70_000, SECOND, 33),
        vec![
            Command::MoveToColumn(0),
            Command::MoveDown(65_535),
            Command::ClearCurrentLine,
            Command::MoveUp(65_535),
        ]
    );
}

#[test]
fn creation_draws_the_new_bar() {
    let mut registry = Registry::new();
    let (first, frame) = pbar(&mut registry, Some(10), 0, Some((30, 24)));
    assert_eq!(first.id(), 0);
    assert!(!first.is_closed());
    assert_eq!(
        frame,
        vec![
            Command::HideCursor,
            Command::MoveToColumn(0),
            print("  0%|  | 0/10 [00:00<?, ?it/s]"),
            Command::ShowCursor,
            Command::Flush,
        ]
    );
    let (second, frame) = pbar(&mut registry, None, SECOND, Some((30, 24)));
    assert_eq!(second.id(), 1);
    assert_eq!(frame, refresh(&registry, SECOND, Some((30, 24))));
    assert_eq!(frame.len(), 7);
    assert_eq!(frame[3], print("0it [00:00, ?it/s]            "));
}

#[test]
fn closing_the_upper_bar_moves_the_lower_one_up() {
    let size = Some((30, 24));
    let mut registry = Registry::new();
    let (mut upper, _) = pbar(&mut registry, Some(10), 0, size);
    let (mut lower, _) = pbar(&mut registry, None, 0, size);
    upper.advance(&mut registry, 10, SECOND, size);
    assert_eq!(
        upper.close(&mut registry, SECOND, size),
        vec![
            Command::MoveToColumn(0),
            print("100%|█| 10/10 [00:01<?, ?it/s]"),
            print("\n"),
            Command::HideCursor,
            Command::MoveToColumn(0),
            print("0it [00:01, ?it/s]            "),
            Command::ShowCursor,
            Command::Flush,
        ]
    );
    assert_eq!(registry.row_of(lower.id()), Some(0));
    lower
        .configure(&mut registry, Setting::ClearOnClose(true))
        .unwrap();
    assert_eq!(
        lower.close(&mut registry, SECOND, size),
        vec![
            Command::MoveToColumn(0),
            Command::ClearCurrentLine,
            Command::Flush,
        ]
    );
}

fn flushes(bar: &mut Pbar, n: usize, now: u64) -> Option<usize> {
    bar.update(n, now)
}

#[test]
fn throttle_by_time() {
    assert_eq!(MIN_INTERVAL, 41_667);
    assert_eq!(MIN_ITERATIONS, 1);
    let mut registry = Registry::new();
    let (mut bar, _) = pbar(&mut registry, None, 0, None);
    assert_eq!(flushes(&mut bar, 1, 100), Some(1));
    assert_eq!(flushes(&mut bar, 1, 200), None);
    assert_eq!(flushes(&mut bar, 1, 100 + 41_666), None);
    assert_eq!(flushes(&mut bar, 1, 100 + 41_667), Some(3));
    assert_eq!(flushes(&mut bar, 0, 100 + 2 * 41_667), None);
    assert_eq!(flushes(&mut bar, 2, 100 + 2 * 41_667), Some(2));
    assert_eq!(flushes(&mut bar, 1, u64::MAX), Some(1));
    assert_eq!(flushes(&mut bar, 1, u64::MAX), Some(1));
}

#[test]
fn throttle_by_count() {
    let mut registry = Registry::new();
    let (bar, _) = pbar(&mut registry, None, 0, None);
    let mut bar = bar.throttle(10, 0);
    for k in 1..10 {
        assert_eq!(flushes(&mut bar, 1, k), None);
    }
    assert_eq!(flushes(&mut bar, 1, 10), Some(10));
    assert_eq!(flushes(&mut bar, 25, 10), Some(25));
    assert_eq!(flushes(&mut bar, usize::MAX, 11), Some(usize::MAX));
    assert_eq!(flushes(&mut bar, 9, 12), None);
    assert_eq!(flushes(&mut bar, usize::MAX, 12), Some(usize::MAX));
}

#[test]
fn advance_draws_only_on_a_flush() {
    let size = Some((30, 24));
    let mut registry = Registry::new();
    let (mut bar, _) = pbar(&mut registry, Some(10), 0, size);
    assert_eq!(
        bar.advance(&mut registry, 5, 0, size),
        vec![
            Command::HideCursor,
            Command::MoveToColumn(0),
            // p = 2 * 5/10 = 1.0: one full cell, then level 0
            print(" 50%|█ | 5/10 [00:00<?, ?it/s]"),
            Command::ShowCursor,
            Command::Flush,
        ]
    );
    assert_eq!(bar.advance(&mut registry, 1, 1, size), Vec::<Command>::new());
    assert_eq!(registry.snapshot_ordered()[0].completed(), 5);
    let frame = bar.advance(&mut registry, 1, SECOND, size);
    assert_eq!(frame[2], print(" 70%|| 7/10 [00:01<00:01, 2.00"));
    assert_eq!(registry.snapshot_ordered()[0].completed(), 7);
}

#[test]
fn half_way_on_forty_columns() {
    let size = Some((40, 24));
    let mut registry = Registry::new();
    let (mut bar, _) = pbar(&mut registry, Some(100), 0, size);
    let frame = bar.advance(&mut registry, 50, 0, size);
    let line = match &frame[2] {
        Command::Print(line) => line.clone(),
        other => panic!("{:?}", other),
    };
    let head = " 50%|";
    let tail = "| 50/100 [00:00<?, ?it/s]";
    assert!(line.starts_with(head));
    assert!(line.ends_with(tail));
    assert_eq!(line.chars().count(), 40);
    let cells = 40 - head.chars().count() - tail.chars().count();
    let bar_text: String = line.chars().skip(head.chars().count()).take(cells).collect();
    assert_eq!(bar_text, "█████     ");
    assert_eq!(frame, refresh(&registry, 0, size));
}

#[test]
fn stream_shows_its_rate_after_the_second_advance() {
    let size = Some((30, 24));
    let mut registry = Registry::new();
    let (mut bar, _) = pbar(&mut registry, None, 0, size);
    let first = bar.advance(&mut registry, 1, 0, size);
    assert_eq!(first[2], print("1it [00:00, ?it/s]            "));
    let second = bar.advance(&mut registry, 1, SECOND, size);
    assert_eq!(second[2], print("2it [00:01, 1.00it/s]         "));
    for command in &second {
        if let Command::Print(line) = command {
            assert!(line.contains("2it ["));
            assert!(!line.contains("?it/s"));
        }
    }
}
