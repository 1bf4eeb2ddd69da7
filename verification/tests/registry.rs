use tqdm::{pbar, refresh, tqdm, Command, ConfigError, Record, Registry, Setting, Style};

const SECOND: u64 = 1_000_000;

fn lines(registry: &Registry, now: u64, width: usize) -> Vec<String> {
    registry
        .snapshot_ordered()
        .iter()
        .map(|record| record.format(now, width))
        .collect()
}

#[test]
fn ids_are_handed_out_in_order() {
    let mut registry = Registry::new();
    assert!(registry.is_empty());
    assert_eq!(registry.len(), 0);
    assert_eq!(registry.insert(Record::new(Some(1), 0)), Some(0));
    assert_eq!(registry.insert(Record::new(Some(2), 0)), Some(1));
    assert_eq!(registry.insert(Record::new(None, 0)), Some(2));
    assert_eq!(registry.len(), 3);
    assert!(!registry.is_empty());
    assert!(registry.contains(0) && registry.contains(1) && registry.contains(2));
    assert!(!registry.contains(3));
    assert_eq!(registry.row_of(0), Some(0));
    assert_eq!(registry.row_of(1), Some(1));
    assert_eq!(registry.row_of(2), Some(2));
    assert_eq!(registry.row_of(3), None);
}

#[test]
fn removed_ids_are_not_used_again() {
    let mut registry = Registry::new();
    for expected in 0..4 {
        assert_eq!(registry.insert(Record::new(None, 0)), Some(expected));
    }
    assert!(registry.remove(3).is_some());
    assert!(registry.remove(0).is_some());
    assert_eq!(registry.insert(Record::new(None, 0)), Some(4));
    assert_eq!(registry.row_of(1), Some(0));
    assert_eq!(registry.row_of(2), Some(1));
    assert_eq!(registry.row_of(4), Some(2));
    assert_eq!(registry.len(), 3);
}

#[test]
fn rows_close_up_after_a_removal() {
    let mut registry = Registry::new();
    for total in [10, 20, 30] {
        registry.insert(Record::new(Some(total), 0));
    }
    let gone = registry.remove(1).unwrap();
    assert_eq!(gone.total(), Some(20));
    assert_eq!(registry.row_of(0), Some(0));
    assert_eq!(registry.row_of(1), None);
    assert_eq!(registry.row_of(2), Some(1));
    let left: Vec<_> = registry
        .snapshot_ordered()
        .iter()
        .map(|record| record.total())
        .collect();
    assert_eq!(left, vec![Some(10), Some(30)]);
    assert!(registry.remove(1).is_none());
    assert_eq!(registry.len(), 2);
}

#[test]
fn rows_depend_on_membership_alone() {
    // {1, 3} reached on two ways
    let mut first = Registry::new();
    for _ in 0..4 {
        first.insert(Record::new(None, 0));
    }
    first.remove(0);
    first.remove(2);
    let mut second = Registry::new();
    for _ in 0..4 {
        second.insert(Record::new(None, 0));
    }
    second.update(3, 5, SECOND);
    second.remove(2);
    second.update(1, 7, SECOND);
    second.remove(0);
    for id in 0..5 {
        assert_eq!(first.row_of(id), second.row_of(id));
    }
    assert_eq!(first.row_of(1), Some(0));
    assert_eq!(first.row_of(3), Some(1));
}

#[test]
fn update_reaches_one_record_only() {
    let mut registry = Registry::new();
    registry.insert(Record::new(Some(10), 0));
    registry.insert(Record::new(Some(10), 0));
    registry.update(1, 4, SECOND);
    registry.update(1, 2, 2 * SECOND);
    let records = registry.snapshot_ordered();
    assert_eq!(records[0].completed(), 0);
    assert_eq!(records[0].rate_estimate(), None);
    assert_eq!(records[1].completed(), 6);
    assert_eq!(records[1].rate_estimate(), Some(2_000_000));
}

#[test]
fn late_update_does_not_revive_a_bar() {
    let mut registry = Registry::new();
    registry.insert(Record::new(Some(10), 0));
    registry.insert(Record::new(Some(10), 0));
    registry.remove(0);
    registry.update(0, 5, SECOND);
    registry.update(7, 5, SECOND);
    assert_eq!(registry.len(), 1);
    assert!(!registry.contains(0));
    assert_eq!(registry.snapshot_ordered()[0].completed(), 0);
    // a request to a bar that is gone is checked, and changes nothing
    assert_eq!(
        registry.configure(0, Setting::Label(Some(String::from("late")))),
        Ok(())
    );
    assert_eq!(
        registry.configure(0, Setting::Style(Style::Custom(String::new()))),
        Err(ConfigError::EmptyStyle)
    );
    assert_eq!(registry.len(), 1);
    assert_eq!(lines(&registry, 0, 32), vec!["  0%|    | 0/10 [00:00<?, ?it/s]"]);
}

#[test]
fn snapshot_is_a_copy() {
    let mut registry = Registry::new();
    registry.insert(Record::new(Some(10), 0));
    let before = registry.snapshot_ordered();
    registry.update(0, 5, SECOND);
    assert_eq!(before[0].completed(), 0);
    assert_eq!(registry.snapshot_ordered()[0].completed(), 5);
}

#[test]
fn unknown_style_is_refused_at_once() {
    let mut registry = Registry::new();
    let (bar, _) = pbar(&mut registry, Some(8), 0, None);
    let before = lines(&registry, 0, 31);
    assert_eq!(
        bar.configure(&mut registry, Setting::StyleName(String::from("Sparkles"))),
        Err(ConfigError::UnknownStyle)
    );
    assert_eq!(lines(&registry, 0, 31), before);
    assert_eq!(registry.len(), 1);
    assert_eq!(
        bar.configure(&mut registry, Setting::StyleName(String::from("ASCII"))),
        Ok(())
    );
    assert_eq!(lines(&registry, 0, 31), vec!["  0%|0000| 0/8 [00:00<?, ?it/s]"]);
}

#[test]
fn each_refusal_leaves_the_registry_alone() {
    let mut registry = Registry::new();
    let (bar, _) = tqdm(&mut registry, 0..8, 0, None);
    let before = lines(&registry, 0, 40);
    let (bar, reason) = bar
        .style(&mut registry, Style::Custom(String::new()))
        .unwrap_err();
    assert_eq!(reason, ConfigError::EmptyStyle);
    let (bar, reason) = bar.smoothing(&mut registry, 0).unwrap_err();
    assert_eq!(reason, ConfigError::SmoothingOutOfRange);
    let (bar, reason) = bar.smoothing(&mut registry, 1_000_001).unwrap_err();
    assert_eq!(reason, ConfigError::SmoothingOutOfRange);
    assert_eq!(lines(&registry, 0, 40), before);
    let bar = bar.smoothing(&mut registry, 1_000_000).unwrap();
    let mut bar = bar.style(&mut registry, Style::Pacman).unwrap();
    assert_eq!(
        lines(&registry, 0, 31),
        vec!["  0%|CCCC| 0/8 [00:00<?, ?it/s]"]
    );
    bar.pbar.close(&mut registry, 0, None);
    assert!(registry.is_empty());
}

#[test]
fn builders_configure_the_bar() {
    let mut registry = Registry::new();
    let (bar, _) = tqdm(&mut registry, 0..8, 0, None);
    let bar = bar
        .desc(&mut registry, Some("Bar1"))
        .width(&mut registry, Some(37))
        .clear(&mut registry, true);
    let record = &registry.snapshot_ordered()[0];
    assert_eq!(record.fixed_width(), Some(37));
    assert!(record.clear_on_close());
    assert_eq!(
        record.format(0, 37),
        "Bar1:   0%|    | 0/8 [00:00<?, ?it/s]"
    );
    let bar = bar.desc(&mut registry, None).width(&mut registry, None);
    let record = &registry.snapshot_ordered()[0];
    assert_eq!(record.fixed_width(), None);
    assert_eq!(record.format(0, 31), "  0%|    | 0/8 [00:00<?, ?it/s]");
    assert_eq!(bar.pbar.id(), 0);
}

#[test]
fn wrapped_iterator_gives_the_total() {
    let mut registry = Registry::new();
    let (_, _) = tqdm(&mut registry, 0..17, 0, None);
    let (_, _) = tqdm(&mut registry, 0.., 0, None);
    let (_, _) = tqdm(&mut registry, vec![1, 2, 3].into_iter(), 0, None);
    let totals: Vec<_> = registry
        .snapshot_ordered()
        .iter()
        .map(|record| record.total())
        .collect();
    assert_eq!(totals, vec![Some(17), None, Some(3)]);
}

#[test]
fn wrapped_iterator_hands_items_on() {
    let mut registry = Registry::new();
    let (mut bar, _) = tqdm(&mut registry, vec!['a', 'b', 'c'].into_iter(), 0, None);
    let mut seen = Vec::new();
    let mut now = 0;
    while let (Some(item), _) = bar.next(&mut registry, now, None) {
        seen.push(item);
        now += SECOND;
    }
    assert_eq!(seen, vec!['a', 'b', 'c']);
    assert_eq!(bar.iter.next(), None);
    // the end of the sequence has closed the bar
    assert!(bar.pbar.is_closed());
    assert!(registry.is_empty());
    let (item, frame) = bar.next(&mut registry, now, None);
    assert_eq!(item, None);
    assert!(frame.is_empty());
    assert!(registry.is_empty());
}

#[test]
fn close_twice_is_close_once() {
    let mut registry = Registry::new();
    let (mut first, _) = pbar(&mut registry, Some(10), 0, None);
    let (mut second, _) = pbar(&mut registry, Some(20), 0, None);
    first.advance(&mut registry, 3, SECOND, None);
    let farewell = first.close(&mut registry, 2 * SECOND, None);
    assert!(!farewell.is_empty());
    assert!(first.is_closed());
    assert_eq!(registry.len(), 1);
    let state = lines(&registry, 2 * SECOND, 40);
    let again = first.close(&mut registry, 3 * SECOND, None);
    assert_eq!(again, Vec::<Command>::new());
    assert!(first.is_closed());
    assert_eq!(registry.len(), 1);
    assert_eq!(lines(&registry, 2 * SECOND, 40), state);
    assert!(registry.contains(second.id()));
    // a closed handle takes no more progress
    assert_eq!(first.update(5, 9 * SECOND), None);
    assert!(first.advance(&mut registry, 5, 9 * SECOND, None).is_empty());
    second.close(&mut registry, 3 * SECOND, None);
    assert!(registry.is_empty());
    assert!(second.close(&mut registry, 3 * SECOND, None).is_empty());
    assert!(refresh(&registry, 4 * SECOND, None).is_empty());
}

#[test]
fn close_flushes_what_is_pending() {
    let mut registry = Registry::new();
    let (mut bar, _) = pbar(&mut registry, Some(10), 0, Some((40, 24)));
    assert!(!bar.advance(&mut registry, 4, SECOND, None).is_empty());
    // too soon for a second flush: the items stay with the handle
    assert!(bar.advance(&mut registry, 6, SECOND + 10, None).is_empty());
    assert_eq!(registry.snapshot_ordered()[0].completed(), 4);
    let farewell = bar.close(&mut registry, 3 * SECOND, Some((40, 24)));
    assert_eq!(
        farewell,
        vec![
            Command::MoveToColumn(0),
            Command::Print(String::from("100%|████| 10/10 [00:03<00:00, 3.00it/s]")),
            Command::Print(String::from("\n")),
            Command::Flush,
        ]
    );
}

#[test]
fn interleaved_handles_keep_their_own_records() {
    let mut registry = Registry::new();
    let mut handles = Vec::new();
    for k in 0..4usize {
        let (bar, _) = pbar(&mut registry, Some(100), 0, None);
        assert_eq!(bar.id(), k);
        handles.push(bar);
    }
    let mut now = 0;
    for round in 1..=10usize {
        now += SECOND;
        for (k, bar) in handles.iter_mut().enumerate() {
            bar.advance(&mut registry, k + 1, now, None);
        }
        if round == 5 {
            let mut gone = handles.remove(1);
            gone.close(&mut registry, now, None);
            let (bar, _) = pbar(&mut registry, Some(100), now, None);
            assert_eq!(bar.id(), 4);
            handles.push(bar);
        }
    }
    let ids: Vec<_> = handles.iter().map(|bar| bar.id()).collect();
    assert_eq!(ids, vec![0, 2, 3, 4]);
    for (row, id) in ids.iter().enumerate() {
        assert_eq!(registry.row_of(*id), Some(row));
    }
    let counts: Vec<_> = registry
        .snapshot_ordered()
        .iter()
        .map(|record| record.completed())
        .collect();
    // bar 0: 10 * 1; bar 2: 5 * 3 + 5 * 2; bar 3: 5 * 4 + 5 * 3; bar 4: 5 * 4
    assert_eq!(counts, vec![10, 25, 35, 20]);
}

#[test]
fn rows_among_many_bars() {
    let mut registry = Registry::new();
    for id in 0..100 {
        assert_eq!(registry.insert(Record::new(Some(id), 0)), Some(id));
    }
    for id in 0..100 {
        assert_eq!(registry.row_of(id), Some(id));
    }
    for id in (0..100).filter(|id| id % 3 != 1) {
        assert_eq!(registry.remove(id).unwrap().total(), Some(id));
    }
    // 1, 4, 7, ... are left
    assert_eq!(registry.len(), 33);
    for id in 0..110 {
        let expected = if id < 100 && id % 3 == 1 {
            Some(id / 3)
        } else {
            None
        };
        assert_eq!(registry.row_of(id), expected, "id {}", id);
        assert_eq!(registry.contains(id), expected.is_some());
    }
    registry.update(97, 5, SECOND);
    assert_eq!(registry.snapshot_ordered()[32].completed(), 5);
    assert_eq!(registry.snapshot_ordered()[32].total(), Some(97));
    assert_eq!(registry.insert(Record::new(None, 0)), Some(100));
    assert_eq!(registry.row_of(100), Some(33));
    assert_eq!(registry.row_of(usize::MAX), None);
}
