use ray_tracer::color::Rgb;
use ray_tracer::reorder::{ReorderBuffer, Row};

fn row(enumerator: usize, level: u8) -> Row {
    Row {
        enumerator,
        colors: vec![Rgb::new(level, level, level)],
    }
}

#[test]
fn in_order_arrival_releases_immediately() {
    let mut buf = ReorderBuffer::new();
    for k in 0..4usize {
        let out = buf.push(row(k, k as u8));
        assert_eq!(out.len(), 1);
        assert_eq!(out[0].enumerator, k);
        assert_eq!(buf.next_row_index(), k + 1);
        assert!(buf.is_drained());
    }
}

#[test]
fn out_of_order_arrival_is_reserialized() {
    let mut buf = ReorderBuffer::new();
    let out = buf.push(row(2, 2));
    assert_eq!(out.len(), 0);
    assert_eq!(buf.pending_count(), 1);
    let out = buf.push(row(0, 0));
    assert_eq!(out.len(), 1);
    assert_eq!(out[0].enumerator, 0);
    let out = buf.push(row(1, 1));
    assert_eq!(out.len(), 2);
    assert_eq!(out[0].enumerator, 1);
    assert_eq!(out[1].enumerator, 2);
    assert!(buf.is_drained());
    assert_eq!(buf.next_row_index(), 3);
}

#[test]
fn reverse_arrival_buffers_until_first_row() {
    let mut buf = ReorderBuffer::new();
    for k in [4usize, 3, 2, 1] {
        let out = buf.push(row(k, k as u8));
        assert_eq!(out.len(), 0);
    }
    assert_eq!(buf.pending_count(), 4);
    let out = buf.push(row(0, 0));
    assert_eq!(out.len(), 5);
    for (k, r) in out.iter().enumerate() {
        assert_eq!(r.enumerator, k);
    }
    assert!(buf.is_drained());
}

#[test]
fn emission_is_strictly_ascending_overall() {
    // The ordering law on a concrete shuffled arrival: across all batches,
    // row k + 1 never leaves before row k.
    let arrivals = [5usize, 0, 3, 1, 2, 7, 6, 4];
    let mut buf = ReorderBuffer::new();
    let mut emitted: Vec<usize> = Vec::new();
    for k in arrivals {
        for r in buf.push(row(k, k as u8)) {
            emitted.push(r.enumerator);
        }
    }
    assert_eq!(emitted, vec![0, 1, 2, 3, 4, 5, 6, 7]);
    assert!(buf.is_drained());
    assert_eq!(buf.next_row_index(), 8);
}

#[test]
fn rows_keep_their_pixels() {
    let mut buf = ReorderBuffer::new();
    assert_eq!(buf.push(row(1, 11)).len(), 0);
    let out = buf.push(row(0, 22));
    assert_eq!(out.len(), 2);
    assert_eq!(out[0].colors, vec![Rgb::new(22, 22, 22)]);
    assert_eq!(out[1].colors, vec![Rgb::new(11, 11, 11)]);
}
