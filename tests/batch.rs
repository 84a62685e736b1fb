use algurulgar::batch::{quad_indices, tri_indices, upload_mode, Batch, Upload};

fn draw(batch: &mut Batch<u32>, n: u32) -> Vec<Vec<u32>> {
    let mut submitted = Vec::new();
    for q in 0..n {
        if let Some(full) = batch.push_quad(4 * q, 4 * q + 1, 4 * q + 2, 4 * q + 3) {
            submitted.push(full);
        }
    }
    if let Some(rest) = batch.finish() {
        submitted.push(rest);
    }
    submitted
}

#[test]
fn seventy_quads_with_capacity_sixty_four() {
    let mut batch: Batch<u32> = Batch::new(64);
    let submitted = draw(&mut batch, 70);
    assert_eq!(submitted.len(), 2);
    assert_eq!(submitted[0].len(), 64 * 4);
    assert_eq!(submitted[1].len(), 6 * 4);
    assert_eq!(batch.len(), 0);
}

#[test]
fn submissions_cover_every_vertex_in_order() {
    for (n, cap) in [(5u32, 2usize), (9, 3), (10, 10), (11, 10), (1, 1), (200, 7)] {
        let mut batch: Batch<u32> = Batch::new(cap);
        let submitted = draw(&mut batch, n);
        let expected = (n as usize + cap - 1) / cap;
        assert_eq!(submitted.len(), expected);
        let all: Vec<u32> = submitted.iter().flatten().copied().collect();
        assert_eq!(all, (0..4 * n).collect::<Vec<u32>>());
        assert!(submitted.iter().all(|s| !s.is_empty() && s.len() <= 4 * cap));
    }
}

#[test]
fn empty_batch_submits_nothing() {
    let mut batch: Batch<u32> = Batch::new(4);
    assert!(batch.finish().is_none());
    assert_eq!(batch.max_quads(), 4);
}

#[test]
fn clear_drops_pending_vertices() {
    let mut batch: Batch<u8> = Batch::new(2);
    assert!(batch.push_quad(1, 2, 3, 4).is_none());
    assert_eq!(batch.len(), 4);
    batch.clear();
    assert_eq!(batch.len(), 0);
    assert!(batch.finish().is_none());
}

#[test]
fn quad_index_pattern() {
    let idx = quad_indices(3);
    assert_eq!(idx, vec![0, 1, 2, 2, 3, 0, 4, 5, 6, 6, 7, 4, 8, 9, 10, 10, 11, 8]);
    let big = quad_indices(16384);
    assert_eq!(big.len(), 6 * 16384);
    assert_eq!(big[big.len() - 2], 65535);
}

#[test]
fn triangle_indices_count_up() {
    assert_eq!(tri_indices(2), vec![0, 1, 2, 3, 4, 5]);
    assert!(tri_indices(0).is_empty());
}

#[test]
fn upload_policy() {
    assert_eq!(upload_mode(256, 256), Some(Upload::Whole));
    assert_eq!(upload_mode(24, 256), Some(Upload::Prefix(24)));
    assert_eq!(upload_mode(0, 256), Some(Upload::Prefix(0)));
    assert_eq!(upload_mode(257, 256), None);
}
