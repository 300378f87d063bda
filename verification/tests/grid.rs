use perlin::{Corner, Offset, Perlin};

fn towards(magnitude: usize) -> Offset {
    Offset { negative: false, magnitude }
}

fn against(magnitude: usize) -> Offset {
    Offset { negative: true, magnitude }
}

#[test]
fn extents_are_chunks_times_chunk_size() {
    let field = Perlin::new(5, 3, 100, 7);
    assert_eq!(field.get_width(), 500);
    assert_eq!(field.get_height(), 300);
    assert_eq!(field.get_chunks_x(), 5);
    assert_eq!(field.get_chunks_y(), 3);
    assert_eq!(field.get_chunk_size(), 100);
    assert_eq!(field.get_seed(), 7);
}

#[test]
fn one_vertex_per_chunk_corner() {
    assert_eq!(Perlin::new(1, 1, 4, 0).get_vertex_count(), 4);
    assert_eq!(Perlin::new(5, 3, 100, 0).get_vertex_count(), 24);
    assert_eq!(Perlin::new(0, 0, 9, 0).get_vertex_count(), 1);
}

#[test]
fn same_description_from_same_numbers() {
    assert_eq!(Perlin::new(2, 3, 5, 11), Perlin::new(2, 3, 5, 11));
    assert_ne!(Perlin::new(2, 3, 5, 11), Perlin::new(2, 3, 5, 12));
}

#[test]
fn centre_of_a_single_chunk() {
    let field = Perlin::new(1, 1, 4, 42);
    let stencil = field.stencil(2, 2).unwrap();
    assert_eq!(stencil.top_left, Corner { vertex: 0, dx: against(2), dy: against(2) });
    assert_eq!(stencil.top_right, Corner { vertex: 2, dx: towards(2), dy: against(2) });
    assert_eq!(stencil.bottom_left, Corner { vertex: 1, dx: against(2), dy: towards(2) });
    assert_eq!(stencil.bottom_right, Corner { vertex: 3, dx: towards(2), dy: towards(2) });
    assert_eq!(stencil.local_x, 2);
    assert_eq!(stencil.local_y, 2);
}

#[test]
fn pixel_on_the_near_corner_keeps_its_side() {
    let field = Perlin::new(1, 1, 4, 42);
    let stencil = field.stencil(0, 0).unwrap();
    assert_eq!(stencil.top_left, Corner { vertex: 0, dx: against(0), dy: against(0) });
    assert_eq!(stencil.top_right, Corner { vertex: 2, dx: towards(4), dy: against(0) });
    assert_eq!(stencil.bottom_left, Corner { vertex: 1, dx: against(0), dy: towards(4) });
    assert_eq!(stencil.bottom_right, Corner { vertex: 3, dx: towards(4), dy: towards(4) });
    assert_eq!(stencil.local_x, 0);
    assert_eq!(stencil.local_y, 0);
}

#[test]
fn vertices_are_counted_along_the_second_axis_first() {
    let field = Perlin::new(2, 3, 5, 0);
    let stencil = field.stencil(7, 12).unwrap();
    assert_eq!(stencil.top_left.vertex, 6);
    assert_eq!(stencil.bottom_left.vertex, 7);
    assert_eq!(stencil.top_right.vertex, 10);
    assert_eq!(stencil.bottom_right.vertex, 11);
    assert_eq!(stencil.top_left.dx, against(2));
    assert_eq!(stencil.top_left.dy, against(2));
    assert_eq!(stencil.bottom_right.dx, towards(3));
    assert_eq!(stencil.bottom_right.dy, towards(3));
    assert_eq!(stencil.local_x, 2);
    assert_eq!(stencil.local_y, 2);
}

#[test]
fn every_corner_is_a_vertex_of_the_field() {
    let field = Perlin::new(3, 2, 4, 0);
    let vertices = field.get_vertex_count();
    for x in 0..field.get_width() {
        for y in 0..field.get_height() {
            let stencil = field.stencil(x, y).unwrap();
            assert!(stencil.top_left.vertex < vertices);
            assert!(stencil.top_right.vertex < vertices);
            assert!(stencil.bottom_left.vertex < vertices);
            assert!(stencil.bottom_right.vertex < vertices);
            assert_eq!(stencil.top_left.dx.magnitude + stencil.top_right.dx.magnitude, 4);
            assert_eq!(stencil.top_left.dy.magnitude + stencil.bottom_left.dy.magnitude, 4);
        }
    }
}

#[test]
fn neighbouring_chunks_share_their_vertices() {
    let field = Perlin::new(2, 2, 10, 0);
    let left = field.stencil(9, 3).unwrap();
    let right = field.stencil(10, 3).unwrap();
    assert_eq!(left.top_right.vertex, right.top_left.vertex);
    assert_eq!(left.bottom_right.vertex, right.bottom_left.vertex);
    let upper = field.stencil(4, 9).unwrap();
    let lower = field.stencil(4, 10).unwrap();
    assert_eq!(upper.bottom_left.vertex, lower.top_left.vertex);
    assert_eq!(upper.bottom_right.vertex, lower.top_right.vertex);
}

#[test]
fn no_stencil_outside_the_field() {
    let field = Perlin::new(2, 3, 5, 0);
    assert!(field.stencil(9, 14).is_some());
    assert_eq!(field.stencil(10, 0), None);
    assert_eq!(field.stencil(0, 15), None);
    assert_eq!(field.stencil(usize::MAX, usize::MAX), None);
}

#[test]
fn single_pixel_field() {
    let field = Perlin::new(1, 1, 1, 0);
    assert_eq!(field.get_width(), 1);
    assert_eq!(field.get_height(), 1);
    let stencil = field.stencil(0, 0).unwrap();
    assert_eq!(stencil.local_x, 0);
    assert_eq!(stencil.local_y, 0);
    assert_eq!(stencil.bottom_right, Corner { vertex: 3, dx: towards(1), dy: towards(1) });
    assert_eq!(field.stencil(1, 0), None);
}

#[test]
fn chunks_of_no_size_make_an_empty_field() {
    let field = Perlin::new(4, 4, 0, 0);
    assert_eq!(field.get_width(), 0);
    assert_eq!(field.get_height(), 0);
    assert_eq!(field.get_vertex_count(), 25);
    assert_eq!(field.stencil(0, 0), None);
}

#[test]
fn no_chunks_make_an_empty_field() {
    let field = Perlin::new(0, 3, 8, 0);
    assert_eq!(field.get_width(), 0);
    assert_eq!(field.get_height(), 24);
    assert_eq!(field.stencil(0, 0), None);
}

#[test]
fn fits_tells_what_machine_words_hold() {
    assert!(Perlin::fits(5, 5, 100));
    assert!(Perlin::fits(0, 0, usize::MAX));
    assert!(Perlin::fits(1, 1, usize::MAX));
    assert!(Perlin::fits(usize::MAX - 1, 0, 1));
    assert!(!Perlin::fits(usize::MAX, 0, 0));
    assert!(!Perlin::fits(0, usize::MAX, 0));
    assert!(!Perlin::fits(2, 1, usize::MAX));
    assert!(!Perlin::fits(1, usize::MAX / 2 + 1, 2));
    assert!(!Perlin::fits(usize::MAX / 2, usize::MAX / 2, 0));
}
