use perlin::{Corner, Offset, Perlin};
use rand::Rng;
use rand::SeedableRng;
use rand_chacha::ChaCha8Rng;

fn angles(field: &Perlin) -> Vec<f64> {
    let mut rng = ChaCha8Rng::seed_from_u64(field.get_seed());
    let mut drawn = Vec::new();
    for _ in 0..field.get_vertex_count() {
        drawn.push(rng.gen_range(0.0..(std::f64::consts::PI * 2.0)));
    }
    drawn
}

fn component(offset: Offset) -> f64 {
    let length = offset.magnitude as f64;
    if offset.negative {
        -length
    } else {
        length
    }
}

fn influence(corner: &Corner, angles: &[f64]) -> f64 {
    let angle = angles[corner.vertex];
    component(corner.dx) * angle.cos() + component(corner.dy) * angle.sin()
}

fn fade(x: f64) -> f64 {
    (6.0 * x.powi(5)) - (15.0 * x.powi(4)) + (10.0 * x.powi(3))
}

fn lerp(t: f64, a1: f64, a2: f64) -> f64 {
    (1.0 - t) * a1 + t * a2
}

fn intensity(field: &Perlin, angles: &[f64], x: usize, y: usize) -> f64 {
    let stencil = field.stencil(x, y).unwrap();
    let size = field.get_chunk_size() as f64;
    let xf = fade(stencil.local_x as f64 / size);
    let yf = fade(stencil.local_y as f64 / size);
    let top = lerp(xf, influence(&stencil.top_left, angles), influence(&stencil.top_right, angles));
    let bottom = lerp(
        xf,
        influence(&stencil.bottom_left, angles),
        influence(&stencil.bottom_right, angles),
    );
    lerp(yf, top, bottom)
}

#[test]
fn gradient_angles_of_seed_42() {
    let field = Perlin::new(1, 1, 4, 42);
    let bits: Vec<u64> = angles(&field).iter().map(|angle| angle.to_bits()).collect();
    assert_eq!(
        bits,
        vec![
            4616509914213968203,
            4618408492591168806,
            4613231124153415390,
            4616058613766390334,
        ]
    );
}

#[test]
fn centre_pixel_blends_the_four_corners() {
    let field = Perlin::new(1, 1, 4, 42);
    let angles = angles(&field);

    let top_left = -2.0 * angles[0].cos() + -2.0 * angles[0].sin();
    let top_right = 2.0 * angles[2].cos() + -2.0 * angles[2].sin();
    let bottom_left = -2.0 * angles[1].cos() + 2.0 * angles[1].sin();
    let bottom_right = 2.0 * angles[3].cos() + 2.0 * angles[3].sin();
    let blend = (top_left + top_right + bottom_left + bottom_right) / 4.0;

    let centre = intensity(&field, &angles, 2, 2);
    assert!((centre - blend).abs() < 1e-12);
    assert!((centre - -1.3430667771760754).abs() < 1e-12);
}

#[test]
fn pixel_on_a_vertex_feels_no_gradient() {
    let field = Perlin::new(1, 1, 4, 42);
    let angles = angles(&field);
    assert_eq!(intensity(&field, &angles, 0, 0), 0.0);
}

#[test]
fn pixels_of_a_single_chunk() {
    let field = Perlin::new(1, 1, 4, 42);
    let angles = angles(&field);
    let expected = [
        (0, 1, 0.7202002748502073),
        (1, 0, 0.0931195806075707),
        (1, 1, 0.5545460943447679),
        (3, 0, -0.6762409751255856),
        (3, 3, -1.5931102022085706),
    ];
    for (x, y, value) in expected {
        assert!((intensity(&field, &angles, x, y) - value).abs() < 1e-12);
    }
}

#[test]
fn same_field_twice_is_the_same_bit_for_bit() {
    let first = Perlin::new(3, 2, 8, 2024);
    let second = Perlin::new(3, 2, 8, 2024);
    let first_angles = angles(&first);
    let second_angles = angles(&second);
    for x in 0..first.get_width() {
        for y in 0..first.get_height() {
            let a = intensity(&first, &first_angles, x, y);
            let b = intensity(&second, &second_angles, x, y);
            assert_eq!(a.to_bits(), b.to_bits());
        }
    }
}
