use banner_ga::palette::{palette_color, Color, PALETTE_LEN};
use banner_ga::random::{draw_coin, draw_index};
use banner_ga::raster::Raster;
use banner_ga::rate::Rate;
use banner_ga::selection::{select_by_threshold, sum_weights};
use banner_ga::texture_buffer::TextureBuffer;
use banner_ga::weight::{isqrt, weight, PERFECT_WEIGHT, WEIGHT_SCALE};

fn flat(color: Color, alphas: [u8; 4]) -> Raster {
    let mut data = Vec::new();
    for a in alphas {
        data.extend_from_slice(&[color.r, color.g, color.b, a]);
    }
    Raster::from_raw(2, 2, data).unwrap()
}

fn row_of(alphas: [u8; 4]) -> Vec<Raster> {
    (0..PALETTE_LEN).map(|c| flat(palette_color(c), alphas)).collect()
}

#[test]
fn raster_from_raw_wants_four_bytes_per_pixel() {
    assert!(Raster::from_raw(2, 2, vec![0; 16]).is_some());
    assert!(Raster::from_raw(2, 2, vec![0; 15]).is_none());
    assert!(Raster::from_raw(2, 2, vec![0; 17]).is_none());
    assert!(Raster::from_raw(0, 5, vec![]).is_some());
    assert!(Raster::from_raw(1, 1, vec![]).is_none());
}

#[test]
fn raster_round_trips_its_buffer() {
    let data: Vec<u8> = (0..16).collect();
    let r = Raster::from_raw(2, 2, data.clone()).unwrap();
    assert_eq!(r.width, 2);
    assert_eq!(r.height, 2);
    assert!(r.is_wf());
    let copy = r.clone();
    assert_eq!(copy.data, data);
    assert_eq!(r.into_raw(), data);
}

#[test]
fn distance_is_the_sum_of_squared_channel_differences() {
    let a = Raster::from_raw(1, 2, vec![0, 10, 20, 255, 7, 7, 7, 7]).unwrap();
    let b = Raster::from_raw(1, 2, vec![3, 6, 20, 0, 7, 8, 5, 7]).unwrap();
    // 3^2 + 4^2 + 0 + 255^2 + 0 + 1 + 2^2 + 0
    assert_eq!(a.sq_distance(&b), 9 + 16 + 65025 + 1 + 4);
    assert_eq!(b.sq_distance(&a), 9 + 16 + 65025 + 1 + 4);
}

#[test]
fn distance_of_identical_rasters_is_zero() {
    let a = Raster::from_raw(2, 1, vec![1, 2, 3, 4, 250, 251, 252, 253]).unwrap();
    assert_eq!(a.sq_distance(&a.clone()), 0);
    let mut other = a.clone();
    other.data[5] = 250;
    assert_eq!(a.sq_distance(&other), 1);
}

#[test]
fn distance_is_not_divided_by_the_pixel_count() {
    let black = Raster::from_raw(2, 2, vec![0; 16]).unwrap();
    let white = Raster::from_raw(2, 2, vec![255; 16]).unwrap();
    assert_eq!(black.sq_distance(&white), 16 * 255 * 255);
}

#[test]
fn isqrt_rounds_down() {
    assert_eq!(isqrt(0), 0);
    assert_eq!(isqrt(1), 1);
    assert_eq!(isqrt(3), 1);
    assert_eq!(isqrt(4), 2);
    assert_eq!(isqrt(99), 9);
    assert_eq!(isqrt(100), 10);
    assert_eq!(isqrt(u64::MAX), 0xFFFF_FFFF);
    assert_eq!(isqrt(0xFFFF_FFFE_0000_0001), 0xFFFF_FFFF);
    assert_eq!(isqrt(0xFFFF_FFFE_0000_0000), 0xFFFF_FFFE);
}

#[test]
fn weight_is_the_scaled_reciprocal_of_the_distance() {
    assert_eq!(WEIGHT_SCALE, 1_000_000_000);
    assert_eq!(PERFECT_WEIGHT, 1_000_000_000_000_000_000);
    assert_eq!(weight(0), PERFECT_WEIGHT);
    assert_eq!(weight(1), 1_000_000_000);
    assert_eq!(weight(4), 500_000_000);
    assert_eq!(weight(100), 100_000_000);
    // 1e9 / sqrt(2) = 707106781.18...
    assert_eq!(weight(2), 707_106_781);
    // 1e9 / sqrt(3) = 577350269.18...
    assert_eq!(weight(3), 577_350_269);
    assert_eq!(weight(1_000_000_000_000_000_000), 1);
    assert_eq!(weight(1_000_000_000_000_000_001), 0);
    assert_eq!(weight(u128::MAX), 0);
}

#[test]
fn weight_never_grows_with_the_fitness() {
    let mut last = weight(0);
    for f in 1..2000u128 {
        let w = weight(f * f / 7 + f);
        assert!(w <= last);
        last = w;
    }
}

#[test]
fn threshold_walk_selects_by_prefix_sums() {
    let weights = vec![1u64, 2, 3];
    assert_eq!(sum_weights(&weights), 6);
    assert_eq!(select_by_threshold(&weights, 0), 0);
    assert_eq!(select_by_threshold(&weights, 1), 1);
    assert_eq!(select_by_threshold(&weights, 2), 1);
    assert_eq!(select_by_threshold(&weights, 3), 2);
    assert_eq!(select_by_threshold(&weights, 5), 2);
}

#[test]
fn threshold_walk_falls_back_to_the_first_position() {
    let weights = vec![1u64, 2, 3];
    assert_eq!(select_by_threshold(&weights, 6), 0);
    assert_eq!(select_by_threshold(&weights, u128::MAX), 0);
    assert_eq!(select_by_threshold(&vec![0u64, 0], 0), 0);
}

#[test]
fn threshold_walk_skips_weights_of_zero() {
    let weights = vec![0u64, 4, 0, 2];
    assert_eq!(select_by_threshold(&weights, 0), 1);
    assert_eq!(select_by_threshold(&weights, 3), 1);
    assert_eq!(select_by_threshold(&weights, 4), 3);
    assert_eq!(select_by_threshold(&weights, 5), 3);
}

#[test]
fn each_position_is_selected_by_as_many_thresholds_as_its_weight() {
    let weights = vec![5u64, 0, 1, 9, 3];
    let total = sum_weights(&weights);
    assert_eq!(total, 18);
    let mut hits = vec![0u64; weights.len()];
    for t in 0..total {
        hits[select_by_threshold(&weights, t)] += 1;
    }
    assert_eq!(hits, weights);
}

#[test]
fn sum_of_weights_does_not_overflow() {
    let weights = vec![u64::MAX, u64::MAX, 1];
    assert_eq!(sum_weights(&weights), 2 * (u64::MAX as u128) + 1);
    assert_eq!(select_by_threshold(&weights, u64::MAX as u128), 1);
    assert_eq!(select_by_threshold(&weights, 2 * (u64::MAX as u128)), 2);
}

#[test]
fn rate_needs_a_denominator() {
    assert!(Rate::new(1, 0).is_none());
    let r = Rate::new(8, 10).unwrap();
    assert_eq!((r.num, r.den), (8, 10));
    let zero = Rate::new(0, 1).unwrap();
    assert_eq!((zero.num, zero.den), (0, 1));
}

#[test]
fn rate_decays_linearly() {
    let initial = Rate::new(8, 10).unwrap();
    let first = initial.decayed(0, 10);
    assert_eq!((first.num, first.den), (80, 100));
    assert_eq!(first.num * initial.den, initial.num * first.den);
    let middle = initial.decayed(5, 10);
    assert_eq!((middle.num, middle.den), (40, 100));
    let last = initial.decayed(9, 10);
    assert_eq!((last.num, last.den), (8, 100));
    let end = initial.decayed(10, 10);
    assert_eq!((end.num, end.den), (0, 100));
}

#[test]
fn rate_decay_has_room_for_large_numbers() {
    let initial = Rate::new(u64::MAX, u64::MAX).unwrap();
    let r = initial.decayed(0, usize::MAX);
    assert_eq!(r.num, (u64::MAX as u128) * (usize::MAX as u128));
    assert_eq!(r.den, r.num);
}

#[test]
fn rate_fires_for_draws_below_the_numerator() {
    let r = Rate::new(3, 10).unwrap();
    assert!(r.fires(0));
    assert!(r.fires(2));
    assert!(!r.fires(3));
    assert!(!r.fires(9));
    let hits = (0..10u128).filter(|d| r.fires(*d)).count();
    assert_eq!(hits, 3);
}

#[test]
fn draws_stay_in_range_and_vary() {
    let mut rng = rand::thread_rng();
    let mut seen = [false; 5];
    for _ in 0..500 {
        let d = draw_index(&mut rng, 5);
        assert!(d < 5);
        seen[d] = true;
    }
    assert_eq!(seen, [true; 5]);
    for _ in 0..50 {
        assert_eq!(draw_index(&mut rng, 1), 0);
    }
}

#[test]
fn coin_shows_both_sides() {
    let mut rng = rand::thread_rng();
    let heads = (0..400).filter(|_| draw_coin(&mut rng)).count();
    assert!(heads > 100 && heads < 300);
}

#[test]
fn texture_buffer_wants_full_rows_of_one_size() {
    let names = vec!["stripe".to_string()];
    assert!(TextureBuffer::new(names.clone(), row_of([255; 4]), vec![row_of([255, 255, 0, 0])])
        .is_some());
    // no texture at all
    assert!(TextureBuffer::new(vec![], row_of([255; 4]), vec![]).is_none());
    // a name without rasters
    assert!(TextureBuffer::new(names.clone(), row_of([255; 4]), vec![]).is_none());
    // a short row
    let mut short = row_of([255, 255, 0, 0]);
    short.pop();
    assert!(TextureBuffer::new(names.clone(), row_of([255; 4]), vec![short]).is_none());
    let mut short_base = row_of([255; 4]);
    short_base.pop();
    assert!(TextureBuffer::new(names.clone(), short_base, vec![row_of([255; 4])]).is_none());
    // a raster of another size
    let mut odd = row_of([255, 255, 0, 0]);
    odd[7] = Raster::from_raw(1, 1, vec![0; 4]).unwrap();
    assert!(TextureBuffer::new(names.clone(), row_of([255; 4]), vec![odd]).is_none());
    // a raster whose buffer does not match its size
    let mut broken = row_of([255, 255, 0, 0]);
    broken[3].data.pop();
    assert!(TextureBuffer::new(names, row_of([255; 4]), vec![broken]).is_none());
}

#[test]
fn texture_buffer_hands_out_the_tinted_rasters() {
    let names = vec!["stripe".to_string(), "dot".to_string()];
    let cache = TextureBuffer::new(
        names,
        row_of([255; 4]),
        vec![row_of([255, 255, 0, 0]), row_of([0, 0, 0, 255])],
    )
    .unwrap();
    assert_eq!(cache.len(), 2);
    assert_eq!((cache.width, cache.height), (2, 2));
    let pink = palette_color(4);
    assert_eq!(cache.get_colored_base(pink).data, flat(pink, [255; 4]).data);
    assert_eq!(cache.get_colored_texture(0, pink).data, flat(pink, [255, 255, 0, 0]).data);
    assert_eq!(cache.get_colored_texture(1, pink).data, flat(pink, [0, 0, 0, 255]).data);
    let red = palette_color(15);
    assert_eq!(cache.get_colored_texture(1, red).data, flat(red, [0, 0, 0, 255]).data);
}

#[test]
fn texture_buffer_finds_textures_by_name() {
    let names = vec!["stripe".to_string(), "dot".to_string(), "stripe".to_string()];
    let cache = TextureBuffer::new(
        names,
        row_of([255; 4]),
        vec![row_of([255, 255, 0, 0]), row_of([0, 0, 0, 255]), row_of([0; 4])],
    )
    .unwrap();
    assert_eq!(cache.texture_id("stripe"), Some(0));
    assert_eq!(cache.texture_id("dot"), Some(1));
    assert_eq!(cache.texture_id("base"), None);
    assert_eq!(cache.texture_id(""), None);
    assert_eq!(cache.texture_id("Dot"), None);
}
