use banner_ga::banner::{Banner, Layer, MAX_LAYERS};
use banner_ga::mutation::{draw_color, draw_layer};
use banner_ga::palette::{palette_color, palette_index, Color, PALETTE_LEN};
use banner_ga::raster::Raster;
use banner_ga::rate::Rate;
use banner_ga::texture_buffer::TextureBuffer;

const STRIPE: usize = 0;
const DOT: usize = 1;
const VEIL: usize = 2;

fn tinted(color: Color, alphas: [u8; 4]) -> Raster {
    let mut data = Vec::new();
    for a in alphas {
        data.extend_from_slice(&[color.r, color.g, color.b, a]);
    }
    Raster::from_raw(2, 2, data).unwrap()
}

fn tinted_row(alphas: [u8; 4]) -> Vec<Raster> {
    (0..PALETTE_LEN).map(|c| tinted(palette_color(c), alphas)).collect()
}

/// A cache of 2 x 2 rasters: an opaque base, a stripe that covers the two
/// upper pixels, a dot on the last pixel, and a half transparent veil over
/// the first pixel.
fn small_cache() -> TextureBuffer {
    TextureBuffer::new(
        vec!["stripe".to_string(), "dot".to_string(), "veil".to_string()],
        tinted_row([255; 4]),
        vec![tinted_row([255, 255, 0, 0]), tinted_row([0, 0, 0, 255]), tinted_row([128, 0, 0, 0])],
    )
    .unwrap()
}

fn layer(color: usize, texture: usize) -> Layer {
    Layer { color: palette_color(color), texture }
}

fn six_layers() -> Vec<Layer> {
    vec![layer(1, STRIPE), layer(2, DOT), layer(3, VEIL), layer(4, STRIPE), layer(5, DOT), layer(6, VEIL)]
}

fn pixel(r: &Raster, p: usize) -> [u8; 4] {
    [r.data[4 * p], r.data[4 * p + 1], r.data[4 * p + 2], r.data[4 * p + 3]]
}

fn rgba(c: Color) -> [u8; 4] {
    [c.r, c.g, c.b, c.a]
}

fn sorted_layers(layers: &[Layer]) -> Vec<(usize, usize)> {
    let mut keys: Vec<(usize, usize)> =
        layers.iter().map(|l| (palette_index(l.color).unwrap(), l.texture)).collect();
    keys.sort();
    keys
}

fn sorted_colors(b: &Banner) -> Vec<usize> {
    let mut keys: Vec<usize> = b.layers.iter().map(|l| palette_index(l.color).unwrap()).collect();
    keys.push(palette_index(b.base_color).unwrap());
    keys.sort();
    keys
}

#[test]
fn new_banner_is_rendered_and_not_evaluated() {
    let cache = small_cache();
    let b = Banner::new(palette_color(7), vec![], &cache);
    assert_eq!(b.fitness, None);
    assert_eq!(b.base_color, palette_color(7));
    assert!(b.layers.is_empty());
    assert_eq!((b.render.width, b.render.height), (2, 2));
    assert_eq!(b.render.data, tinted(palette_color(7), [255; 4]).data);
}

#[test]
fn opaque_pixels_replace_and_transparent_pixels_keep() {
    let cache = small_cache();
    let blue = palette_color(7);
    let lime = palette_color(11);
    let b = Banner::new(blue, vec![Layer { color: lime, texture: STRIPE }], &cache);
    assert_eq!(pixel(&b.render, 0), rgba(lime));
    assert_eq!(pixel(&b.render, 1), rgba(lime));
    assert_eq!(pixel(&b.render, 2), rgba(blue));
    assert_eq!(pixel(&b.render, 3), rgba(blue));
}

#[test]
fn later_layers_draw_on_top() {
    let cache = small_cache();
    let base = palette_color(0);
    let under = Layer { color: palette_color(12), texture: STRIPE };
    let over = Layer { color: palette_color(15), texture: STRIPE };
    let dot = Layer { color: palette_color(3), texture: DOT };
    let b = Banner::new(base, vec![under, over, dot], &cache);
    assert_eq!(pixel(&b.render, 0), rgba(palette_color(15)));
    assert_eq!(pixel(&b.render, 2), rgba(base));
    assert_eq!(pixel(&b.render, 3), rgba(palette_color(3)));
    let swapped = Banner::new(base, vec![over, under, dot], &cache);
    assert_eq!(pixel(&swapped.render, 0), rgba(palette_color(12)));
}

#[test]
fn half_transparent_pixels_blend() {
    let cache = small_cache();
    let black = palette_color(0);
    let white = palette_color(3);
    let b = Banner::new(black, vec![Layer { color: white, texture: VEIL }], &cache);
    let blended = pixel(&b.render, 0);
    // 255 * 128/255 + 25 * 127/255 = 140.45
    assert!(blended[0] >= 140 && blended[0] <= 141);
    assert_eq!(blended[0], blended[1]);
    assert_eq!(blended[1], blended[2]);
    assert!(blended[3] >= 254);
    assert_eq!(pixel(&b.render, 1), rgba(black));
    assert_eq!(pixel(&b.render, 3), rgba(black));
}

#[test]
fn render_follows_changed_fields() {
    let cache = small_cache();
    let mut b = Banner::new(palette_color(0), vec![], &cache);
    b.base_color = palette_color(3);
    b.layers.push(Layer { color: palette_color(15), texture: DOT });
    b.render();
    assert_eq!(pixel(&b.render, 0), rgba(palette_color(3)));
    assert_eq!(pixel(&b.render, 3), rgba(palette_color(15)));
}

#[test]
fn fitness_is_zero_for_a_pixel_identical_render() {
    let cache = small_cache();
    let design = vec![layer(4, STRIPE), layer(9, VEIL), layer(2, DOT)];
    let target = Banner::new(palette_color(5), design.clone(), &cache).render;
    let mut b = Banner::new(palette_color(5), design, &cache);
    b.calculate_fitness(&target);
    assert_eq!(b.fitness, Some(0));
}

#[test]
fn fitness_is_the_squared_distance_from_the_target() {
    let cache = small_cache();
    let black = palette_color(0);
    let white = palette_color(3);
    let target = tinted(white, [255; 4]);
    let mut plain = Banner::new(black, vec![], &cache);
    plain.calculate_fitness(&target);
    // four pixels, three channels each off by 230
    assert_eq!(plain.fitness, Some(4 * 3 * 230 * 230));
    let mut striped = Banner::new(black, vec![Layer { color: white, texture: STRIPE }], &cache);
    striped.calculate_fitness(&target);
    assert_eq!(striped.fitness, Some(2 * 3 * 230 * 230));
    let transparent = tinted(white, [255, 255, 255, 250]);
    striped.calculate_fitness(&transparent);
    assert_eq!(striped.fitness, Some(2 * 3 * 230 * 230 + 25));
}

#[test]
fn fitness_evaluation_renders_first() {
    let cache = small_cache();
    let target = tinted(palette_color(3), [255; 4]);
    let mut b = Banner::new(palette_color(0), vec![], &cache);
    b.base_color = palette_color(3);
    b.calculate_fitness(&target);
    assert_eq!(b.fitness, Some(0));
    assert_eq!(b.render.data, target.data);
}

#[test]
fn clone_copies_everything() {
    let cache = small_cache();
    let target = tinted(palette_color(3), [255; 4]);
    let mut b = Banner::new(palette_color(8), six_layers(), &cache);
    b.calculate_fitness(&target);
    let c = b.clone();
    assert_eq!(c.base_color, b.base_color);
    assert_eq!(c.layers, b.layers);
    assert_eq!(c.render.data, b.render.data);
    assert_eq!(c.fitness, b.fitness);
    assert!(std::ptr::eq(c.texture_buffer, b.texture_buffer));
}

#[test]
fn insert_layer_puts_the_layer_at_the_position() {
    let cache = small_cache();
    let mut b = Banner::new(palette_color(0), vec![layer(1, STRIPE), layer(2, DOT)], &cache);
    b.fitness = Some(5);
    b.insert_layer(1, layer(3, VEIL));
    assert_eq!(b.layers, vec![layer(1, STRIPE), layer(3, VEIL), layer(2, DOT)]);
    assert_eq!(b.fitness, None);
    b.insert_layer(0, layer(4, DOT));
    b.insert_layer(4, layer(5, DOT));
    assert_eq!(
        b.layers,
        vec![layer(4, DOT), layer(1, STRIPE), layer(3, VEIL), layer(2, DOT), layer(5, DOT)]
    );
    assert_eq!(pixel(&b.render, 3), rgba(palette_color(5)));
}

#[test]
fn insert_layer_does_nothing_at_six_layers() {
    let cache = small_cache();
    let mut b = Banner::new(palette_color(0), six_layers(), &cache);
    b.insert_layer(3, layer(9, STRIPE));
    assert_eq!(b.layers, six_layers());
    b.insert_layer(6, layer(9, STRIPE));
    assert_eq!(b.layers, six_layers());
}

#[test]
fn mutate_insert_leaves_six_layers_unchanged() {
    let cache = small_cache();
    let mut rng = rand::thread_rng();
    let mut b = Banner::new(palette_color(0), six_layers(), &cache);
    for _ in 0..50 {
        b.mutate_insert(&mut rng);
        assert_eq!(b.layers.len(), 6);
        assert_eq!(b.layers, six_layers());
        assert_eq!(b.base_color, palette_color(0));
    }
}

#[test]
fn mutate_insert_adds_one_valid_layer_below_the_cap() {
    let cache = small_cache();
    let mut rng = rand::thread_rng();
    for _ in 0..100 {
        let before = vec![layer(1, STRIPE), layer(2, DOT), layer(3, VEIL)];
        let mut b = Banner::new(palette_color(0), before.clone(), &cache);
        b.mutate_insert(&mut rng);
        assert_eq!(b.layers.len(), 4);
        let at = (0..4).find(|&i| i == 3 || b.layers[i] != before[i]).unwrap();
        let mut rest = b.layers.clone();
        let added = rest.remove(at);
        assert_eq!(rest, before);
        assert!(palette_index(added.color).is_some());
        assert!(added.texture < cache.len());
        assert_eq!(b.fitness, None);
    }
}

#[test]
fn mutate_insert_reaches_every_position() {
    let cache = small_cache();
    let mut rng = rand::thread_rng();
    let mut seen = [false; 3];
    for _ in 0..300 {
        let before = vec![layer(0, STRIPE), layer(0, STRIPE)];
        let mut b = Banner::new(palette_color(0), before, &cache);
        b.mutate_insert(&mut rng);
        if let Some(at) = b.layers.iter().position(|l| *l != layer(0, STRIPE)) {
            seen[at] = true;
        }
    }
    assert_eq!(seen, [true; 3]);
}

#[test]
fn remove_layer_takes_the_layer_out() {
    let cache = small_cache();
    let mut b = Banner::new(palette_color(0), six_layers(), &cache);
    b.fitness = Some(1);
    b.remove_layer(2);
    let mut expected = six_layers();
    expected.remove(2);
    assert_eq!(b.layers, expected);
    assert_eq!(b.fitness, None);
    b.remove_layer(4);
    expected.remove(4);
    assert_eq!(b.layers, expected);
    b.remove_layer(0);
    expected.remove(0);
    assert_eq!(b.layers, expected);
}

#[test]
fn mutate_remove_does_nothing_without_layers() {
    let cache = small_cache();
    let mut rng = rand::thread_rng();
    let mut b = Banner::new(palette_color(2), vec![], &cache);
    b.mutate_remove(&mut rng);
    assert!(b.layers.is_empty());
    assert_eq!(b.base_color, palette_color(2));
}

#[test]
fn mutate_remove_takes_one_layer_out() {
    let cache = small_cache();
    let mut rng = rand::thread_rng();
    for _ in 0..100 {
        let mut b = Banner::new(palette_color(2), six_layers(), &cache);
        b.mutate_remove(&mut rng);
        assert_eq!(b.layers.len(), 5);
        let all = six_layers();
        let gone = (0..6).find(|&i| i == 5 || b.layers[i] != all[i]).unwrap();
        let mut expected = all.clone();
        expected.remove(gone);
        assert_eq!(b.layers, expected);
    }
}

#[test]
fn mutate_shuffle_keeps_the_layers_and_reorders_them() {
    let cache = small_cache();
    let mut rng = rand::thread_rng();
    let mut reordered = false;
    for _ in 0..100 {
        let mut b = Banner::new(palette_color(2), six_layers(), &cache);
        b.mutate_shuffle(&mut rng);
        assert_eq!(sorted_layers(&b.layers), sorted_layers(&six_layers()));
        assert_eq!(b.base_color, palette_color(2));
        if b.layers != six_layers() {
            reordered = true;
        }
        let again = Banner::new(b.base_color, b.layers.clone(), &cache);
        assert_eq!(b.render.data, again.render.data);
    }
    assert!(reordered);
}

#[test]
fn set_base_color_and_set_layer_color_recolor_one_place() {
    let cache = small_cache();
    let mut b = Banner::new(palette_color(2), six_layers(), &cache);
    b.set_base_color(palette_color(13));
    assert_eq!(b.base_color, palette_color(13));
    assert_eq!(b.layers, six_layers());
    b.set_layer_color(4, palette_color(14));
    let mut expected = six_layers();
    expected[4].color = palette_color(14);
    assert_eq!(b.layers, expected);
    assert_eq!(b.base_color, palette_color(13));
    assert_eq!(pixel(&b.render, 2), rgba(palette_color(13)));
}

#[test]
fn mutate_change_color_recolors_the_base_when_there_is_no_layer() {
    let cache = small_cache();
    let mut rng = rand::thread_rng();
    let mut changed = false;
    for _ in 0..50 {
        let mut b = Banner::new(palette_color(2), vec![], &cache);
        b.mutate_change_color(&mut rng);
        assert!(b.layers.is_empty());
        assert!(palette_index(b.base_color).is_some());
        changed = changed || b.base_color != palette_color(2);
        assert_eq!(b.render.data, tinted(b.base_color, [255; 4]).data);
    }
    assert!(changed);
}

#[test]
fn mutate_change_color_recolors_at_most_one_place() {
    let cache = small_cache();
    let mut rng = rand::thread_rng();
    let mut base_hit = false;
    let mut layer_hit = false;
    for _ in 0..300 {
        let mut b = Banner::new(palette_color(2), six_layers(), &cache);
        b.mutate_change_color(&mut rng);
        let all = six_layers();
        let mut differing = 0;
        for i in 0..6 {
            assert_eq!(b.layers[i].texture, all[i].texture);
            if b.layers[i].color != all[i].color {
                differing += 1;
                layer_hit = true;
            }
        }
        if b.base_color != palette_color(2) {
            differing += 1;
            base_hit = true;
        }
        assert!(differing <= 1);
    }
    assert!(base_hit && layer_hit);
}

#[test]
fn assign_colors_gives_each_place_its_color() {
    let cache = small_cache();
    let mut b = Banner::new(palette_color(2), vec![layer(1, STRIPE), layer(5, DOT)], &cache);
    b.assign_colors(&vec![palette_color(10), palette_color(11), palette_color(12)]);
    assert_eq!(b.layers, vec![layer(10, STRIPE), layer(11, DOT)]);
    assert_eq!(b.base_color, palette_color(12));
    assert_eq!(b.fitness, None);
}

#[test]
fn mutate_shuffle_color_exchanges_the_colors_in_use() {
    let cache = small_cache();
    let mut rng = rand::thread_rng();
    let mut exchanged = false;
    let mut base_moved = false;
    for _ in 0..100 {
        let mut b = Banner::new(palette_color(9), six_layers(), &cache);
        let before = sorted_colors(&b);
        b.mutate_shuffle_color(&mut rng);
        assert_eq!(sorted_colors(&b), before);
        let all = six_layers();
        for i in 0..6 {
            assert_eq!(b.layers[i].texture, all[i].texture);
        }
        exchanged = exchanged || b.layers != all;
        base_moved = base_moved || b.base_color != palette_color(9);
    }
    assert!(exchanged && base_moved);
}

#[test]
fn mutate_at_rate_zero_changes_nothing() {
    let cache = small_cache();
    let mut rng = rand::thread_rng();
    let target = tinted(palette_color(3), [255; 4]);
    let mut b = Banner::new(palette_color(9), six_layers(), &cache);
    b.calculate_fitness(&target);
    let fitness = b.fitness;
    let render = b.render.data.clone();
    for _ in 0..100 {
        b.mutate(Rate::new(0, 1).unwrap(), &mut rng);
        assert_eq!(b.layers, six_layers());
        assert_eq!(b.base_color, palette_color(9));
        assert_eq!(b.fitness, fitness);
        assert_eq!(b.render.data, render);
    }
}

#[test]
fn mutate_at_rate_one_always_applies_an_operator() {
    let cache = small_cache();
    let mut rng = rand::thread_rng();
    let mut changed = 0;
    for _ in 0..200 {
        let mut b = Banner::new(palette_color(9), vec![layer(1, STRIPE), layer(2, DOT)], &cache);
        b.fitness = Some(77);
        b.mutate(Rate::new(1, 1).unwrap(), &mut rng);
        assert_eq!(b.fitness, None);
        if b.layers != vec![layer(1, STRIPE), layer(2, DOT)] || b.base_color != palette_color(9) {
            changed += 1;
        }
        let again = Banner::new(b.base_color, b.layers.clone(), &cache);
        assert_eq!(b.render.data, again.render.data);
    }
    assert!(changed > 100);
}

#[test]
fn mutate_applies_at_most_one_operator() {
    let cache = small_cache();
    let mut rng = rand::thread_rng();
    for _ in 0..300 {
        let before = vec![layer(1, STRIPE), layer(2, DOT), layer(3, VEIL)];
        let mut b = Banner::new(palette_color(9), before.clone(), &cache);
        b.mutate(Rate::new(3, 2).unwrap(), &mut rng);
        let n = b.layers.len();
        assert!(n >= 2 && n <= 4);
        if n != 3 {
            // an insertion or a removal changes no color and no order
            assert_eq!(b.base_color, palette_color(9));
            let (long, short) = if n == 4 { (&b.layers, &before) } else { (&before, &b.layers) };
            let at = (0..long.len()).find(|&i| i == short.len() || long[i] != short[i]).unwrap();
            let mut rest = long.clone();
            rest.remove(at);
            assert_eq!(&rest, short);
        }
    }
}

#[test]
fn mutate_fires_at_about_its_rate() {
    let cache = small_cache();
    let mut rng = rand::thread_rng();
    let mut fired = 0;
    for _ in 0..1000 {
        let mut b = Banner::new(palette_color(9), vec![layer(1, STRIPE)], &cache);
        b.fitness = Some(1);
        b.mutate(Rate::new(1, 4).unwrap(), &mut rng);
        if b.fitness.is_none() {
            fired += 1;
        }
    }
    assert!(fired > 150 && fired < 350);
}

#[test]
fn layer_count_stays_within_six_under_any_mutations() {
    let cache = small_cache();
    let mut rng = rand::thread_rng();
    let mut b = Banner::new(palette_color(9), vec![], &cache);
    let mut reached_cap = false;
    for _ in 0..2000 {
        b.mutate(Rate::new(9, 10).unwrap(), &mut rng);
        assert!(b.layers.len() <= MAX_LAYERS);
        reached_cap = reached_cap || b.layers.len() == MAX_LAYERS;
        for l in &b.layers {
            assert!(palette_index(l.color).is_some());
            assert!(l.texture < cache.len());
        }
        assert!(palette_index(b.base_color).is_some());
    }
    assert!(reached_cap);
}

#[test]
fn drawn_layers_are_valid() {
    let cache = small_cache();
    let mut rng = rand::thread_rng();
    let mut textures = [false; 3];
    for _ in 0..200 {
        assert!(palette_index(draw_color(&mut rng)).is_some());
        let l = draw_layer(&cache, &mut rng);
        assert!(palette_index(l.color).is_some());
        assert!(l.texture < 3);
        textures[l.texture] = true;
    }
    assert_eq!(textures, [true; 3]);
}

#[test]
fn splice_joins_head_and_tail() {
    let cache = small_cache();
    let first = Banner::new(palette_color(1), vec![layer(1, STRIPE), layer(2, DOT), layer(3, VEIL)], &cache);
    let second = Banner::new(palette_color(2), vec![layer(4, DOT), layer(5, VEIL)], &cache);
    let child = first.splice(&second, 2, 1, true);
    assert_eq!(child.layers, vec![layer(1, STRIPE), layer(2, DOT), layer(5, VEIL)]);
    assert_eq!(child.base_color, palette_color(1));
    assert_eq!(child.fitness, None);
    let again = Banner::new(child.base_color, child.layers.clone(), &cache);
    assert_eq!(child.render.data, again.render.data);
    let other = first.splice(&second, 0, 0, false);
    assert_eq!(other.layers, second.layers);
    assert_eq!(other.base_color, palette_color(2));
    let empty = first.splice(&second, 0, 2, false);
    assert!(empty.layers.is_empty());
    let all = first.splice(&second, 3, 0, true);
    assert_eq!(
        all.layers,
        vec![layer(1, STRIPE), layer(2, DOT), layer(3, VEIL), layer(4, DOT), layer(5, VEIL)]
    );
}

#[test]
fn splice_cuts_the_child_down_to_six_layers() {
    let cache = small_cache();
    let first = Banner::new(palette_color(1), six_layers(), &cache);
    let tail = vec![layer(10, DOT), layer(11, DOT), layer(12, DOT), layer(13, DOT)];
    let second = Banner::new(palette_color(2), tail.clone(), &cache);
    let child = first.splice(&second, 4, 1, true);
    let mut expected = six_layers();
    expected.truncate(4);
    expected.extend_from_slice(&tail[1..3]);
    assert_eq!(child.layers, expected);
    let full = first.splice(&second, 6, 0, false);
    assert_eq!(full.layers, six_layers());
    assert_eq!(full.base_color, palette_color(2));
}

#[test]
fn crossover_child_is_made_of_its_parents_layers() {
    let cache = small_cache();
    let mut rng = rand::thread_rng();
    let first = Banner::new(palette_color(1), six_layers(), &cache);
    let tail = vec![layer(10, DOT), layer(11, DOT), layer(12, DOT), layer(13, DOT), layer(14, DOT)];
    let second = Banner::new(palette_color(2), tail.clone(), &cache);
    let mut own = false;
    let mut others = false;
    let mut lengths = [false; 7];
    for _ in 0..500 {
        let child = first.crossover(&second, &mut rng);
        assert!(child.layers.len() <= MAX_LAYERS);
        lengths[child.layers.len()] = true;
        let head = child.layers.iter().take_while(|l| first.layers.contains(l)).count();
        assert_eq!(child.layers[..head], first.layers[..head]);
        let rest = &child.layers[head..];
        assert!(rest.iter().all(|l| second.layers.contains(l)));
        if !rest.is_empty() {
            let from = tail.iter().position(|l| *l == rest[0]).unwrap();
            assert_eq!(rest, &tail[from..from + rest.len()]);
            assert!(from + rest.len() == tail.len() || child.layers.len() == MAX_LAYERS);
        }
        assert!(child.base_color == palette_color(1) || child.base_color == palette_color(2));
        own = own || child.base_color == palette_color(1);
        others = others || child.base_color == palette_color(2);
        assert_eq!(child.fitness, None);
    }
    assert!(own && others);
    assert_eq!(lengths, [true; 7]);
}

#[test]
fn crossover_of_empty_parents_is_empty() {
    let cache = small_cache();
    let mut rng = rand::thread_rng();
    let first = Banner::new(palette_color(1), vec![], &cache);
    let second = Banner::new(palette_color(1), vec![], &cache);
    let child = first.crossover(&second, &mut rng);
    assert!(child.layers.is_empty());
    assert_eq!(child.base_color, palette_color(1));
    assert_eq!(child.render.data, first.render.data);
}
