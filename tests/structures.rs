use pathtracer::aabb::Aabb;
use pathtracer::hittable::{BvhNode, HittableList};
use pathtracer::material::{Lambertian, Material};
use pathtracer::object::{Object, Plane, Sphere};
use pathtracer::perlin::{Perlin, POINT_COUNT};
use pathtracer::render::{isqrt, nearest_square, Camera};
use pathtracer::rt_image::RtImage;
use pathtracer::texture::CheckerTexture;
use pathtracer::utils::random_int;
use pathtracer::vec3::{Color, Point3, Vec3, UNIT};

fn grey() -> Material {
    Lambertian::new(Color::new(500_000, 500_000, 500_000))
}

fn leaves(n: &BvhNode, out: &mut Vec<usize>) {
    match n {
        BvhNode::Leaf(i) => out.push(*i),
        BvhNode::Branch { left, right, .. } => {
            leaves(left, out);
            leaves(right, out);
        }
    }
}

/// Leaf slots of a tree over `n` objects: a lone object fills both sides of
/// its branch.
fn leaf_slots(n: usize) -> usize {
    match n {
        1 => 2,
        2 => 2,
        _ => leaf_slots(n / 2) + leaf_slots(n - n / 2),
    }
}

fn check_boxes(n: &BvhNode, boxes: &[Aabb]) -> Aabb {
    match n {
        BvhNode::Leaf(i) => boxes[*i],
        BvhNode::Branch { left, right, bbox, axis } => {
            let l = check_boxes(left, boxes);
            let r = check_boxes(right, boxes);
            assert_eq!(*bbox, Aabb::from_boxes(&l, &r));
            let (mut ls, mut rs) = (Vec::new(), Vec::new());
            leaves(left, &mut ls);
            leaves(right, &mut rs);
            for i in &ls {
                for j in &rs {
                    assert!(boxes[*i].axis(*axis).min <= boxes[*j].axis(*axis).min);
                }
            }
            *bbox
        }
    }
}

fn encloses(outer: &Aabb, inner: &Aabb) -> bool {
    outer.x.min <= inner.x.min
        && inner.x.max <= outer.x.max
        && outer.y.min <= inner.y.min
        && inner.y.max <= outer.y.max
        && outer.z.min <= inner.z.min
        && inner.z.max <= outer.z.max
}

fn bvh_over(count: i64) {
    let mut list = HittableList::new();
    for k in 0..count {
        let c = Point3::new(random_int(-50 * UNIT, 50 * UNIT), random_int(-50 * UNIT, 50 * UNIT), k * UNIT);
        list.add(Sphere::new(c, random_int(1, UNIT), grey()));
    }
    let boxes: Vec<Aabb> = list.objects.iter().map(|o| o.bounding_box().unwrap()).collect();
    let list_box = list.bounding_box();
    let tree = list.create_bvh();
    assert_eq!(tree.objects.len(), 1);
    match &tree.objects[0] {
        Object::Node(b) if count == 0 => {
            assert!(b.root.is_none());
            assert!(b.objects.is_empty());
            assert_eq!(b.bbox, Aabb::empty());
            assert_eq!(tree.bbox, list_box);
        }
        Object::Node(b) => {
            assert_eq!(b.objects.len(), count as usize);
            let root = b.root.as_ref().expect("a root over objects");
            let mut seen = Vec::new();
            leaves(root, &mut seen);
            assert_eq!(seen.len(), leaf_slots(count as usize));
            seen.sort();
            seen.dedup();
            assert_eq!(seen, (0..count as usize).collect::<Vec<_>>());
            let root_box = check_boxes(root, &boxes);
            assert_eq!(root_box, b.bbox);
            assert_eq!(tree.bbox, b.bbox);
            assert_eq!(b.bbox, list_box);
            for bx in &boxes {
                assert!(encloses(&b.bbox, bx));
            }
        }
        _ => panic!("not a hierarchy"),
    }
}

#[test]
fn bvh_covers_every_object_for_several_sizes() {
    for count in [0, 1, 2, 3, 10, 1000] {
        bvh_over(count);
    }
}

#[test]
fn list_box_is_union_of_members() {
    let mut list = HittableList::new();
    assert_eq!(list.bounding_box(), Aabb::empty());
    list.add(Sphere::new(Point3::new(0, 0, 0), UNIT, grey()));
    list.add(Plane::new(Point3::new(0, 0, 0), Vec3::new(0, UNIT, 0), grey()));
    list.add(Sphere::new(Point3::new(10 * UNIT, 0, 0), UNIT, grey()));
    let b = list.bounding_box();
    assert_eq!((b.x.min, b.x.max), (-UNIT, 11 * UNIT));
    assert_eq!((b.y.min, b.y.max), (-UNIT, UNIT));
    assert_eq!(list.objects.len(), 3);
    let single = HittableList::from_object(Sphere::new(Point3::new(0, 0, 0), 2, grey()));
    assert_eq!(single.bounding_box().x.max, 2);
}

#[test]
fn shuffle_follows_its_draws() {
    let mut p: Vec<i32> = vec![10, 20, 30, 40];
    // Position 3 swaps with 1, then 2 with 2, 1 with 0, 0 with 0.
    Perlin::shuffle(&mut p, &vec![0, 0, 2, 1]);
    assert_eq!(p, vec![40, 10, 30, 20]);
    let mut q: Vec<i32> = vec![1, 2, 3];
    Perlin::shuffle(&mut q, &vec![0, 1]);
    assert_eq!(q, vec![1, 2, 3]);
    let mut r: Vec<i32> = vec![1, 2, 3];
    Perlin::shuffle(&mut r, &vec![0, 0, 0]);
    assert_eq!(r, vec![2, 3, 1]);
}

#[test]
fn perlin_tables_are_random_permutations() {
    let p = Perlin::new();
    for table in [&p.perm_x, &p.perm_y, &p.perm_z] {
        let mut sorted = table.clone();
        sorted.sort();
        assert_eq!(sorted, (0..POINT_COUNT as i32).collect::<Vec<_>>());
    }
    let identity: Vec<i32> = (0..POINT_COUNT as i32).collect();
    assert!(p.perm_x != identity || p.perm_y != identity || p.perm_z != identity);
    assert_eq!(p.ranvec.len(), POINT_COUNT);
    for g in &p.ranvec {
        assert!(-UNIT <= g.x && g.x < UNIT);
    }
    for (i, j, k) in [(0, 0, 0), (-1, 7, 300), (i64::MIN, i64::MAX, 12345)] {
        let idx = p.lattice_index(i, j, k);
        assert!(idx < POINT_COUNT);
        let expected = p.perm_x[(i & 255) as usize] ^ p.perm_y[(j & 255) as usize] ^ p.perm_z[(k & 255) as usize];
        assert_eq!(idx as i32, expected);
    }
}

#[test]
fn random_int_stays_in_range_and_varies() {
    let mut seen = [false; 3];
    for _ in 0..300 {
        let r = random_int(0, 2);
        assert!((0..=2).contains(&r));
        seen[r as usize] = true;
    }
    assert!(seen.iter().all(|s| *s));
    assert_eq!(random_int(5, 5), 5);
}

#[test]
fn image_pixels_are_clamped_and_flipped() {
    assert!(RtImage::new(2, 2, vec![0; 11]).is_none());
    let data: Vec<u8> = (0..12).collect();
    let img = RtImage::new(2, 2, data).unwrap();
    assert_eq!((img.width(), img.height()), (2, 2));
    assert_eq!(img.pixel_data(0, 0), (6, 7, 8));
    assert_eq!(img.pixel_data(1, 1), (3, 4, 5));
    assert_eq!(img.pixel_data(9, 9), (3, 4, 5));
    assert_eq!(img.pixel_data(0, 1), (0, 1, 2));
}

#[test]
fn checker_parity() {
    assert!(CheckerTexture::picks_even(0, 0, 0));
    assert!(!CheckerTexture::picks_even(1, 0, 0));
    assert!(!CheckerTexture::picks_even(-1, 0, 0));
    assert!(CheckerTexture::picks_even(-1, -1, 0));
}

#[test]
fn square_roots_and_sample_counts() {
    assert_eq!(isqrt(0), 0);
    assert_eq!(isqrt(1000), 31);
    assert_eq!(isqrt(i32::MAX), 46340);
    assert_eq!(isqrt(-4), 0);
    assert_eq!(nearest_square(1000), 961);
    assert_eq!(nearest_square(100), 100);
    assert_eq!(nearest_square(99), 81);
    assert_eq!(nearest_square(-3), 0);
}

#[test]
fn camera_layout() {
    let c = Camera::new(
        16, 9, 400, 50, 10, 20 * UNIT,
        Point3::new(0, 0, 0), Point3::new(0, 0, -UNIT), Vec3::new(0, UNIT, 0),
        0, -5, Color::new_zero(),
    );
    assert_eq!(c.image_height, 225);
    assert_eq!(c.samples_per_pixel, 49);
    assert_eq!(c.sqrt_spp, 7);
    assert_eq!(c.focus_dist, UNIT);
    assert!(!c.auto_exposure);
    assert_eq!(c.pixel_count(), 400 * 225);
    assert_eq!(c.chunk_size(), 1200);
    assert_eq!(c.pixel_coords(0), (0, 0));
    assert_eq!(c.pixel_coords(401), (1, 1));
    assert_eq!(c.pixel_coords(400 * 225 - 1), (399, 224));
    let tiny = Camera::new(16, 9, 1, 1, 1, UNIT, Point3::new_zero(), Point3::new_zero(), Vec3::new_zero(), 0, 3, Color::new_zero());
    assert_eq!(tiny.image_height, 1);
    assert_eq!(tiny.focus_dist, 3);
    let d = Camera::default();
    assert_eq!((d.image_width, d.image_height, d.samples_per_pixel), (100, 56, 9));
}
