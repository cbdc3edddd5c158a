use pathtracer::object::Object;
use pathtracer::scenes::{
    cornell_box, cornell_smoke, earth, final_scene, quads, scene_random_balls, scene_sun_spheres,
    scene_three_spheres, simple_light, two_perlin_spheres, two_spheres,
};

#[test]
fn small_scenes_have_their_objects() {
    assert_eq!(scene_sun_spheres().world.objects.len(), 5);
    assert_eq!(scene_sun_spheres().suns.len(), 1);
    assert!(scene_sun_spheres().camera.auto_exposure);
    assert_eq!(two_spheres().world.objects.len(), 2);
    assert_eq!(earth().world.objects.len(), 1);
    assert_eq!(two_perlin_spheres().world.objects.len(), 2);
    assert_eq!(quads().world.objects.len(), 5);
    assert_eq!(simple_light().world.objects.len(), 4);
}

#[test]
fn hierarchy_scenes_hold_one_node() {
    let s = scene_three_spheres();
    assert_eq!(s.world.objects.len(), 1);
    match &s.world.objects[0] {
        Object::Node(b) => assert_eq!(b.objects.len(), 5),
        _ => panic!("not a hierarchy"),
    }
    let r = scene_random_balls();
    assert_eq!(r.world.objects.len(), 1);
    assert_eq!((r.camera.image_width, r.camera.image_height), (500, 281));
}

#[test]
fn cornell_scenes() {
    let b = cornell_box();
    assert_eq!(b.world.objects.len(), 8);
    assert_eq!((b.camera.image_width, b.camera.image_height, b.camera.samples_per_pixel), (600, 600, 100));
    let s = cornell_smoke();
    assert!(matches!(s.world.objects[6], Object::Volume(_)));
    assert_eq!(s.camera.samples_per_pixel, 196);
}

#[test]
fn final_scene_layout() {
    let s = final_scene(400, 250, 4);
    assert_eq!(s.world.objects.len(), 11);
    assert_eq!(s.camera.image_width, 400);
    assert_eq!(s.camera.samples_per_pixel, 225);
    assert_eq!(s.camera.max_depth, 4);
    match &s.world.objects[0] {
        Object::List(l) => assert_eq!(l.objects.len(), 1),
        _ => panic!("not a list"),
    }
}
