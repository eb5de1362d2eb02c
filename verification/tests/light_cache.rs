use light_game::light_cache::LightPolygonCache;

fn square() -> Vec<[f32; 2]> {
    vec![[1.0, 1.0], [-1.0, 1.0], [-1.0, -1.0], [1.0, -1.0]]
}

#[test]
fn new_cache_has_nothing_to_reuse() {
    let cache: LightPolygonCache<[f32; 2]> = LightPolygonCache::new();
    assert!(cache.polygon.is_none());
    assert!(!cache.has_moved);
    assert!(!cache.has_collided);
    assert!(!cache.needs_collision_check());
    assert!(cache.reusable_polygon(false).is_none());
    assert!(cache.reusable_polygon(true).is_none());
}

#[test]
fn stored_polygon_is_reused_whatever_the_obstacles() {
    let mut cache = LightPolygonCache::new();
    cache.store(square(), true);
    assert!(!cache.has_moved);
    assert_eq!(cache.reusable_polygon(true), Some(&square()));
    assert_eq!(cache.reusable_polygon(false), Some(&square()));
    assert!(!cache.needs_collision_check());
}

#[test]
fn moved_light_that_collided_traces_again() {
    let mut cache = LightPolygonCache::new();
    cache.store(square(), true);
    cache.has_moved = true;
    assert!(!cache.needs_collision_check());
    assert!(cache.reusable_polygon(false).is_none());
    assert!(cache.reusable_polygon(true).is_none());
}

#[test]
fn moved_light_clear_of_obstacles_reuses_its_polygon() {
    let mut cache = LightPolygonCache::new();
    cache.store(square(), false);
    cache.has_moved = true;
    assert!(cache.needs_collision_check());
    assert_eq!(cache.reusable_polygon(false), Some(&square()));
    assert!(cache.reusable_polygon(true).is_none());
    assert!(cache.has_moved);
}

#[test]
fn invalidated_polygon_is_traced_again() {
    let mut cache = LightPolygonCache::new();
    cache.store(square(), false);
    cache.invalidate();
    assert!(cache.polygon.is_none());
    assert!(!cache.has_moved);
    assert!(cache.reusable_polygon(false).is_none());
}

#[test]
fn storing_again_replaces_the_polygon() {
    let mut cache = LightPolygonCache::new();
    cache.store(square(), true);
    cache.has_moved = true;
    let triangle = vec![[0.0f32, 2.0], [-2.0, -1.0], [2.0, -1.0]];
    cache.store(triangle.clone(), false);
    assert!(!cache.has_moved);
    assert!(!cache.has_collided);
    assert_eq!(cache.reusable_polygon(true), Some(&triangle));
}
