use lunar_lander::utils::transform_axes;
use lunar_lander::vector::Vec2;

#[test]
fn test_coordinate_transformation_math() {
    let screen_width = 800_000;
    let screen_height = 600_000;

    let test_world_pos = Vec2::new(0, 100_000);

    let screen_pos = transform_axes(test_world_pos, screen_width, screen_height);

    let recovered_world_x = screen_pos.x - screen_width / 2;
    let recovered_world_y = screen_height / 2 - screen_pos.y;

    assert!(
        (recovered_world_x - test_world_pos.x).abs() < 1,
        "X coordinate mismatch: expected {}, got {}",
        test_world_pos.x,
        recovered_world_x
    );
    assert!(
        (recovered_world_y - test_world_pos.y).abs() < 1,
        "Y coordinate mismatch: expected {}, got {}",
        test_world_pos.y,
        recovered_world_y
    );
}

#[test]
fn test_collision_coordinate_logic() {
    let screen_width = 800_000;
    let screen_height = 600_000;

    let terrain_height = 150_000;

    let lander_world_x: i64 = 0;
    let lander_world_y: i64 = 250_000;
    let lander_size = Vec2::new(32_000, 32_000);

    let lander_screen = transform_axes(Vec2::new(lander_world_x, lander_world_y), screen_width, screen_height);

    let recovered_world_x = lander_screen.x - screen_width / 2;
    let recovered_world_y = screen_height / 2 - lander_screen.y;
    let lander_bottom_world_y = recovered_world_y - lander_size.y;

    assert!((recovered_world_x - lander_world_x).abs() < 1, "World X coordinate transformation failed");
    assert!((recovered_world_y - lander_world_y).abs() < 1, "World Y coordinate transformation failed");

    assert!(
        lander_bottom_world_y > terrain_height,
        "Lander bottom ({}) should be above terrain ({}). This would cause false collision!",
        lander_bottom_world_y,
        terrain_height
    );
}

#[test]
fn test_world_coordinate_consistency() {
    let screen_height = 600.0;

    let generated_terrain_y = 100.0;
    let terrain_y_offset = 75.0;
    let offset_terrain_y = generated_terrain_y + terrain_y_offset;
    let _world_terrain_y = -(offset_terrain_y - screen_height / 2.0);
    let terrain_screen_base = screen_height * 0.7;
    let screen_y = terrain_screen_base + (offset_terrain_y - terrain_y_offset);
    let expected_world_terrain_y = screen_height / 2.0 - screen_y;

    println!("Terrain coordinate conversion:");
    println!(
        "  Generated: {:.1} -> Offset: {:.1} -> World: {:.1}",
        generated_terrain_y, offset_terrain_y, expected_world_terrain_y
    );

    let expected_negative_y = 150.0 - 175.0;
    println!("  Expected world Y for terrain below center: {:.1}", expected_negative_y);

    assert!(
        expected_world_terrain_y < 0.0,
        "Terrain at screen Y=175 (below center=300) should have negative world Y, got {:.1}",
        expected_world_terrain_y
    );
}

#[test]
fn test_collision_coordinate_conversion() {
    let screen_width = 800_000;
    let screen_height = 600_000;

    let world_lander_pos = Vec2::new(0, 0);
    let screen_lander_pos = transform_axes(world_lander_pos, screen_width, screen_height);
    assert_eq!(screen_lander_pos, Vec2::new(400_000, 300_000));

    let recovered_world_x = screen_lander_pos.x - screen_width / 2;
    let recovered_world_y = screen_height / 2 - screen_lander_pos.y;
    assert_eq!(recovered_world_x, world_lander_pos.x);
    assert_eq!(recovered_world_y, world_lander_pos.y);

    let world_lander_above = Vec2::new(0, 100_000);
    let screen_lander_above = transform_axes(world_lander_above, screen_width, screen_height);
    assert_eq!(screen_lander_above, Vec2::new(400_000, 200_000));

    println!("Coordinate conversion tests passed");
}

#[test]
fn test_initial_lander_terrain_separation() {
    let screen_height = 600.0;
    let terrain_y_offset = 75.0;

    let lander_world_y = 50.0;
    let lander_height = 32.0;
    let lander_bottom_world_y = lander_world_y - lander_height;

    let generated_terrain = 100.0;
    let offset_terrain = generated_terrain + terrain_y_offset;
    let terrain_world_y: f64 = -(offset_terrain - screen_height / 2.0);

    println!("Initial separation test:");
    println!("  Lander world Y: {:.1}, bottom: {:.1}", lander_world_y, lander_bottom_world_y);
    println!("  Terrain world Y: {:.1}", terrain_world_y);

    let separation = lander_bottom_world_y - terrain_world_y as f32;
    println!("  Separation: {:.1}", separation);

    if separation > 0.0 {
        println!("  Lander is above terrain (good)");
    } else {
        println!("  Lander is below terrain (collision risk)");
    }
}

#[test]
fn screen_positions_round_and_clamp() {
    assert_eq!(transform_axes(Vec2::new(5, 7), 801, 601), Vec2::new(405, 293));
    assert_eq!(transform_axes(Vec2::new(5, 7), -801, -601), Vec2::new(-395, -307));
    assert_eq!(transform_axes(Vec2::new(i64::MAX, i64::MIN), 10, 10), Vec2::new(i64::MAX, i64::MAX));
    assert_eq!(transform_axes(Vec2::new(i64::MIN, i64::MAX), -10, -10), Vec2::new(i64::MIN, i64::MIN));
}
