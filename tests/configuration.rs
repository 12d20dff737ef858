use citysim::configuration::{BuildingsConfiguration, GameConfiguration};

#[test]
fn calculate_plate_positions() {
    let game = GameConfiguration::default();
    let cube_size: f32 = 0.3;
    let half_width = game.width_table as f32 / 2. * cube_size;
    let half_depth = game.depth_table as f32 / 2. * cube_size;
    let x_positions = (0..game.width_table)
        .map(|i| i as f32 * cube_size - half_width)
        .collect::<Vec<f32>>();
    let z_positions = (0..game.depth_table)
        .map(|i| i as f32 * cube_size - half_depth)
        .collect::<Vec<f32>>();

    assert_eq!(
        x_positions,
        vec![
            -4.8, -4.5, -4.2000003, -3.9, -3.6000001, -3.3000002, -3.0, -2.7, -2.4, -2.1000001,
            -1.8000002, -1.5, -1.2, -0.9000001, -0.5999999, -0.3000002, 0.0, 0.3000002,
            0.5999999, 0.9000001, 1.1999998, 1.5, 1.8000002, 2.1, 2.4, 2.7000003, 3.0,
            3.3000002, 3.6000004, 3.9000006, 4.2, 4.5
        ]
    );
    assert_eq!(
        z_positions,
        vec![
            -4.8, -4.5, -4.2000003, -3.9, -3.6000001, -3.3000002, -3.0, -2.7, -2.4, -2.1000001,
            -1.8000002, -1.5, -1.2, -0.9000001, -0.5999999, -0.3000002, 0.0, 0.3000002,
            0.5999999, 0.9000001, 1.1999998, 1.5, 1.8000002, 2.1, 2.4, 2.7000003, 3.0,
            3.3000002, 3.6000004, 3.9000006, 4.2, 4.5
        ]
    );
}

#[test]
fn standard_buildings_configuration() {
    let c = BuildingsConfiguration::default();
    assert_eq!(c.house.max_residents, 8);
    assert_eq!(c.house.power_consumer_configuration.consume_wh, 300);
    assert_eq!(c.office.max_worker, 6);
    assert_eq!(c.biomass_power_plant.power_source.capacity_wh, 7_000_000);
    assert_eq!(c.garden.palatability_configuration.source_for_house.unwrap().value, 10);
    assert!(c.street.palatability_configuration.source_for_house.is_none());
}
