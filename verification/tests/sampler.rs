use fan_manager::sampler::{sample, Sensor, SensorReading};

fn sensor(label: &str, temperature: Option<i32>) -> Sensor {
    Sensor { label: String::from(label), temperature }
}

#[test]
fn no_sensor_reads_zero() {
    assert_eq!(sample(&Vec::new()), SensorReading { temperature: 0, source_label: None });
}

#[test]
fn sensors_without_a_temperature_read_zero() {
    let sensors = vec![sensor("a", None), sensor("b", None)];
    assert_eq!(sample(&sensors), SensorReading { temperature: 0, source_label: None });
}

#[test]
fn the_hottest_sensor_wins() {
    let sensors = vec![
        sensor("cpu", Some(45_000)),
        sensor("gpu", Some(61_500)),
        sensor("nvme", None),
        sensor("board", Some(38_000)),
    ];
    assert_eq!(
        sample(&sensors),
        SensorReading { temperature: 61_500, source_label: Some(String::from("gpu")) }
    );
}

#[test]
fn the_first_of_equally_hot_sensors_wins() {
    let sensors = vec![
        sensor("a", Some(10_000)),
        sensor("b", Some(50_000)),
        sensor("c", Some(50_000)),
        sensor("d", Some(20_000)),
        sensor("e", Some(50_000)),
    ];
    assert_eq!(sample(&sensors).source_label, Some(String::from("b")));
}

#[test]
fn a_single_cold_sensor_is_still_a_reading() {
    let sensors = vec![sensor("none", None), sensor("outside", Some(-12_250))];
    assert_eq!(
        sample(&sensors),
        SensorReading { temperature: -12_250, source_label: Some(String::from("outside")) }
    );
    let zero = vec![sensor("z", Some(0))];
    assert_eq!(sample(&zero).source_label, Some(String::from("z")));
    let lowest = vec![sensor("l", Some(i32::MIN)), sensor("m", Some(i32::MIN))];
    assert_eq!(
        sample(&lowest),
        SensorReading { temperature: i32::MIN, source_label: Some(String::from("l")) }
    );
}
