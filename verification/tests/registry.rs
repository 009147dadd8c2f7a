use cpu_temp::registry::{
    first_positive_value, labelled_value_of, names_cpu, names_package, read_registry,
    scan_registry, SensorReading,
};
use cpu_temp::temperature::{Failure, Temperature};

fn reading(label: &str, degrees: f64) -> SensorReading {
    let text = format!("{}", degrees);
    SensorReading { label: label.to_string(), value: Temperature::parse_degrees(&text).unwrap() }
}

fn in_degrees(t: Temperature) -> f64 {
    t.millidegrees() as f64 / 1000.0
}

#[test]
fn package_label_wins_over_cores() {
    let readings = vec![reading("Package id 0", 55.0), reading("Core 0", 40.0)];
    assert_eq!(in_degrees(scan_registry(&readings)), 55.0);
    assert_eq!(read_registry(&readings), Ok(Temperature { millidegrees: 55000 }));
}

#[test]
fn package_label_wins_over_hotter_cores_before_it() {
    let readings =
        vec![reading("Core 0", 90.0), reading("Package id 0", 55.0), reading("Core 1", 95.0)];
    assert_eq!(in_degrees(scan_registry(&readings)), 55.0);
    let readings = vec![reading("Core 0", 90.0), reading("TCTL", 61.5), reading("tctl", 70.0)];
    assert_eq!(scan_registry(&readings), Temperature { millidegrees: 61500 });
}

#[test]
fn hottest_core_is_taken_without_package_label() {
    let readings = vec![reading("Core 0", 40.0), reading("Core 1", 62.0)];
    assert_eq!(in_degrees(scan_registry(&readings)), 62.0);
    let readings = vec![reading("Core 1", 62.0), reading("Core 0", 40.0), reading("GPU", 99.0)];
    assert_eq!(in_degrees(scan_registry(&readings)), 62.0);
    let readings = vec![reading("fan", 80.0), reading("CPU die", 47.25), reading("cpu", 47.0)];
    assert_eq!(scan_registry(&readings), Temperature { millidegrees: 47250 });
}

#[test]
fn first_positive_value_is_the_last_resort() {
    let readings = vec![reading("Battery", 30.0)];
    assert_eq!(in_degrees(scan_registry(&readings)), 30.0);
    let readings = vec![reading("a", 0.0), reading("b", -4.0), reading("c", 21.5), reading("d", 80.0)];
    assert_eq!(scan_registry(&readings), Temperature { millidegrees: 21500 });
    assert_eq!(first_positive_value(&readings), Some(Temperature { millidegrees: 21500 }));
}

#[test]
fn last_resort_applies_when_the_labelled_value_is_zero() {
    let readings = vec![reading("Battery", 30.0), reading("Package id 0", 0.0)];
    assert_eq!(labelled_value_of(&readings), Temperature::zero());
    assert_eq!(in_degrees(scan_registry(&readings)), 30.0);
    let readings = vec![reading("Core 0", -5.0), reading("Core 1", 0.0), reading("disk", 33.0)];
    assert_eq!(labelled_value_of(&readings), Temperature::zero());
    assert_eq!(in_degrees(scan_registry(&readings)), 33.0);
}

#[test]
fn negative_package_value_is_a_reading() {
    let readings = vec![reading("Tctl", -3.5), reading("disk", 33.0)];
    assert_eq!(scan_registry(&readings), Temperature { millidegrees: -3500 });
    assert_eq!(read_registry(&readings), Ok(Temperature { millidegrees: -3500 }));
}

#[test]
fn empty_registry_gives_zero() {
    let readings: Vec<SensorReading> = Vec::new();
    assert_eq!(in_degrees(scan_registry(&readings)), 0.0);
    assert_eq!(scan_registry(&readings), Temperature::zero());
    assert_eq!(read_registry(&readings), Err(Failure::RegistryEmpty));
    assert_eq!(first_positive_value(&readings), None);
}

#[test]
fn registry_without_a_value_above_zero_has_no_match() {
    let readings = vec![reading("Core 0", 0.0), reading("Battery", -1.0)];
    assert_eq!(scan_registry(&readings), Temperature::zero());
    assert_eq!(read_registry(&readings), Err(Failure::NoMatchingSensor));
}

#[test]
fn labels_are_matched_without_regard_to_case() {
    assert!(names_package("Package id 0"));
    assert!(names_package("PACKAGE ID 0"));
    assert!(names_package("Tctl"));
    assert!(!names_package("Package id 1"));
    assert!(!names_package("Package id 0 "));
    assert!(!names_package("coretemp Package id 0"));
    assert!(names_cpu("CPU"));
    assert!(names_cpu("acpi Cpu thermal"));
    assert!(names_cpu("Core 3"));
    assert!(names_cpu("coretemp"));
    assert!(!names_cpu("Battery"));
    assert!(!names_cpu("c p u"));
    assert!(!names_cpu(""));
}
