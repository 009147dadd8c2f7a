use cpu_temp::temperature::{Failure, Temperature};
use cpu_temp::thermal_zone::read_thermal_zone;

#[test]
fn millidegrees_become_degrees() {
    let t = read_thermal_zone("45230\n").unwrap();
    assert_eq!(t, Temperature { millidegrees: 45230 });
    assert_eq!(t.millidegrees() as f64 / 1000.0, 45.23);
}

#[test]
fn text_that_is_no_number_gives_no_reading() {
    assert_eq!(read_thermal_zone("abc"), Err(Failure::FileUnparseable));
    assert_eq!(read_thermal_zone(""), Err(Failure::FileUnparseable));
    assert_eq!(read_thermal_zone("\n"), Err(Failure::FileUnparseable));
    assert_eq!(read_thermal_zone("45230 C"), Err(Failure::FileUnparseable));
    assert_eq!(read_thermal_zone("45 230"), Err(Failure::FileUnparseable));
    assert_eq!(read_thermal_zone("45230\n17000\n"), Err(Failure::FileUnparseable));
}

#[test]
fn zone_content_is_trimmed_before_it_is_read() {
    assert_eq!(read_thermal_zone("  52000\r\n"), Ok(Temperature { millidegrees: 52000 }));
    assert_eq!(read_thermal_zone("\t-1500 "), Ok(Temperature { millidegrees: -1500 }));
    assert_eq!(read_thermal_zone("0"), Ok(Temperature::zero()));
}

#[test]
fn zone_content_may_have_a_fraction_or_an_exponent() {
    assert_eq!(read_thermal_zone("45230.9\n"), Ok(Temperature { millidegrees: 45230 }));
    assert_eq!(read_thermal_zone("4.523e4\n"), Ok(Temperature { millidegrees: 45230 }));
    assert_eq!(read_thermal_zone("1e30\n"), Err(Failure::FileUnparseable));
}
