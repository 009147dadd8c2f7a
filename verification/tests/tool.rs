use cpu_temp::temperature::{Failure, Temperature};
use cpu_temp::tool::{
    child_of, chip_reading_of, cpu_reading, metric_of, names_cpu_chip, number_of,
    package_reading_of, read_tool_output, scan_reading_of, sensor_reading_of,
};
use cpu_temp::tree::{parse_document, parse_text, Member, Node};

fn chars(text: &str) -> Vec<char> {
    text.chars().collect()
}

fn number(text: &str) -> Node {
    Node::Number(text.to_string())
}

fn object(members: Vec<(&str, Node)>) -> Node {
    Node::Object(
        members.into_iter().map(|(key, value)| Member { key: key.to_string(), value }).collect(),
    )
}

const AMD: &str = r#"{
   "nvme-pci-0100":{
      "Adapter": "PCI adapter",
      "Composite":{
         "temp1_input": 36.850,
         "temp1_max": 84.850
      }
   },
   "k10temp-pci-00c3":{
      "Adapter": "PCI adapter",
      "Tctl":{
         "temp1_input": 48.625
      },
      "Tccd1":{
         "temp3_input": 41.250
      }
   },
   "coretemp-isa-0000":{
      "Core 0":{
         "temp2_input": 71.000
      },
      "Package id 0":{
         "temp1_input": 72.000
      }
   }
}"#;

const INTEL: &str = r#"{
   "acpitz-acpi-0":{
      "Adapter": "ACPI interface",
      "temp1":{
         "temp1_input": 27.800
      }
   },
   "coretemp-isa-0000":{
      "Adapter": "ISA adapter",
      "Package id 0":{
         "temp1_input": 52.000,
         "temp1_max": 100.000
      },
      "Core 0":{
         "temp2_input": 50.000
      }
   }
}"#;

#[test]
fn known_package_value_is_returned_exactly() {
    assert_eq!(read_tool_output(AMD.as_bytes()), Ok(Temperature { millidegrees: 48625 }));
    let t = read_tool_output(AMD.as_bytes()).unwrap();
    assert_eq!(t.millidegrees() as f64 / 1000.0, 48.625);
}

#[test]
fn known_package_value_does_not_depend_on_other_chips() {
    let alone = r#"{"k10temp-pci-00c3": {"Tctl": {"temp1_input": 48.625}}}"#;
    assert_eq!(read_tool_output(alone.as_bytes()), read_tool_output(AMD.as_bytes()));
    let root = object(vec![
        ("cpu-first", object(vec![("x", object(vec![("temp1_input", number("99.0"))]))])),
        (
            "k10temp-pci-00c3",
            object(vec![("Tctl", object(vec![("temp1_input", number("48.625"))]))]),
        ),
    ]);
    assert_eq!(cpu_reading(&root), Ok(Temperature { millidegrees: 48625 }));
    assert_eq!(package_reading_of(&root), Some(Temperature { millidegrees: 48625 }));
    assert_eq!(scan_reading_of(&root), Some(Temperature { millidegrees: 99000 }));
}

#[test]
fn value_comes_from_a_cpu_chip_never_from_another() {
    assert_eq!(read_tool_output(INTEL.as_bytes()), Ok(Temperature { millidegrees: 52000 }));
    let other = r#"{"acpitz-acpi-0": {"temp1": {"temp1_input": 27.8}},
                     "nvme-pci-0100": {"Composite": {"temp1_input": 36.85}}}"#;
    assert_eq!(read_tool_output(other.as_bytes()), Err(Failure::NoMatchingSensor));
}

#[test]
fn scan_takes_the_first_sensor_with_an_input() {
    let root = object(vec![
        ("gpu", object(vec![("edge", object(vec![("temp1_input", number("80.0"))]))])),
        (
            "xcpu0",
            object(vec![
                ("Adapter", Node::Text("Virtual device".to_string())),
                ("fan", object(vec![("fan1_input", number("1200"))])),
                ("die", object(vec![("input", number("61.5")), ("max", number("100"))])),
                ("rim", object(vec![("temp1_input", number("50"))])),
            ]),
        ),
    ]);
    assert_eq!(cpu_reading(&root), Ok(Temperature { millidegrees: 61500 }));
    assert_eq!(scan_reading_of(&root), Some(Temperature { millidegrees: 61500 }));
    assert_eq!(package_reading_of(&root), None);
}

#[test]
fn long_metric_name_goes_before_the_short_one() {
    let sensor = object(vec![("input", number("1")), ("temp1_input", number("2"))]);
    assert_eq!(sensor_reading_of(&sensor), Some(Temperature { millidegrees: 2000 }));
    let sensor = object(vec![("input", number("1")), ("temp1_input", Node::Text("2".to_string()))]);
    assert_eq!(sensor_reading_of(&sensor), Some(Temperature { millidegrees: 1000 }));
    let sensor = object(vec![("temp2_input", number("1"))]);
    assert_eq!(sensor_reading_of(&sensor), None);
}

#[test]
fn cpu_chip_without_a_numeric_input_is_passed_over() {
    let root = object(vec![
        ("cpu-a", object(vec![])),
        ("cpu-b", Node::Null),
        ("cpu-c", object(vec![("s", object(vec![("temp1_input", Node::Bool(true))]))])),
        ("cpu-d", object(vec![("s", object(vec![("temp1_input", number("44"))]))])),
    ]);
    assert_eq!(cpu_reading(&root), Ok(Temperature { millidegrees: 44000 }));
    let root = object(vec![("cpu", object(vec![]))]);
    assert_eq!(cpu_reading(&root), Err(Failure::NoMatchingSensor));
}

#[test]
fn package_chip_without_its_metric_falls_back_to_the_scan() {
    let text = r#"{"k10temp-pci-00c3": {"Tccd1": {"temp3_input": 41.25}, "Tdie": {"input": 43.5}}}"#;
    assert_eq!(read_tool_output(text.as_bytes()), Ok(Temperature { millidegrees: 43500 }));
    let text = r#"{"k10temp-pci-00c3": {"Tctl": {"temp1_input": "hot"}}}"#;
    assert_eq!(read_tool_output(text.as_bytes()), Err(Failure::NoMatchingSensor));
}

#[test]
fn chip_names_are_matched_with_regard_to_case() {
    assert!(names_cpu_chip("coretemp-isa-0000"));
    assert!(names_cpu_chip("k10temp-pci-00c3"));
    assert!(names_cpu_chip("acpi-cpu-1"));
    assert!(!names_cpu_chip("CPU"));
    assert!(!names_cpu_chip("K10temp"));
    assert!(!names_cpu_chip("nvme-pci-0100"));
    assert!(!names_cpu_chip(""));
}

#[test]
fn malformed_output_gives_no_reading() {
    for text in ["", " ", "sensors: command failed", "{", "{\"cpu\": }", "{\"cpu\": {}} trailing",
        "{'cpu': 1}", "{\"cpu\": 1e999}"]
    {
        assert_eq!(
            read_tool_output(text.as_bytes()),
            Err(Failure::ToolOutputMalformed),
            "{:?}",
            text
        );
    }
    assert_eq!(read_tool_output(&[0xff, 0xfe]), Err(Failure::ToolOutputMalformed));
    assert_eq!(read_tool_output(&[b'{', b'"', 0xc3, b'"', b':', b'1', b'}']), Err(Failure::ToolOutputMalformed));
    assert_eq!(parse_document(&[0xc0, 0x80]), None);
    assert_eq!(parse_text("[1, 2"), None);
}

#[test]
fn document_that_is_no_mapping_has_no_sensor() {
    for text in ["[]", "3", "null", "\"cpu\"", "true", "[{\"cpu\": {\"s\": {\"input\": 1}}}]", "{}"] {
        assert_eq!(read_tool_output(text.as_bytes()), Err(Failure::NoMatchingSensor), "{:?}", text);
    }
}

#[test]
fn text_becomes_a_tree_of_plain_values() {
    let tree = parse_text(r#"{"b": [null, true, "x"], "a": {"n": 1.5, "m": -7, "z": 1e-7}}"#);
    let expected = object(vec![
        ("a", object(vec![("m", number("-7")), ("n", number("1.5")), ("z", number("1e-7"))])),
        ("b", Node::List(vec![Node::Null, Node::Bool(true), Node::Text("x".to_string())])),
    ]);
    assert_eq!(tree, Some(expected));
    assert_eq!(parse_document("45.000".as_bytes()), Some(number("45.0")));
    assert_eq!(parse_document("\"\u{e9}\"".as_bytes()), Some(Node::Text("\u{e9}".to_string())));
}

#[test]
fn numbers_of_any_form_are_read_in_degrees() {
    assert_eq!(number_of(&number("45.0")), Some(Temperature { millidegrees: 45000 }));
    assert_eq!(number_of(&number("1e-7")), Some(Temperature::zero()));
    assert_eq!(number_of(&number("1e300")), None);
    assert_eq!(number_of(&Node::Text("45.0".to_string())), None);
    assert_eq!(number_of(&Node::Null), None);
    let text = r#"{"cpu": {"s": {"temp1_input": 2.5e1}}}"#;
    assert_eq!(read_tool_output(text.as_bytes()), Ok(Temperature { millidegrees: 25000 }));
    let text = r#"{"cpu": {"s": {"temp1_input": 1e300}, "t": {"temp1_input": 31}}}"#;
    assert_eq!(read_tool_output(text.as_bytes()), Ok(Temperature { millidegrees: 31000 }));
}

#[test]
fn children_are_found_by_key() {
    let node = object(vec![("a", number("1")), ("b", number("2")), ("a", number("3"))]);
    assert_eq!(child_of(&node, &chars("a")), Some(&number("1")));
    assert_eq!(child_of(&node, &chars("b")), Some(&number("2")));
    assert_eq!(child_of(&node, &chars("c")), None);
    assert_eq!(child_of(&node, &chars("")), None);
    assert_eq!(child_of(&Node::List(vec![number("1")]), &chars("0")), None);
    assert_eq!(metric_of(&node, "b"), Some(Temperature { millidegrees: 2000 }));
    assert_eq!(metric_of(&node, "c"), None);
    assert_eq!(chip_reading_of(&node), None);
    assert_eq!(chip_reading_of(&number("1")), None);
}
