use sharedobject::platform::{find_line, ioreg_platform_uuid, platform_value, profiler_serial, second_part_of, trim_quotes};

#[test]
fn ioreg_uuid() {
    let output = "+-o Root\n  \"IOPlatformSerialNumber\" = \"C02XX\"\n  \"IOPlatformUUID\" = \"1234-ABCD\"\n";
    assert_eq!(ioreg_platform_uuid(output), Some("1234-ABCD".to_string()));
    assert_eq!(ioreg_platform_uuid("nothing here\n"), None);
    assert_eq!(ioreg_platform_uuid("IOPlatformUUID without sign"), None);
    assert_eq!(ioreg_platform_uuid("IOPlatformUUID = a = b"), Some("a".to_string()));
}

#[test]
fn profiler_serial_number() {
    let output = "Hardware:\n    Model Name: MacBook\n      Serial Number (system): C02ABC\n";
    assert_eq!(profiler_serial(output), Some("C02ABC".to_string()));
    assert_eq!(profiler_serial("Serial Number"), Some(String::new()));
    assert_eq!(profiler_serial("Model: x"), None);
}

#[test]
fn parts_and_trimming() {
    assert_eq!(second_part_of("a=b=c", '='), Some("b".to_string()));
    assert_eq!(second_part_of("a=", '='), Some(String::new()));
    assert_eq!(second_part_of("abc", '='), None);
    assert_eq!(trim_quotes("\"\"x\"y\""), "x\"y");
    assert_eq!(trim_quotes("\"\""), "");
    assert_eq!(platform_value("  4c4c-4544\n"), "4c4c-4544");
    let lines = vec!["a".to_string(), "bx".to_string(), "cx".to_string()];
    assert_eq!(find_line(&lines, "x"), Some(1));
    assert_eq!(find_line(&lines, "z"), None);
}
