use colossal::calculation::find_tag;
use colossal::calculation::init_channel_list;
use colossal::calculation::substitute;
use colossal::calculation::CalcError;
use colossal::calculation::CalculationChannel;
use colossal::calculation::Evaluated;
use colossal::device::init_mb_tcp_device;
use colossal::device::ModbusChannel;
use colossal::device::ModbusChannelType;
use colossal::device::ModbusDevice;
use colossal::device::ModbusDeviceConfig;
use colossal::device::ModbusValue;

fn tag(name: &str, value: ModbusValue) -> ModbusChannel {
    let channel_type = match value {
        ModbusValue::Int(_) => ModbusChannelType::Int,
        ModbusValue::Real(_) => ModbusChannelType::Real,
        ModbusValue::Bool(_) => ModbusChannelType::Coil,
    };
    ModbusChannel {
        id: 0,
        enabled: true,
        name: name.to_owned(),
        description: String::new(),
        address: 0,
        channel_type,
        value,
    }
}

fn real_tag(value: f32) -> ModbusValue {
    ModbusValue::Real(value.to_bits())
}

fn plant(channels: Vec<ModbusChannel>) -> Vec<ModbusDevice> {
    vec![ModbusDevice {
        id: 0,
        code: "MB".to_owned(),
        name: "plant".to_owned(),
        config: ModbusDeviceConfig::Serial,
        channels,
    }]
}

fn calc(expression: &str) -> CalculationChannel {
    CalculationChannel {
        enabled: true,
        id: 1,
        name: "CH1".to_owned(),
        calculation: expression.to_owned(),
        value: 0,
        error: None,
    }
}

fn result_of(expression: &str, devices: &Vec<ModbusDevice>) -> f64 {
    let mut channel = calc(expression);
    assert_eq!(channel.evaluate(devices), Ok(()));
    assert_eq!(channel.error, None);
    f64::from_bits(channel.value)
}

#[test]
fn init_channel_list_builds_default_channels() {
    let list = init_channel_list(5);
    assert_eq!(list.len(), 5);
    for (k, channel) in list.iter().enumerate() {
        let i = k + 1;
        assert!(channel.enabled);
        assert_eq!(channel.id, i);
        assert_eq!(channel.name, format!("CH{}", i));
        assert_eq!(channel.calculation, format!("MB{} + MB{} + 0.0", i, i));
        assert_eq!(f64::from_bits(channel.value), 0.0);
        assert_eq!(channel.error, None);
    }
    assert!(init_channel_list(0).is_empty());
    assert_eq!(init_channel_list(12)[11].calculation, "MB12 + MB12 + 0.0");
}

#[test]
fn substitution_doubles_a_real_tag() {
    let devices = plant(vec![tag("MB1", real_tag(3.0))]);
    assert_eq!(result_of("MB1 + MB1 + 0.0", &devices), 6.0);
}

#[test]
fn default_channels_evaluate_against_a_fresh_device() {
    let devices = vec![init_mb_tcp_device("127.0.0.1".to_owned(), 5502, "Device_1".to_owned(), 10)];
    for mut channel in init_channel_list(5) {
        assert_eq!(channel.evaluate(&devices), Ok(()));
        assert_eq!(f64::from_bits(channel.value), 6.0);
    }
}

#[test]
fn unknown_tag_fails_and_keeps_the_result() {
    let devices = plant(vec![tag("MB1", real_tag(3.0))]);
    let mut channel = calc("MB99 + 1");
    channel.value = 12.5f64.to_bits();
    assert_eq!(
        channel.evaluate(&devices),
        Err(CalcError::UnknownTag { reference: "MB99".to_owned() })
    );
    assert_eq!(f64::from_bits(channel.value), 12.5);
    assert_eq!(channel.error, Some("unknown tag MB99".to_owned()));
}

#[test]
fn unknown_tag_without_any_device() {
    let mut channel = calc("MB99 + 1");
    channel.value = 1.0f64.to_bits();
    assert_eq!(
        channel.evaluate(&Vec::new()),
        Err(CalcError::UnknownTag { reference: "MB99".to_owned() })
    );
    assert_eq!(f64::from_bits(channel.value), 1.0);
}

#[test]
fn constant_expression_needs_no_device() {
    assert_eq!(result_of("2 + 2", &Vec::new()), 4.0);
    assert_eq!(result_of("2.5 * 4.0", &Vec::new()), 10.0);
    assert_eq!(result_of("7", &Vec::new()), 7.0);
}

#[test]
fn integer_tags_are_decimal_numerals() {
    let devices = plant(vec![tag("MB1", ModbusValue::Int(40)), tag("MB2", ModbusValue::Int(2))]);
    assert_eq!(substitute("MB1 + MB2", &devices), Ok("40 + 2".to_owned()));
    assert_eq!(result_of("MB1 + MB2", &devices), 42.0);
    assert_eq!(result_of("MB1 / MB2 + 0.5", &devices), 20.5);
}

#[test]
fn real_tags_are_written_as_reals() {
    let devices = plant(vec![
        tag("MB1", real_tag(3.0)),
        tag("MB2", real_tag(-2.5)),
        tag("MB3", real_tag(0.0)),
        tag("MB4", real_tag(1.0e20)),
        tag("MB5", real_tag(1.0e-20)),
        tag("MB6", real_tag(16777216.0)),
    ]);
    assert_eq!(substitute("MB5", &devices), Ok(format!("{:e}", 1.0e-20f32 as f64)));
    assert_eq!(substitute("MB6", &devices), Ok("16777216.0".to_owned()));
    assert_eq!(substitute("MB1", &devices), Ok("3.0".to_owned()));
    assert_eq!(substitute("MB2", &devices), Ok("-2.5".to_owned()));
    assert_eq!(substitute("MB3", &devices), Ok("0.0".to_owned()));
    assert_eq!(substitute("MB4", &devices), Ok("1.0000000200408773e20".to_owned()));
    assert_eq!(result_of("MB1 + MB1", &devices), 6.0);
    assert_eq!(result_of("MB1 * MB2", &devices), -7.5);
    assert_eq!(result_of("MB4 / 1.0e10", &devices), 1.0e20f32 as f64 / 1.0e10);
}

#[test]
fn real_tags_keep_their_exact_value() {
    let devices = plant(vec![tag("MB1", real_tag(0.1))]);
    assert_eq!(result_of("MB1", &devices), 0.1f32 as f64);
    assert_eq!(result_of("MB1 * 2.0", &devices), (0.1f32 as f64) * 2.0);
}

#[test]
fn references_are_whole_words() {
    let devices = plant(vec![
        tag("MB1", ModbusValue::Int(1)),
        tag("MB12", ModbusValue::Int(12)),
        tag("MB123", ModbusValue::Int(123)),
    ]);
    assert_eq!(substitute("MB12 + MB1", &devices), Ok("12 + 1".to_owned()));
    assert_eq!(substitute("MB123*MB12*MB1", &devices), Ok("123*12*1".to_owned()));
    assert_eq!(substitute("(MB1)", &devices), Ok("(1)".to_owned()));
    assert_eq!(substitute("MB1+MB1", &devices), Ok("1+1".to_owned()));
}

#[test]
fn text_that_is_no_reference_is_kept() {
    let devices = plant(vec![tag("MB1", ModbusValue::Int(1))]);
    assert_eq!(substitute("", &devices), Ok(String::new()));
    assert_eq!(substitute("MB", &devices), Ok("MB".to_owned()));
    assert_eq!(substitute("MBX1", &devices), Ok("MBX1".to_owned()));
    assert_eq!(substitute("XMB1", &devices), Ok("XMB1".to_owned()));
    assert_eq!(substitute("_MB1", &devices), Ok("_MB1".to_owned()));
    assert_eq!(substitute("9MB1", &devices), Ok("9MB1".to_owned()));
    assert_eq!(substitute("mb1", &devices), Ok("mb1".to_owned()));
    assert_eq!(substitute("M B1", &devices), Ok("M B1".to_owned()));
    assert_eq!(substitute("1 + 2", &devices), Ok("1 + 2".to_owned()));
    assert_eq!(substitute("\u{e9}", &devices), Ok("\u{e9}".to_owned()));
}

#[test]
fn a_reference_ends_with_its_digits() {
    let devices = plant(vec![tag("MB1", ModbusValue::Int(5))]);
    assert_eq!(substitute("MB1x", &devices), Ok("5x".to_owned()));
    assert_eq!(substitute("MB1.5", &devices), Ok("5.5".to_owned()));
    assert_eq!(substitute("MB1 ", &devices), Ok("5 ".to_owned()));
}

#[test]
fn leading_zeros_are_part_of_the_name() {
    let devices = plant(vec![tag("MB1", ModbusValue::Int(5))]);
    assert_eq!(
        substitute("MB01", &devices),
        Err(CalcError::UnknownTag { reference: "MB01".to_owned() })
    );
}

#[test]
fn the_first_reference_that_fails_is_reported() {
    let devices = plant(vec![tag("MB1", ModbusValue::Int(5)), tag("MB3", ModbusValue::Bool(true))]);
    assert_eq!(
        substitute("MB1 + MB2 + MB3", &devices),
        Err(CalcError::UnknownTag { reference: "MB2".to_owned() })
    );
    assert_eq!(
        substitute("MB1 + MB3 + MB2", &devices),
        Err(CalcError::UnsupportedOperand { reference: "MB3".to_owned() })
    );
}

#[test]
fn boolean_tags_are_unsupported() {
    let devices = plant(vec![tag("MB7", ModbusValue::Bool(true))]);
    let mut channel = calc("MB7 + 1");
    channel.value = 3.25f64.to_bits();
    assert_eq!(
        channel.evaluate(&devices),
        Err(CalcError::UnsupportedOperand { reference: "MB7".to_owned() })
    );
    assert_eq!(f64::from_bits(channel.value), 3.25);
    assert_eq!(channel.error, Some("unsupported operand MB7".to_owned()));
}

#[test]
fn tags_are_found_in_every_device_first_match_first() {
    let mut devices = plant(vec![tag("MB1", ModbusValue::Int(1))]);
    devices.extend(plant(vec![tag("MB2", ModbusValue::Int(2)), tag("MB1", ModbusValue::Int(100))]));
    assert_eq!(find_tag(&devices, &"MB1".to_owned()), Some(ModbusValue::Int(1)));
    assert_eq!(find_tag(&devices, &"MB2".to_owned()), Some(ModbusValue::Int(2)));
    assert_eq!(find_tag(&devices, &"MB3".to_owned()), None);
    assert_eq!(result_of("MB1 + MB2", &devices), 3.0);
}

#[test]
fn disabled_channels_still_give_their_value() {
    let mut devices = plant(vec![tag("MB1", ModbusValue::Int(8))]);
    devices[0].channels[0].enabled = false;
    assert_eq!(result_of("MB1", &devices), 8.0);
}

#[test]
fn malformed_expression_is_an_evaluation_error() {
    let mut channel = calc("2 +");
    channel.value = 9.0f64.to_bits();
    let result = channel.evaluate(&Vec::new());
    match result {
        Err(CalcError::EvaluationError { detail }) => {
            assert!(!detail.is_empty());
            assert_eq!(channel.error, Some(detail));
        }
        other => panic!("unexpected {:?}", other),
    }
    assert_eq!(f64::from_bits(channel.value), 9.0);
}

#[test]
fn division_by_zero_is_an_evaluation_error() {
    for expression in ["1 / 0", "1.0 / 0.0", "0.0 / 0.0", "-1.0 / 0.0"] {
        let mut channel = calc(expression);
        channel.value = 9.0f64.to_bits();
        let result = channel.evaluate(&Vec::new());
        assert!(matches!(result, Err(CalcError::EvaluationError { .. })), "{}", expression);
        assert_eq!(f64::from_bits(channel.value), 9.0);
        assert!(channel.error.is_some());
    }
}

#[test]
fn statements_are_refused() {
    for expression in [
        "let x = 1; x",
        "while true {}",
        "loop {}",
        "print(1)",
        "import \"x\" as y",
        "fn f() { 1 } f()",
        "1; 2",
    ] {
        let mut channel = calc(expression);
        let result = channel.evaluate(&Vec::new());
        assert!(matches!(result, Err(CalcError::EvaluationError { .. })), "{}", expression);
        assert_eq!(channel.value, 0);
    }
}

#[test]
fn results_that_are_no_numbers_are_refused() {
    for expression in ["true", "\"text\"", "1 < 2"] {
        let mut channel = calc(expression);
        let result = channel.evaluate(&Vec::new());
        assert!(matches!(result, Err(CalcError::EvaluationError { .. })), "{}", expression);
    }
}

#[test]
fn success_clears_an_earlier_error() {
    let devices = plant(vec![tag("MB1", ModbusValue::Int(2))]);
    let mut channel = calc("MB1 * 3");
    channel.error = Some("old".to_owned());
    assert_eq!(channel.evaluate(&devices), Ok(()));
    assert_eq!(channel.error, None);
    assert_eq!(f64::from_bits(channel.value), 6.0);
    assert_eq!(channel.name, "CH1");
    assert_eq!(channel.calculation, "MB1 * 3");
    assert_eq!(channel.id, 1);
    assert!(channel.enabled);
}

#[test]
fn arithmetic_functions_are_available() {
    assert_eq!(result_of("-(1 + 2)", &Vec::new()), -3.0);
    assert_eq!(result_of("abs(-2.5)", &Vec::new()), 2.5);
    assert_eq!(result_of("sqrt(16.0)", &Vec::new()), 4.0);
    assert_eq!(result_of("floor(2.75)", &Vec::new()), 2.0);
    assert_eq!(result_of("7 % 4", &Vec::new()), 3.0);
}

#[test]
fn settle_stores_numbers() {
    let mut channel = calc("x");
    assert_eq!(channel.settle(Evaluated::Real(2.5f64.to_bits())), Ok(()));
    assert_eq!(f64::from_bits(channel.value), 2.5);
    assert_eq!(channel.settle(Evaluated::Whole(4)), Ok(()));
    assert_eq!(f64::from_bits(channel.value), 4.0);
    assert_eq!(channel.settle(Evaluated::Whole(-7)), Ok(()));
    assert_eq!(f64::from_bits(channel.value), -7.0);
    assert_eq!(channel.settle(Evaluated::Whole(i64::MAX)), Ok(()));
    assert_eq!(channel.value, (i64::MAX as f64).to_bits());
    assert_eq!(channel.settle(Evaluated::Whole(i64::MIN)), Ok(()));
    assert_eq!(channel.value, (i64::MIN as f64).to_bits());
    assert_eq!(channel.settle(Evaluated::Whole(0)), Ok(()));
    assert_eq!(channel.value, 0);
    assert_eq!(channel.error, None);
}

#[test]
fn settle_refuses_what_is_no_finite_number() {
    let mut channel = calc("x");
    channel.value = 1.0f64.to_bits();
    assert_eq!(
        channel.settle(Evaluated::Real(f64::INFINITY.to_bits())),
        Err(CalcError::EvaluationError { detail: "result is not finite".to_owned() })
    );
    assert_eq!(channel.error, Some("result is not finite".to_owned()));
    assert_eq!(
        channel.settle(Evaluated::Real(f64::NAN.to_bits())),
        Err(CalcError::EvaluationError { detail: "result is not finite".to_owned() })
    );
    assert_eq!(
        channel.settle(Evaluated::Other("bool".to_owned())),
        Err(CalcError::EvaluationError { detail: "result is not a number: bool".to_owned() })
    );
    assert_eq!(channel.error, Some("result is not a number: bool".to_owned()));
    assert_eq!(
        channel.settle(Evaluated::Failed("syntax".to_owned())),
        Err(CalcError::EvaluationError { detail: "syntax".to_owned() })
    );
    assert_eq!(channel.error, Some("syntax".to_owned()));
    assert_eq!(f64::from_bits(channel.value), 1.0);
}

#[test]
fn error_messages() {
    assert_eq!(CalcError::UnknownTag { reference: "MB9".to_owned() }.message(), "unknown tag MB9");
    assert_eq!(
        CalcError::UnsupportedOperand { reference: "MB9".to_owned() }.message(),
        "unsupported operand MB9"
    );
    assert_eq!(CalcError::EvaluationError { detail: "d".to_owned() }.message(), "d");
}

#[test]
fn references_match_a_word_bounded_pattern() {
    let pattern = regex::Regex::new(r"(?-u:\b)MB[0-9]+").unwrap();
    let names = ["MB1", "MB12", "MB345", "MB0", "MB007"];
    let channels = names.iter().map(|name| tag(name, ModbusValue::Int(1))).collect();
    let devices = plant(channels);
    for expression in [
        "MB1 + MB12",
        "MB1+MB12*MB345",
        "xMB1 + MB12",
        "MB1MB12",
        "(MB0)/MB007",
        "MB12345678901234567890",
        "MB + MB1",
        "MB1_2",
        "1MB1",
    ] {
        let expected = pattern.replace_all(expression, "1").into_owned();
        let known = pattern.find_iter(expression).all(|m| names.contains(&m.as_str()));
        match substitute(expression, &devices) {
            Ok(text) => {
                assert!(known, "{}", expression);
                assert_eq!(text, expected, "{}", expression);
            }
            Err(CalcError::UnknownTag { reference }) => {
                assert!(!known, "{}", expression);
                let first = pattern
                    .find_iter(expression)
                    .find(|m| !names.contains(&m.as_str()))
                    .unwrap();
                assert_eq!(reference, first.as_str());
            }
            Err(other) => panic!("unexpected {:?}", other),
        }
    }
}
