use luminaire::keylight::{
    api_to_kelvin, build_body, clamp_brightness, kelvin_to_api, light_state_from_response,
    ElgatoLight, ElgatoResponse, KeyLightClient, KeyLightError, LightCommand, LightFields,
    DEFAULT_PORT, MAX_BRIGHTNESS, MIN_BRIGHTNESS,
};

fn body(on: Option<i32>, brightness: Option<i32>, temperature: Option<i32>) -> String {
    build_body(&LightFields { on, brightness, temperature })
}

#[test]
fn test_kelvin_to_api_boundaries() {
    assert_eq!(kelvin_to_api(2900), 344); // min kelvin -> max api
    assert_eq!(kelvin_to_api(7000), 143); // max kelvin -> min api
}

#[test]
fn test_api_to_kelvin_boundaries() {
    assert_eq!(api_to_kelvin(344), 2900); // max api -> min kelvin
    assert_eq!(api_to_kelvin(143), 7000); // min api -> max kelvin
}

#[test]
fn test_round_trip() {
    assert_eq!(api_to_kelvin(kelvin_to_api(2900)), 2900);
    assert_eq!(api_to_kelvin(kelvin_to_api(7000)), 7000);
}

#[test]
fn test_kelvin_clamping() {
    assert_eq!(kelvin_to_api(0), 344);
    assert_eq!(kelvin_to_api(-100), 344);
    assert_eq!(kelvin_to_api(8000), 143);
    assert_eq!(kelvin_to_api(99999), 143);
}

#[test]
fn test_api_clamping() {
    assert_eq!(api_to_kelvin(0), 7000);
    assert_eq!(api_to_kelvin(500), 2900);
}

#[test]
fn test_brightness_clamping_in_set_brightness() {
    assert_eq!(50i32.clamp(MIN_BRIGHTNESS, MAX_BRIGHTNESS), 50);
    assert_eq!((-10i32).clamp(MIN_BRIGHTNESS, MAX_BRIGHTNESS), 0);
    assert_eq!(150i32.clamp(MIN_BRIGHTNESS, MAX_BRIGHTNESS), 100);
    assert_eq!(clamp_brightness(50), 50);
    assert_eq!(clamp_brightness(-10), 0);
    assert_eq!(clamp_brightness(150), 100);
}

#[test]
fn test_json_serialization_set_power_on() {
    let json = body(Some(1), None, None);
    assert!(json.contains("\"on\":1"));
    assert!(json.contains("\"numberOfLights\":1"));
}

#[test]
fn test_json_serialization_set_brightness() {
    let json = body(None, Some(75), None);
    assert!(json.contains("\"brightness\":75"));
}

#[test]
fn test_json_serialization_set_temperature() {
    let json = body(None, None, Some(200));
    assert!(json.contains("\"temperature\":200"));
}

#[test]
fn test_json_serialization_set_state() {
    let json = body(Some(1), Some(50), Some(243));
    assert!(json.contains("\"on\":1"));
    assert!(json.contains("\"brightness\":50"));
    assert!(json.contains("\"temperature\":243"));
}

#[test]
fn test_json_serialization_partial_bodies() {
    // set_power only sends on
    let power_json = body(Some(0), None, None);
    assert!(power_json.contains("\"on\":0"));
    assert!(!power_json.contains("brightness"));
    assert!(!power_json.contains("temperature"));

    // set_brightness only sends brightness
    let bright_json = body(None, Some(42), None);
    assert!(bright_json.contains("\"brightness\":42"));
    assert!(!bright_json.contains("\"on\""));
    assert!(!bright_json.contains("\"temperature\""));
}

#[test]
fn test_response_parsing() {
    let json = r#"{"numberOfLights":1,"lights":[{"on":1,"brightness":50,"temperature":243}]}"#;
    let value: serde_json::Value = serde_json::from_str(json).unwrap();
    let lights = value["lights"].as_array().unwrap();
    let parsed = ElgatoResponse {
        lights: lights
            .iter()
            .map(|l| ElgatoLight {
                on: l["on"].as_i64().unwrap() as i32,
                brightness: l["brightness"].as_i64().unwrap() as i32,
                temperature: l["temperature"].as_i64().unwrap() as i32,
            })
            .collect(),
    };
    let light = &parsed.lights[0];
    assert_eq!(light.on, 1);
    assert_eq!(light.brightness, 50);
    assert_eq!(light.temperature, 243);
    assert!(light.on == 1);
    let state = light_state_from_response(Ok(parsed)).unwrap();
    assert!(state.on);
    assert_eq!(state.brightness, 50);
    assert_eq!(state.temperature_kelvin, api_to_kelvin(243));
}

#[test]
fn body_exact_text() {
    assert_eq!(
        body(Some(1), Some(50), Some(243)),
        r#"{"numberOfLights":1,"lights":[{"on":1,"brightness":50,"temperature":243}]}"#
    );
    assert_eq!(body(None, None, None), r#"{"numberOfLights":1,"lights":[{}]}"#);
    assert_eq!(body(None, Some(-5), None), r#"{"numberOfLights":1,"lights":[{"brightness":-5}]}"#);
    assert_eq!(
        body(None, Some(0), Some(344)),
        r#"{"numberOfLights":1,"lights":[{"brightness":0,"temperature":344}]}"#
    );
}

#[test]
fn body_is_valid_json() {
    let text = body(Some(0), Some(100), Some(143));
    let value: serde_json::Value = serde_json::from_str(&text).unwrap();
    assert_eq!(value["numberOfLights"].as_i64(), Some(1));
    assert_eq!(value["lights"][0]["on"].as_i64(), Some(0));
    assert_eq!(value["lights"][0]["brightness"].as_i64(), Some(100));
    assert_eq!(value["lights"][0]["temperature"].as_i64(), Some(143));
}

#[test]
fn command_fields_clamp_and_convert() {
    let f = LightCommand::Brightness(150).fields();
    assert_eq!((f.on, f.brightness, f.temperature), (None, Some(100), None));
    let f = LightCommand::Temperature(2900).fields();
    assert_eq!((f.on, f.brightness, f.temperature), (None, None, Some(344)));
    let f = LightCommand::Power(false).fields();
    assert_eq!((f.on, f.brightness, f.temperature), (Some(0), None, None));
    let f = LightCommand::State { on: true, brightness: -3, kelvin: 99999 }.fields();
    assert_eq!((f.on, f.brightness, f.temperature), (Some(1), Some(0), Some(143)));
}

#[test]
fn conversion_midpoints() {
    // 4950 K: (4950 - 2900) * 201 / 4100 = 100 -> 344 - 100
    assert_eq!(kelvin_to_api(4950), 244);
    // 243: 2900 + 101 * 4100 / 201 = 2900 + 2060
    assert_eq!(api_to_kelvin(243), 4960);
    // back: (4960 - 2900) * 201 / 4100 = 100, one API step warmer
    assert_eq!(kelvin_to_api(api_to_kelvin(243)), 244);
    // 244: 2900 + 100 * 4100 / 201 = 2900 + 2039
    assert_eq!(api_to_kelvin(kelvin_to_api(4950)), 4939);
}

#[test]
fn round_trips_stay_close() {
    for a in 100..400 {
        let c = a.clamp(143, 344);
        let back = kelvin_to_api(api_to_kelvin(a));
        assert!(back == c || back == c + 1, "api {} came back as {}", a, back);
    }
    for k in 2000..8000 {
        let c = k.clamp(2900, 7000);
        let back = api_to_kelvin(kelvin_to_api(k));
        assert!(c - 21 <= back && back <= c, "kelvin {} came back as {}", k, back);
    }
}

#[test]
fn client_urls_and_requests() {
    let mut client = KeyLightClient::new("192.168.1.100".to_string(), DEFAULT_PORT);
    assert_eq!(client.host(), "192.168.1.100");
    assert_eq!(client.port(), 9123);
    assert_eq!(client.lights_url(), "http://192.168.1.100:9123/elgato/lights");
    assert_eq!(client.state_request().unwrap(), "http://192.168.1.100:9123/elgato/lights");
    let req = client.update_request(&LightCommand::Power(true)).unwrap();
    assert_eq!(req.url, "http://192.168.1.100:9123/elgato/lights");
    assert_eq!(req.body, r#"{"numberOfLights":1,"lights":[{"on":1}]}"#);

    client.set_host("10.0.0.2".to_string(), 80);
    let copy = client.clone_state();
    assert_eq!(copy.host(), "10.0.0.2");
    assert_eq!(copy.lights_url(), "http://10.0.0.2:80/elgato/lights");
    let copy0 = KeyLightClient::new("h".to_string(), 0);
    assert_eq!(copy0.lights_url(), "http://h:0/elgato/lights");
}

#[test]
fn missing_address_is_no_ip() {
    let client = KeyLightClient::new(String::new(), DEFAULT_PORT);
    assert!(matches!(client.state_request(), Err(KeyLightError::NoIp)));
    assert!(matches!(client.update_request(&LightCommand::Brightness(3)), Err(KeyLightError::NoIp)));
}

#[test]
fn response_errors() {
    assert!(matches!(
        light_state_from_response(Err("expected value".to_string())),
        Err(KeyLightError::InvalidJson(m)) if m == "expected value"
    ));
    assert!(matches!(
        light_state_from_response(Ok(ElgatoResponse { lights: vec![] })),
        Err(KeyLightError::NoLights)
    ));
    let two = ElgatoResponse {
        lights: vec![
            ElgatoLight { on: 0, brightness: 3, temperature: 500 },
            ElgatoLight { on: 1, brightness: 9, temperature: 143 },
        ],
    };
    let s = light_state_from_response(Ok(two)).unwrap();
    assert!(!s.on);
    assert_eq!(s.brightness, 3);
    assert_eq!(s.temperature_kelvin, 2900);
    let odd = ElgatoLight { on: 2, brightness: 7, temperature: 0 }.to_light_state();
    assert!(!odd.on);
    assert_eq!(odd.temperature_kelvin, 7000);
}

#[test]
fn error_messages() {
    assert_eq!(KeyLightError::Network("timed out".to_string()).message(), "Network error: timed out");
    assert_eq!(KeyLightError::InvalidJson("eof".to_string()).message(), "Invalid JSON: eof");
    assert_eq!(KeyLightError::NoLights.message(), "No lights found in response");
    assert_eq!(KeyLightError::NoIp.message(), "No IP address configured");
}
