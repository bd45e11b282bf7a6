//! The portal: its answers, its requests, and the login.

use serde_json::Value;

use solaredge_exporter::portal::client::{
    auth_cookie, battery_energy_answer, optimizer_energy_answer, optimizers_live_answer, referer,
    retry_live, services_json, site_structure_answer, PortalClient, PortalError, Secret,
};
use solaredge_exporter::portal::cognito::{
    answer_with, cognito_answer, finish, AuthenticationResult, ChallengeParameters, CognitoTokens,
    InitiateAuthResponse, Login, PasswordProof, RespondResponse, INITIATE_AUTH,
};
use solaredge_exporter::portal::models::{
    flatten_layout_v2, flexible_f64, parse_number, ConsumptionDistribution,
    DashboardEnergyResponse, EnergyGraphResponse, EnergySummary, JsonScalar, LayoutNodeV2,
    LiveData, NodeProperties, OptimizersInfoResponse, ProductionDistribution,
};
use solaredge_exporter::portal::Credentials;
use solaredge_exporter::reading::Reading;
use solaredge_exporter::serial_map::SerialMap;
use solaredge_exporter::time::{local_zone, Timestamp};

fn reading(v: f64) -> Reading {
    Reading { bits: v.to_bits() }
}

fn parse(s: &str) -> Option<Reading> {
    s.parse::<f64>().ok().map(reading)
}

fn json(body: &str) -> Value {
    serde_json::from_str(body).expect("JSON")
}

fn text(v: &Value, key: &str) -> String {
    v[key].as_str().unwrap_or_default().to_string()
}

fn scalar(v: &Value, key: &str) -> Option<Reading> {
    let value = match &v[key] {
        Value::Null => JsonScalar::Null,
        Value::Number(n) => JsonScalar::Number(n.as_f64().map(reading)),
        Value::String(s) => JsonScalar::Text(s.clone()),
        _ => JsonScalar::Other,
    };
    flexible_f64(&value, parse)
}

fn node(v: &Value) -> LayoutNodeV2 {
    let mut children = Vec::new();
    for child in v["children"].as_array().cloned().unwrap_or_default() {
        children.push(node(&child));
    }
    LayoutNodeV2 {
        uuid: text(v, "uuid"),
        serial: text(v, "serial"),
        name: text(v, "name"),
        node_type: text(v, "type"),
        properties: NodeProperties {
            identifier: text(&v["properties"], "identifier"),
            status: text(&v["properties"], "status"),
        },
        children,
        site_structure: match &v["siteStructure"] {
            Value::Null => None,
            inner => Some(Box::new(node(inner))),
        },
    }
}

fn live_data(v: &Value) -> LiveData {
    LiveData {
        power_w: scalar(v, "power_W"),
        current_a: scalar(v, "current_A"),
        voltage_v: scalar(v, "voltage_V"),
        optimizer_voltage_v: scalar(v, "optimizerVoltage_V"),
        last_measurement: text(v, "lastMeasurement"),
    }
}

fn optimizers_info(v: &Value) -> OptimizersInfoResponse {
    let mut serial_to_live_data = SerialMap::new();
    for (serial, data) in v["serialToLiveData"].as_object().cloned().unwrap_or_default() {
        serial_to_live_data.insert(serial, live_data(&data));
    }
    OptimizersInfoResponse {
        serial_to_live_data,
    }
}

fn energy_graph(v: &Value) -> EnergyGraphResponse {
    EnergyGraphResponse {
        total_energy: scalar(v, "totalEnergy"),
    }
}

fn dashboard(v: &Value) -> DashboardEnergyResponse {
    let summary = &v["summary"];
    DashboardEnergyResponse {
        summary: EnergySummary {
            production_distribution: ProductionDistribution {
                production_to_battery: scalar(
                    &summary["productionDistribution"],
                    "productionToBattery",
                ),
            },
            consumption_distribution: ConsumptionDistribution {
                consumption_from_battery: scalar(
                    &summary["consumptionDistribution"],
                    "consumptionFromBattery",
                ),
            },
        },
    }
}

fn decoded(body: &str) -> Result<Value, String> {
    serde_json::from_str(body).map_err(|e| e.to_string())
}

const V2_TREE: &str = r#"{
        "siteStructure": {
            "uuid": "site-uuid",
            "type": "SITE",
            "children": [{
                "type": "FOLDER",
                "name": "INVERTER",
                "children": [{
                    "type": "INVERTER",
                    "serial": "INV1",
                    "name": "Inverter 1",
                    "properties": {"identifier": "INV1-ident", "status": "ACTIVE"},
                    "children": [{
                        "type": "FOLDER",
                        "name": "STRING",
                        "children": [{
                            "type": "STRING",
                            "name": "String A",
                            "properties": {"identifier": "str-1", "status": "ACTIVE"},
                            "children": [{
                                "type": "FOLDER",
                                "name": "OPTIMIZER",
                                "children": [
                                    {"type": "OPTIMIZER", "serial": "OPT1", "name": "1.1.1",
                                     "uuid": "u1", "properties": {"status": "ACTIVE"}},
                                    {"type": "OPTIMIZER", "serial": "OPT2", "name": "1.1.2",
                                     "uuid": "u2", "properties": {"status": "REPLACED"}}
                                ]
                            }]
                        }]
                    }]
                }]
            }]
        }
    }"#;

#[test]
fn flatten_v2_folder_wrapped_tree() {
    let resp = node(&json(V2_TREE));
    let flat = flatten_layout_v2(&resp);
    assert_eq!(flat.len(), 2);
    assert_eq!(flat[0].serial_number, "OPT1");
    assert_eq!(flat[0].display_name, "1.1.1");
    assert_eq!(flat[0].inverter_serial, "INV1");
    assert_eq!(flat[0].inverter_display_name, "Inverter 1");
    assert!(flat[0].is_active());
    assert_eq!(flat[1].serial_number, "OPT2");
    assert!(!flat[1].is_active());
}

#[test]
fn flatten_v2_without_envelope_or_folders() {
    let body = r#"{
            "type": "SITE",
            "children": [{
                "type": "INVERTER",
                "serial": "INV9",
                "name": "Inv 9",
                "children": [{
                    "type": "STRING",
                    "name": "S1",
                    "children": [
                        {"type": "OPTIMIZER", "serial": "OPTX", "name": "9.1.1"}
                    ]
                }]
            }]
        }"#;
    let resp = node(&json(body));
    let flat = flatten_layout_v2(&resp);
    assert_eq!(flat.len(), 1);
    assert_eq!(flat[0].serial_number, "OPTX");
    assert_eq!(flat[0].inverter_serial, "INV9");
}

#[test]
fn flatten_v2_optimizers_without_string_level() {
    let body = r#"{
            "type": "SITE",
            "children": [{
                "type": "INVERTER", "serial": "INV1",
                "children": [{
                    "type": "FOLDER", "name": "OPTIMIZER",
                    "children": [{"type": "OPTIMIZER", "serial": "OPT1"}]
                }]
            }]
        }"#;
    let resp = node(&json(body));
    let flat = flatten_layout_v2(&resp);
    assert_eq!(flat.len(), 1);
    assert_eq!(flat[0].serial_number, "OPT1");
    assert_eq!(flat[0].display_name, "OPT1");
}

#[test]
fn flatten_v2_tolerates_nulls_and_serial_fallbacks() {
    let body = r#"{
            "type": "SITE",
            "children": [{
                "type": "INVERTER",
                "serial": null,
                "name": null,
                "uuid": "inv-uuid",
                "properties": null,
                "children": [{
                    "type": "STRING",
                    "children": [{
                        "type": "OPTIMIZER",
                        "serial": null,
                        "properties": {"identifier": "OPT-IDENT", "status": null}
                    }]
                }]
            }]
        }"#;
    let resp = node(&json(body));
    let flat = flatten_layout_v2(&resp);
    assert_eq!(flat.len(), 1);
    assert_eq!(flat[0].serial_number, "OPT-IDENT");
    assert_eq!(flat[0].inverter_serial, "inv-uuid");
    assert_eq!(flat[0].inverter_display_name, "inv-uuid");
    assert!(flat[0].is_active());
}

#[test]
fn an_envelope_changes_nothing_and_an_empty_site_lists_nothing() {
    let wrapped = node(&json(V2_TREE));
    let bare = node(&json(V2_TREE)["siteStructure"]);
    let names = |layout: &LayoutNodeV2| {
        flatten_layout_v2(layout)
            .into_iter()
            .map(|o| o.serial_number)
            .collect::<Vec<_>>()
    };
    assert_eq!(names(&wrapped), names(&bare));
    assert_eq!(wrapped.root().uuid, "site-uuid");
    assert!(names(&LayoutNodeV2::default()).is_empty());
}

fn in_folder(children: &str) -> String {
    format!(r#"[{{"type": "FOLDER", "name": "group", "children": {children}}}]"#)
}

#[test]
fn folders_change_nothing() {
    let opts = r#"[{"type": "OPTIMIZER", "serial": "A"}, {"type": "OPTIMIZER", "serial": "B"}]"#;
    let listed = |grouped: [bool; 3]| {
        let wrap = |children: String, group: bool| if group { in_folder(&children) } else { children };
        let opts = wrap(opts.to_string(), grouped[2]);
        let strings = wrap(format!(r#"[{{"type": "STRING", "children": {opts}}}]"#), grouped[1]);
        let inverters = wrap(
            format!(r#"[{{"type": "INVERTER", "serial": "I", "children": {strings}}}]"#),
            grouped[0],
        );
        let body = format!(r#"{{"type": "SITE", "children": {inverters}}}"#);
        flatten_layout_v2(&node(&json(&body)))
            .into_iter()
            .map(|o| (o.serial_number, o.inverter_serial))
            .collect::<Vec<_>>()
    };
    let plain = listed([false, false, false]);
    assert_eq!(plain.len(), 2);
    assert_eq!(plain[1], ("B".to_string(), "I".to_string()));
    for n in 0..8 {
        assert_eq!(listed([n & 1 > 0, n & 2 > 0, n & 4 > 0]), plain);
    }
}

#[test]
fn optimizers_below_a_string_hide_those_below_the_inverter() {
    let body = r#"{"type": "SITE", "children": [{"type": "inverter", "serial": "I", "children": [
        {"type": "OPTIMIZER", "serial": "direct"},
        {"type": "STRING", "children": [{"type": "optimizer", "serial": "strung"}]}
    ]}]}"#;
    let flat = flatten_layout_v2(&node(&json(body)));
    assert_eq!(flat.len(), 1);
    assert_eq!(flat[0].serial_number, "strung");
}

#[test]
fn optimizers_info_maps_live_data() {
    let body = r#"{
            "basicInformationList": [
                {"serial": "OPT1", "model": "P370", "description": "SunPower SPR-MAX3-400"},
                {"serial": "OPT2", "model": "P370", "description": null}
            ],
            "serialToLiveData": {
                "OPT1": {
                    "power_W": 252.19,
                    "current_A": 5.03,
                    "voltage_V": "50,12",
                    "optimizerVoltage_V": 58.5,
                    "lastMeasurement": "2026-07-28T10:15:00Z"
                }
            }
        }"#;
    let r = optimizers_info(&json(body));

    let live = r.serial_to_live_data.get("OPT1").expect("OPT1 live data");
    assert_eq!(live.power_w, Some(reading(252.19)));
    assert_eq!(live.current_a, Some(reading(5.03)));
    assert_eq!(live.voltage_v, Some(reading(50.12)));
    assert_eq!(live.optimizer_voltage_v, Some(reading(58.5)));
    assert_eq!(live.last_measurement, "2026-07-28T10:15:00Z");
    assert!(live.has_measurements());

    assert!(r.serial_to_live_data.get("OPT2").is_none());
}

#[test]
fn optimizers_info_tolerates_empty_and_null_blocks() {
    let r = optimizers_info(&json(
        r#"{"basicInformationList": null, "serialToLiveData": null}"#,
    ));
    assert!(r.serial_to_live_data.is_empty());

    let empty = optimizers_info(&json("{}"));
    assert!(empty.serial_to_live_data.is_empty());

    let quiet = live_data(&json(r#"{"lastMeasurement": ""}"#));
    assert!(!quiet.has_measurements());
}

#[test]
fn energy_graph_accepts_number_or_string() {
    let number = energy_graph(&json(r#"{"totalEnergy": 74138.0}"#));
    assert_eq!(number.total_energy, Some(reading(74138.0)));
    let string = energy_graph(&json(r#"{"totalEnergy": "74138.0"}"#));
    assert_eq!(string.total_energy, Some(reading(74138.0)));
    let null = energy_graph(&json(r#"{"totalEnergy": null}"#));
    assert_eq!(null.total_energy, None);
    let missing = energy_graph(&json("{}"));
    assert_eq!(missing.total_energy, None);
}

#[test]
fn numeric_texts_may_use_a_comma() {
    assert_eq!(parse_number(" 1234.5 ", parse), Some(reading(1234.5)));
    assert_eq!(parse_number("1234,5", parse), Some(reading(1234.5)));
    assert_eq!(parse_number("1,234,5", parse), None);
    assert_eq!(parse_number("watts", parse), None);
    assert_eq!(flexible_f64(&JsonScalar::Other, parse), None);
}

#[test]
fn dashboard_energy_extracts_battery_charge_discharge() {
    let body = r#"{
            "summary": {
                "production": 691862.9,
                "productionDistribution": {
                    "productionToHome": 423785.06,
                    "productionToBattery": 261387.97,
                    "productionToGrid": 6689.8296
                },
                "consumption": 727944.3,
                "consumptionDistribution": {
                    "consumptionFromBattery": 247399.02,
                    "consumptionFromSolar": 423785.06,
                    "consumptionFromGrid": 56760.246
                },
                "averagePowerFactor": null
            },
            "chart": {"measurements": []}
        }"#;
    let r = dashboard(&json(body));
    assert_eq!(r.charged_watt_hours(), Some(reading(261387.97)));
    assert_eq!(r.discharged_watt_hours(), Some(reading(247399.02)));
}

#[test]
fn dashboard_energy_tolerates_missing_storage_fields() {
    let r = dashboard(&json(r#"{"summary": {"productionDistribution": null}}"#));
    assert_eq!(r.charged_watt_hours(), None);
    assert_eq!(r.discharged_watt_hours(), None);
}

#[test]
fn secret_debug_redacts() {
    let s = Secret::new("hunter2".to_string());
    assert_eq!(format!("{s:?}"), "<redacted>");
}

#[test]
fn credentials_do_not_show_the_password() {
    let creds = credentials();
    let shown = format!("{creds:?}");
    assert!(shown.contains("me@example.com"));
    assert!(!shown.contains("hunter2"));
}

fn credentials() -> Credentials {
    Credentials {
        username: "me@example.com".to_string(),
        password: Secret::new("hunter2".to_string()),
    }
}

fn at(second: i64) -> Timestamp {
    Timestamp::from_nanosecond(second as i128 * 1_000_000_000).expect("in range")
}

fn tokens(expires_in: i64) -> Result<CognitoTokens, PortalError> {
    Ok(CognitoTokens {
        access_token: "token".to_string(),
        expires_in,
    })
}

#[test]
fn a_token_is_used_until_a_minute_before_it_runs_out() {
    let mut client = PortalClient::new(42, credentials());
    assert_eq!(client.credentials().username, "me@example.com");
    assert!(client.cached_auth(&at(1_000)).is_none());
    let auth = client.finish_login(tokens(3_600), &at(1_000)).expect("login");
    assert_eq!(auth.access_token, "token");
    assert!(auth.fresh_login);
    let cached = client.cached_auth(&at(4_539)).expect("cached");
    assert_eq!(cached.access_token, "token");
    assert!(!cached.fresh_login);
    assert!(client.cached_auth(&at(4_540)).is_none());
}

#[test]
fn a_short_lived_token_is_used_for_a_minute() {
    let mut client = PortalClient::new(42, credentials());
    client.finish_login(tokens(-5), &at(0)).expect("login");
    assert!(client.cached_auth(&at(59)).is_some());
    assert!(client.cached_auth(&at(60)).is_none());
    client.finish_login(tokens(i64::MAX), &at(0)).expect("login");
    assert!(client.cached_auth(&at(0)).is_none());
}

#[test]
fn a_failed_login_keeps_what_was_there() {
    let mut client = PortalClient::new(42, credentials());
    client.finish_login(tokens(3_600), &at(0)).expect("login");
    let failed = client.finish_login(Err(PortalError::CognitoAuth("no".to_string())), &at(10));
    assert!(matches!(failed, Err(PortalError::CognitoAuth(m)) if m == "no"));
    assert!(client.cached_auth(&at(20)).is_some());
}

#[test]
fn addresses_name_the_site_and_the_window() {
    let client = PortalClient::new(42, credentials());
    assert_eq!(
        client.site_structure_url(),
        "https://monitoring.solaredge.com/services/layout/logical/generic/v2/site/42?include-optimizers=true"
    );
    assert_eq!(
        client.optimizers_live_url(),
        "https://monitoring.solaredge.com/services/layout/information/optimizers"
    );
    let now = at(1_785_233_700);
    let zone = local_zone();
    let today = jiff::Timestamp::from_second(1_785_233_700)
        .expect("ts")
        .to_zoned(zone.clone())
        .date();
    assert_eq!(
        client.optimizer_energy_url("OPT1", &now, &zone),
        format!(
            "https://monitoring.solaredge.com/services/layout/energy-graph/site/42/optimizers?chart-time-unit=years&start-date=2010-01-01&end-date={today}&optimizer-serials=OPT1"
        )
    );
    let ahead = jiff::tz::TimeZone::fixed(jiff::tz::offset(14));
    assert!(client
        .optimizer_energy_url("OPT1", &now, &ahead)
        .contains("&end-date=2026-07-29&"));
    assert_eq!(
        client.battery_energy_url(&now, &zone),
        format!(
            "https://monitoring.solaredge.com/services/dashboard/energy/sites/42?chart-time-unit=years&start-date=2015-01-01&end-date={today}&measurement-types=production-distribution-with-storage%2Cconsumption-distribution-with-storage&isCniViewer=true"
        )
    );
    assert_eq!(auth_cookie("abc"), "se_monitoring_auth=abc");
    assert_eq!(referer(), "https://monitoring.solaredge.com/");
}

#[test]
fn answers_fail_by_status_and_by_body() {
    match services_json(410, "gone", "layout/v2", decoded) {
        Err(PortalError::Status {
            endpoint,
            status,
            body,
        }) => {
            assert_eq!(endpoint, "layout/v2");
            assert_eq!(status, 410);
            assert_eq!(body, "gone");
        }
        other => panic!("{other:?}"),
    }
    match services_json(200, "{", "layout/v2", decoded) {
        Err(PortalError::Json { endpoint, .. }) => assert_eq!(endpoint, "layout/v2"),
        other => panic!("{other:?}"),
    }
    assert!(services_json(299, "{}", "layout/v2", decoded).is_ok());
    assert!(services_json(300, "{}", "layout/v2", decoded).is_err());
    assert!(services_json(199, "{}", "layout/v2", decoded).is_err());
    let layout = site_structure_answer(200, V2_TREE, |b: &str| decoded(b).map(|v| node(&v)));
    assert_eq!(flatten_layout_v2(&layout.expect("layout")).len(), 2);
    let live = optimizers_live_answer(500, "", |b: &str| decoded(b).map(|v| optimizers_info(&v)));
    assert!(matches!(
        live,
        Err(PortalError::Status {
            endpoint: "layout/optimizers",
            ..
        })
    ));
    let energy = optimizer_energy_answer(200, r#"{"totalEnergy": 5}"#, |b: &str| {
        decoded(b).map(|v| energy_graph(&v))
    });
    assert_eq!(energy.expect("energy"), Some(reading(5.0)));
    let failed = optimizer_energy_answer(404, "", |b: &str| decoded(b).map(|v| energy_graph(&v)));
    assert!(matches!(
        failed,
        Err(PortalError::Status {
            endpoint: "layout/energy-graph",
            ..
        })
    ));
}

#[test]
fn battery_energy_without_a_value_is_an_error() {
    let decode = |b: &str| decoded(b).map(|v| dashboard(&v));
    let body = r#"{"summary": {}}"#;
    match battery_energy_answer(200, body, decode) {
        Err(PortalError::EmptyResponse { endpoint, body: b }) => {
            assert_eq!(endpoint, "dashboard/energy");
            assert_eq!(b, body);
        }
        other => panic!("{other:?}"),
    }
    let one = r#"{"summary": {"consumptionDistribution": {"consumptionFromBattery": 1}}}"#;
    let energy = battery_energy_answer(200, one, decode).expect("energy");
    assert_eq!(energy.discharged_watt_hours(), Some(reading(1.0)));
    assert!(matches!(
        battery_energy_answer(503, body, decode),
        Err(PortalError::Status { status: 503, .. })
    ));
}

#[test]
fn live_telemetry_is_asked_for_again_once_after_a_timeout() {
    assert!(retry_live(1, true));
    assert!(!retry_live(1, false));
    assert!(!retry_live(2, true));
}

fn challenge(name: &str, salt: &str, secret_block: &str, srp_b: &str) -> InitiateAuthResponse {
    InitiateAuthResponse {
        challenge_name: name.to_string(),
        challenge_parameters: ChallengeParameters {
            salt: salt.to_string(),
            secret_block: secret_block.to_string(),
            srp_b: srp_b.to_string(),
            user_id_for_srp: "pool-user".to_string(),
        },
    }
}

fn auth_message<T: std::fmt::Debug>(r: Result<T, PortalError>) -> String {
    match r {
        Err(PortalError::CognitoAuth(message)) => message,
        other => panic!("{other:?}"),
    }
}

#[test]
fn a_login_answers_the_password_challenge() {
    let (login, request) = Login::begin("me@example.com", "hunter2");
    assert_eq!(request.username, "me@example.com");
    assert!(!request.srp_a.is_empty());
    assert!(request.srp_a.chars().all(|c| c.is_ascii_hexdigit()));
    let init = challenge("PASSWORD_VERIFIER", "36ef01c6", "c2VjcmV0", "36ef01c6dde9");
    let answer = login.answer(&init).expect("answer");
    assert_eq!(answer.username, "pool-user");
    assert_eq!(answer.password_claim_secret_block, "c2VjcmV0");
    assert!(!answer.password_claim_signature.is_empty());
    assert!(answer.timestamp.contains("UTC"));
}

#[test]
fn a_login_fails_on_what_it_cannot_answer() {
    let (login, _) = Login::begin("me@example.com", "hunter2");
    let other = challenge("SMS_MFA", "00", "AA==", "00");
    assert_eq!(
        auth_message(login.answer(&other)),
        "expected PASSWORD_VERIFIER challenge, got \"SMS_MFA\""
    );
    let no_hex = challenge("PASSWORD_VERIFIER", "00", "AA==", "zz");
    let message = auth_message(login.answer(&no_hex));
    assert!(
        message.starts_with("SRP verify failed: Invalid argument: Invalid SRP_B."),
        "{message}"
    );
    let no_block = challenge("PASSWORD_VERIFIER", "00", "?", "00");
    let message = auth_message(login.answer(&no_block));
    assert!(
        message.starts_with("SRP verify failed: Invalid argument: Invalid base64 secret block."),
        "{message}"
    );
}

#[test]
fn a_password_proof_becomes_the_answer() {
    let cp = challenge("", "", "", "").challenge_parameters;
    let claim = PasswordProof {
        secret_block: "block".to_string(),
        signature: "signature".to_string(),
        timestamp: "now".to_string(),
    };
    let answer = answer_with(&cp, Ok(claim)).expect("answer");
    assert_eq!(answer.username, "pool-user");
    assert_eq!(answer.password_claim_secret_block, "block");
    assert_eq!(answer.password_claim_signature, "signature");
    assert_eq!(answer.timestamp, "now");
    assert_eq!(
        auth_message(answer_with(&cp, Err("bad".to_string()))),
        "SRP verify failed: bad"
    );
}

#[test]
fn a_login_ends_with_a_token_or_says_why_not() {
    let result = |token: &str| RespondResponse {
        authentication_result: Some(AuthenticationResult {
            access_token: token.to_string(),
            expires_in: 86_400,
        }),
        challenge_name: String::new(),
    };
    let tokens = finish(result("abc")).expect("token");
    assert_eq!(tokens.access_token, "abc");
    assert_eq!(tokens.expires_in, 86_400);
    assert_eq!(auth_message(finish(result(""))), "empty AccessToken");
    let more = RespondResponse {
        authentication_result: None,
        challenge_name: "SOFTWARE_TOKEN_MFA".to_string(),
    };
    assert_eq!(
        auth_message(finish(more)),
        "no AuthenticationResult (further challenge: \"SOFTWARE_TOKEN_MFA\")"
    );
}

#[test]
fn an_answer_of_cognito_fails_by_status_and_by_body() {
    assert_eq!(
        auth_message(cognito_answer(400, "NotAuthorizedException", INITIATE_AUTH, decoded)),
        "HTTP 400 Bad Request from AWSCognitoIdentityProviderService.InitiateAuth: NotAuthorizedException"
    );
    assert!(matches!(
        cognito_answer(200, "{", INITIATE_AUTH, decoded),
        Err(PortalError::Json {
            endpoint: "cognito-idp",
            ..
        })
    ));
    assert!(cognito_answer(200, "{}", INITIATE_AUTH, decoded).is_ok());
}
