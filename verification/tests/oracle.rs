use rustpad::calibration_response::CalibrationResponse;
use rustpad::config::{RequestTimeout, ScriptConfig, ThreadDelay, UserAgent, WebOptions};
use rustpad::oracle::{
    keyword_location, HeaderWithKeyword, KeywordLocation, Method, NotCalibrated, ScriptOracle,
    SubConfig, VisitError, WebConfig, WebOracle,
};
use rustpad::oracle_location::OracleLocation;

fn web_config(post_data: Option<&str>, headers: &[(&str, &str)], keyword: &str) -> WebConfig {
    let options = WebOptions::new(
        post_data.map(|data| data.to_string()),
        headers.iter().map(|(name, value)| (name.to_string(), value.to_string())).collect(),
        false,
        true,
        keyword.to_string(),
    );
    WebConfig::new(
        &options,
        UserAgent::for_version("1.2.3"),
        None,
        None,
        RequestTimeout::default(),
        true,
        ThreadDelay::parse("25").unwrap(),
    )
}

fn web(url: &str) -> OracleLocation {
    OracleLocation::Web(url.to_string())
}

#[test]
fn keyword_is_found_where_it_occurs() {
    let config = web_config(
        Some("data=CTEXT"),
        &[("Accept", "*/*"), ("X-CTEXT", "1"), ("Cookie", "auth=CTEXT"), ("CTEXT", "CTEXT")],
        "CTEXT",
    );
    let locations = keyword_location("http://oracle/?c=CTEXT", &config);
    assert_eq!(locations.len(), 3);
    assert!(matches!(locations[0], KeywordLocation::Url));
    assert!(matches!(locations[1], KeywordLocation::PostData));
    match &locations[2] {
        KeywordLocation::Headers(headers) => assert_eq!(
            headers,
            &vec![
                HeaderWithKeyword { idx: 1, keyword_in_name: true, keyword_in_value: false },
                HeaderWithKeyword { idx: 2, keyword_in_name: false, keyword_in_value: true },
                HeaderWithKeyword { idx: 3, keyword_in_name: true, keyword_in_value: true },
            ]
        ),
        _ => panic!("the headers hold the keyword"),
    }

    let config = web_config(None, &[("Accept", "*/*")], "CTEXT");
    let locations = keyword_location("http://oracle/?c=CTEXT", &config);
    assert_eq!(locations.len(), 1);
    assert!(matches!(locations[0], KeywordLocation::Url));

    let config = web_config(Some("c=CTEXT"), &[], "CTEXT");
    let locations = keyword_location("http://oracle/ctext", &config);
    assert_eq!(locations.len(), 1);
    assert!(matches!(locations[0], KeywordLocation::PostData));

    assert_eq!(keyword_location("http://oracle/", &web_config(None, &[], "CTEXT")).len(), 0);
}

#[test]
fn web_oracle_needs_a_place_for_the_cypher_text() {
    let config = SubConfig::Web(web_config(Some("a=b"), &[("Accept", "*/*")], "CTEXT"));
    assert_eq!(
        WebOracle::visit(&web("http://oracle/"), &config).err(),
        Some(VisitError::KeywordNotFound)
    );
    assert!(WebOracle::visit(&web("http://oracle/CTEXT"), &config).is_ok());
    let config = SubConfig::Web(web_config(None, &[("Cookie", "c=PAYLOAD")], "PAYLOAD"));
    assert!(WebOracle::visit(&web("http://oracle/"), &config).is_ok());
}

#[test]
fn oracles_refuse_what_is_meant_for_the_other_kind() {
    let web_settings = SubConfig::Web(web_config(None, &[], "CTEXT"));
    let script_settings = SubConfig::Script(ScriptConfig::new(ThreadDelay::default()));
    let script = OracleLocation::Script("./oracle.sh".to_string());
    assert_eq!(
        WebOracle::visit(&script, &web_settings).err(),
        Some(VisitError::WrongLocation)
    );
    assert_eq!(
        WebOracle::visit(&web("http://oracle/CTEXT"), &script_settings).err(),
        Some(VisitError::WrongConfig)
    );
    assert_eq!(
        ScriptOracle::visit(&web("http://oracle/CTEXT"), &script_settings).err(),
        Some(VisitError::WrongLocation)
    );
    assert_eq!(
        ScriptOracle::visit(&script, &web_settings).err(),
        Some(VisitError::WrongConfig)
    );
    assert!(ScriptOracle::visit(&script, &script_settings).is_ok());
}

#[test]
fn keyword_is_replaced_by_the_cypher_text() {
    let config = SubConfig::Web(web_config(
        Some("data=CTEXT&again=CTEXT"),
        &[("Accept", "*/*"), ("X-CTEXT", "1"), ("Cookie", "auth=CTEXT")],
        "CTEXT",
    ));
    let oracle = WebOracle::visit(&web("http://oracle/CTEXT?c=CTEXT"), &config).unwrap();
    let request = oracle.replace_keyword_occurrences("00ff");
    assert_eq!(request.method, Method::Post);
    assert_eq!(request.url, "http://oracle/00ff?c=00ff");
    assert_eq!(request.body.as_deref(), Some("data=00ff&again=00ff"));
    let headers: Vec<(&str, &str)> = request
        .headers
        .iter()
        .map(|header| (header.name().as_str(), header.value().as_str()))
        .collect();
    assert_eq!(headers, vec![("Accept", "*/*"), ("X-00ff", "1"), ("Cookie", "auth=00ff")]);
}

#[test]
fn request_without_body_is_a_get() {
    let config = SubConfig::Web(web_config(None, &[("Cookie", "auth=CTEXT")], "CTEXT"));
    let oracle = WebOracle::visit(&web("http://oracle/"), &config).unwrap();
    let request = oracle.replace_keyword_occurrences("AAEC%3D");
    assert_eq!(request.method, Method::Get);
    assert_eq!(request.url, "http://oracle/");
    assert_eq!(request.body, None);
    assert_eq!(request.headers.len(), 1);
    assert_eq!(request.headers[0].value(), "auth=AAEC%3D");
    assert!(oracle.location().same_as(&web("http://oracle/")));
    assert_eq!(oracle.thread_delay().as_millis(), 25);
    assert!(oracle.config().consider_body());
    assert!(oracle.config().insecure());
    assert!(!oracle.config().redirect());
    assert_eq!(oracle.config().request_timeout().as_secs(), 10);
    assert_eq!(oracle.config().user_agent().as_str(), "rustpad/1.2.3");
}

#[test]
fn web_oracle_judges_by_the_response_to_invalid_padding() {
    let config = SubConfig::Web(web_config(None, &[], "CTEXT"));
    let mut oracle = WebOracle::visit(&web("http://oracle/CTEXT"), &config).unwrap();
    let forbidden = CalibrationResponse::from_response(403, None, String::new(), None, false);
    let fine = CalibrationResponse::from_response(200, None, String::new(), None, false);
    assert_eq!(oracle.ask_validation(&fine), Err(NotCalibrated));
    oracle.set_padding_error_response(Some(forbidden.duplicate()));
    assert_eq!(oracle.ask_validation(&fine), Ok(true));
    assert_eq!(oracle.ask_validation(&forbidden), Ok(false));
    oracle.set_padding_error_response(None);
    assert_eq!(oracle.ask_validation(&forbidden), Err(NotCalibrated));
}

#[test]
fn script_is_run_on_the_cypher_text() {
    let script = OracleLocation::Script("./oracle.sh".to_string());
    let settings = SubConfig::Script(ScriptConfig::new(ThreadDelay::parse("5").unwrap()));
    let oracle = ScriptOracle::visit(&script, &settings).unwrap();
    assert_eq!(oracle.command("00ff"), "./oracle.sh 00ff");
    assert_eq!(oracle.command(""), "./oracle.sh ");
    assert!(oracle.ask_validation(true));
    assert!(!oracle.ask_validation(false));
    assert!(oracle.location().same_as(&script));
    assert_eq!(oracle.thread_delay().as_millis(), 5);
}
