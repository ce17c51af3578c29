use rustpad::block_size::{BlockSize, InvalidBlockSize};
use rustpad::config::{
    replace_version, BlockSizeOption, Header, InvalidNumber, LogLevel, MissingColon,
    ProxyCredentials, RequestTimeout, ThreadCount, ThreadDelay, UserAgent, WebOptions,
};

#[test]
fn block_size_is_eight_or_sixteen() {
    assert_eq!(BlockSize::parse("8"), Ok(BlockSize::Eight));
    assert_eq!(BlockSize::parse("16"), Ok(BlockSize::Sixteen));
    assert_eq!(BlockSize::parse("32"), Err(InvalidBlockSize));
    assert_eq!(BlockSize::parse("1"), Err(InvalidBlockSize));
    assert_eq!(BlockSize::parse("61"), Err(InvalidBlockSize));
    assert_eq!(BlockSize::parse(""), Err(InvalidBlockSize));
    assert_eq!(BlockSize::parse(" 8"), Err(InvalidBlockSize));
    assert_eq!(BlockSize::parse("auto"), Err(InvalidBlockSize));
    assert_eq!(BlockSize::Eight.len(), 8);
    assert_eq!(BlockSize::Sixteen.len(), 16);
    assert_eq!(BlockSize::Sixteen.as_usize(), 16);
    assert_eq!(BlockSize::variants(), vec![BlockSize::Eight, BlockSize::Sixteen]);
    assert_eq!(BlockSize::from_len(8), Some(BlockSize::Eight));
    assert_eq!(BlockSize::from_len(16), Some(BlockSize::Sixteen));
    assert_eq!(BlockSize::from_len(0), None);
    assert_eq!(BlockSize::from_len(12), None);
    assert!(BlockSize::Eight.is_narrower_than(&BlockSize::Sixteen));
    assert!(!BlockSize::Sixteen.is_narrower_than(&BlockSize::Eight));
    assert!(!BlockSize::Eight.is_narrower_than(&BlockSize::Eight));
}

#[test]
fn block_size_option_may_be_auto() {
    assert_eq!(BlockSizeOption::parse("auto"), Some(BlockSizeOption::Auto));
    assert_eq!(BlockSizeOption::parse("8"), Some(BlockSizeOption::Eight));
    assert_eq!(BlockSizeOption::parse("16"), Some(BlockSizeOption::Sixteen));
    assert_eq!(BlockSizeOption::parse("Auto"), None);
    assert_eq!(BlockSizeOption::parse("24"), None);
}

#[test]
fn verbosity_sets_the_log_level() {
    assert_eq!(LogLevel::from_verbosity(0), LogLevel::Info);
    assert_eq!(LogLevel::from_verbosity(1), LogLevel::Debug);
    assert_eq!(LogLevel::from_verbosity(2), LogLevel::Trace);
    assert_eq!(LogLevel::from_verbosity(255), LogLevel::Trace);
}

#[test]
fn thread_count_is_a_number_above_zero() {
    assert_eq!(ThreadCount::parse("1").unwrap().get(), 1);
    assert_eq!(ThreadCount::parse("64").unwrap().get(), 64);
    assert_eq!(ThreadCount::parse("+7").unwrap().get(), 7);
    assert_eq!(ThreadCount::parse("007").unwrap().get(), 7);
    assert_eq!(ThreadCount::parse("0"), Err(InvalidNumber));
    assert_eq!(ThreadCount::parse("-1"), Err(InvalidNumber));
    assert_eq!(ThreadCount::parse(""), Err(InvalidNumber));
    assert_eq!(ThreadCount::parse("four"), Err(InvalidNumber));
    assert_eq!(ThreadCount::parse("4 "), Err(InvalidNumber));
    assert_eq!(ThreadCount::parse("18446744073709551616"), Err(InvalidNumber));
    assert_eq!(ThreadCount::default().get(), 64);
    assert_eq!(ThreadCount::from_number(8).unwrap().get(), 8);
    assert_eq!(ThreadCount::from_number(0), Err(InvalidNumber));
}

#[test]
fn delay_and_timeout_are_numbers() {
    assert_eq!(ThreadDelay::parse("0").unwrap().as_millis(), 0);
    assert_eq!(ThreadDelay::parse("250").unwrap().as_millis(), 250);
    assert_eq!(
        ThreadDelay::parse("18446744073709551615").unwrap().as_millis(),
        18446744073709551615
    );
    assert_eq!(ThreadDelay::parse("18446744073709551616"), Err(InvalidNumber));
    assert_eq!(ThreadDelay::parse("1.5"), Err(InvalidNumber));
    assert_eq!(ThreadDelay::parse("-3"), Err(InvalidNumber));
    assert_eq!(ThreadDelay::default().as_millis(), 0);
    assert_eq!(RequestTimeout::parse("30").unwrap().as_secs(), 30);
    assert_eq!(RequestTimeout::parse("ten"), Err(InvalidNumber));
    assert_eq!(RequestTimeout::default().as_secs(), 10);
    assert_eq!(RequestTimeout::from_secs(3).as_secs(), 3);
    assert_eq!(ThreadDelay::from_millis(7).as_millis(), 7);
}

#[test]
fn version_is_put_into_the_user_agent() {
    assert_eq!(replace_version("rustpad/<version>", "1.8.1"), "rustpad/1.8.1");
    assert_eq!(replace_version("<version> and <version>", "2"), "2 and 2");
    assert_eq!(replace_version("curl/7.68.0", "1.8.1"), "curl/7.68.0");
    assert_eq!(UserAgent::for_version("1.8.1").as_str(), "rustpad/1.8.1");
    assert_eq!(UserAgent::parse("bot (<version>)", "0.1").as_str(), "bot (0.1)");
}

#[test]
fn header_is_cut_at_its_first_colon() {
    let header = Header::parse("Cookie: a=b; c=d").unwrap();
    assert_eq!(header.name(), "Cookie");
    assert_eq!(header.value(), "a=b; c=d");
    let header = Header::parse("  X-Time :  12:30:00  ").unwrap();
    assert_eq!(header.name(), "X-Time");
    assert_eq!(header.value(), "12:30:00");
    let header = Header::parse(":").unwrap();
    assert_eq!(header.name(), "");
    assert_eq!(header.value(), "");
    assert_eq!(Header::parse("no colon").err(), Some(MissingColon));
    assert_eq!(Header::parse("").err(), Some(MissingColon));
    let copy = header.duplicate();
    assert_eq!(copy.name(), header.name());
    let made = Header::new("A".to_string(), " b ".to_string());
    assert_eq!(made.value(), " b ");
}

#[test]
fn proxy_credentials_are_cut_at_the_first_colon() {
    let credentials = ProxyCredentials::parse("user:pa:ss").unwrap();
    assert_eq!(credentials.username(), "user");
    assert_eq!(credentials.password(), "pa:ss");
    let credentials = ProxyCredentials::parse(" user : pass ").unwrap();
    assert_eq!(credentials.username(), " user ");
    assert_eq!(credentials.password(), " pass ");
    assert_eq!(ProxyCredentials::parse("user").err(), Some(MissingColon));
}

#[test]
fn web_options_hold_what_they_were_given() {
    let options = WebOptions::new(
        Some("a=CTEXT".to_string()),
        vec![("Accept".to_string(), "*/*".to_string())],
        true,
        false,
        "CTEXT".to_string(),
    );
    assert_eq!(options.post_data().as_deref(), Some("a=CTEXT"));
    assert_eq!(options.headers(), &vec![("Accept".to_string(), "*/*".to_string())]);
    assert!(options.redirect());
    assert!(!options.insecure());
    assert_eq!(options.keyword(), "CTEXT");
}
