use https::util::display::{
    human_readable_size, CommaList, DisplayThree, HtmlResponseElement, HumanReadableSize, Maybe,
    MsAsS, NoDoubleQuotes, NoHtmlLiteral,
};

#[test]
fn comma_list_joins_with_comma_and_space() {
    assert_eq!(CommaList(vec![]).to_string(), "");
    assert_eq!(CommaList(vec!["GET".to_string()]).to_string(), "GET");
    assert_eq!(
        CommaList(vec!["GET".to_string(), "HEAD".to_string(), "PUT".to_string()]).to_string(),
        "GET, HEAD, PUT"
    );
}

#[test]
fn display_three_concatenates() {
    assert_eq!(
        DisplayThree("<b>".to_string(), "x".to_string(), "</b>".to_string()).to_string(),
        "<b>x</b>"
    );
}

#[test]
fn maybe_is_empty_when_missing() {
    assert_eq!(Maybe(None).to_string(), "");
    assert_eq!(Maybe(Some("1.500".to_string())).to_string(), "1.500");
}

#[test]
fn ms_as_s_pads_the_milliseconds() {
    assert_eq!(MsAsS(0).to_string(), "0.000");
    assert_eq!(MsAsS(7).to_string(), "0.007");
    assert_eq!(MsAsS(1_050).to_string(), "1.050");
    assert_eq!(MsAsS(1_700_000_000_123).to_string(), "1700000000.123");
    assert_eq!(MsAsS(u64::MAX).to_string(), "18446744073709551.615");
}

#[test]
fn human_readable_size_of_bytes() {
    assert_eq!(HumanReadableSize(0).to_string(), "0 B");
    assert_eq!(HumanReadableSize(1).to_string(), "1 B");
    assert_eq!(HumanReadableSize(1023).to_string(), "1023 B");
}

#[test]
fn human_readable_size_of_larger_units() {
    assert_eq!(HumanReadableSize(1024).to_string(), "1 KiB");
    assert_eq!(HumanReadableSize(1536).to_string(), "1.5 KiB");
    assert_eq!(HumanReadableSize(2 * 1024 * 1024).to_string(), "2 MiB");
    assert_eq!(HumanReadableSize(1024 * 1024 - 1).to_string(), "1024 KiB");
    assert_eq!(HumanReadableSize(5 * 1024 * 1024 * 1024).to_string(), "5 GiB");
    assert_eq!(HumanReadableSize(1_234_567).to_string(), "1.2 MiB");
    assert_eq!(HumanReadableSize(1u64 << 40).to_string(), "1 TiB");
    assert_eq!(HumanReadableSize(1u64 << 50).to_string(), "1 PiB");
    assert_eq!(HumanReadableSize(u64::MAX).to_string(), "16 EiB");
    assert_eq!(human_readable_size(1126).to_string(), "1.1 KiB");
}

#[test]
fn human_readable_size_rounds_halves_up() {
    // 1075.2 bytes would be 1.05 KiB: 1075 rounds down, 1076 up.
    assert_eq!(HumanReadableSize(1075).to_string(), "1 KiB");
    assert_eq!(HumanReadableSize(1076).to_string(), "1.1 KiB");
}

#[test]
fn no_double_quotes_replaces_each_quote() {
    assert_eq!(NoDoubleQuotes("a\"b\"\"c".to_string()).to_string(), "a_b__c");
    assert_eq!(NoDoubleQuotes("\"".to_string()).to_string(), "_");
    assert_eq!(NoDoubleQuotes("plain".to_string()).to_string(), "plain");
}

#[test]
fn no_html_literal_escapes_ampersand_and_less_than() {
    assert_eq!(NoHtmlLiteral("a<b&c>d".to_string()).to_string(), "a&lt;b&amp;c>d");
    assert_eq!(NoHtmlLiteral("&&".to_string()).to_string(), "&amp;&amp;");
    assert_eq!(NoHtmlLiteral("".to_string()).to_string(), "");
    assert_eq!(NoHtmlLiteral("żółw<".to_string()).to_string(), "żółw&lt;");
}

#[test]
fn html_response_elements_append() {
    let mut data: Vec<char> = "<p>".chars().collect();
    "one".commit(&mut data);
    "two".to_string().commit(&mut data);
    vec!['!'].commit(&mut data);
    assert_eq!(data.iter().collect::<String>(), "<p>onetwo!");
}
