use feed2atom::instant::{should_write, Instant};
use feed2atom::model::RenderError;
use feed2atom::parse::parse;
use feed2atom::render::{render, render_at};

fn count_occurrences(haystack: &str, needle: &str) -> usize {
    haystack.matches(needle).count()
}

#[test]
fn end_to_end_minimal_feed() {
    let input = "{\"version\":\"https://jsonfeed.org/version/1.1\",\"title\":\"T\",\
                 \"items\":[{\"id\":\"1\",\"date_published\":\"2021-01-01T00:00:00Z\"}]}";
    let feed = parse(input).unwrap();
    assert_eq!(feed.updated_string(), "2021-01-01T00:00:00Z");
    let (xml, instant) = render_at(&feed, "2024-05-05T05:05:05Z").unwrap();
    assert!(xml.contains("<updated>2021-01-01T00:00:00Z</updated>"));
    assert!(xml.contains("<id>1</id>"));
    assert!(xml.contains("<published>2021-01-01T00:00:00Z</published>"));
    assert!(xml.contains("<author><name></name></author>\n"));
    // 2021-01-01T00:00:00Z as Unix seconds
    assert_eq!(instant.secs, 1609459200);
    assert_eq!(instant.nanos, 0);
}

#[test]
fn feed_without_authors_renders_one_placeholder_author() {
    let feed = parse("{\"title\":\"T\",\"items\":[{\"id\":\"1\"}]}").unwrap();
    let (xml, _) = render_at(&feed, "2024-01-01T00:00:00Z").unwrap();
    assert_eq!(count_occurrences(&xml, "<author"), 1);
    assert_eq!(count_occurrences(&xml, "<author><name></name></author>\n"), 1);
}

#[test]
fn empty_authors_array_renders_placeholder_author() {
    let feed = parse("{\"title\":\"T\",\"authors\":[]}").unwrap();
    let (xml, _) = render_at(&feed, "2024-01-01T00:00:00Z").unwrap();
    assert_eq!(count_occurrences(&xml, "<author><name></name></author>\n"), 1);
}

#[test]
fn legacy_feed_author_renders_named_author() {
    let feed = parse("{\"title\":\"T\",\"author\":{\"name\":\"A\"}}").unwrap();
    let (xml, _) = render_at(&feed, "2024-01-01T00:00:00Z").unwrap();
    assert_eq!(count_occurrences(&xml, "<author"), 1);
    assert!(xml.contains("<author>\n<name>A</name>\n</author>\n"));
    assert!(!xml.contains("<author><name></name></author>"));
}

#[test]
fn author_uri_is_optional() {
    let feed = parse(
        "{\"title\":\"T\",\"authors\":[{\"name\":\"A\",\"url\":\"https://a\"},{\"name\":\"B\"}]}",
    )
    .unwrap();
    let (xml, _) = render_at(&feed, "2024-01-01T00:00:00Z").unwrap();
    assert!(xml.contains("<author>\n<name>A</name>\n<uri>https://a</uri>\n</author>\n"));
    assert!(xml.contains("<author>\n<name>B</name>\n</author>\n"));
}

#[test]
fn feed_header_and_fields_render() {
    let input = "{\"title\":\"T\",\"language\":\"en\",\"home_page_url\":\"https://h\",\
                 \"feed_url\":\"https://f\",\"description\":\"D\",\"icon\":\"https://i\"}";
    let feed = parse(input).unwrap();
    let (xml, _) = render_at(&feed, "2024-01-01T00:00:00Z").unwrap();
    assert!(xml.starts_with("<?xml version=\"1.0\" encoding=\"utf-8\"?>\n"));
    assert!(xml.contains("<feed xmlns=\"http://www.w3.org/2005/Atom\" xml:lang=\"en\">\n"));
    assert!(xml.contains("<title>T</title>\n"));
    assert!(xml.contains("<id>https://f</id>\n"));
    assert!(xml.contains("<link rel=\"alternate\" href=\"https://h\"/>\n"));
    assert!(xml.contains("<link rel=\"self\" href=\"https://f\"/>\n"));
    assert!(xml.contains("<subtitle>D</subtitle>\n"));
    assert!(xml.contains("<logo>https://i</logo>\n"));
    assert!(xml.ends_with("</feed>"));
}

#[test]
fn feed_id_falls_back_to_title() {
    let feed = parse("{\"title\":\"My Title\"}").unwrap();
    let (xml, _) = render_at(&feed, "2024-01-01T00:00:00Z").unwrap();
    assert!(xml.contains("<id>My Title</id>\n"));
    assert!(!xml.contains("rel=\"self\""));
}

#[test]
fn text_content_wins_over_html() {
    let input = "{\"title\":\"T\",\"items\":[{\"id\":\"1\",\"content_text\":\"TXT\",\"content_html\":\"<p>H</p>\"}]}";
    let feed = parse(input).unwrap();
    let (xml, _) = render_at(&feed, "2024-01-01T00:00:00Z").unwrap();
    assert!(xml.contains("<content type=\"text\">TXT</content>\n"));
    assert!(!xml.contains("type=\"html\""));
}

#[test]
fn html_content_renders_when_alone() {
    let input = "{\"title\":\"T\",\"items\":[{\"id\":\"1\",\"content_html\":\"<p>H</p>\"}]}";
    let feed = parse(input).unwrap();
    let (xml, _) = render_at(&feed, "2024-01-01T00:00:00Z").unwrap();
    assert!(xml.contains("<content type=\"html\"><![CDATA[ <p>H</p> ]]></content>\n"));
}

#[test]
fn published_and_updated_derived_independently() {
    let only_published = "{\"title\":\"T\",\"items\":[{\"id\":\"1\",\"date_published\":\"2021-03-04T05:06:07Z\"}]}";
    let feed = parse(only_published).unwrap();
    let (xml, _) = render_at(&feed, "2024-01-01T00:00:00Z").unwrap();
    assert!(xml.contains("<updated>2021-03-04T05:06:07Z</updated>\n"));
    assert!(xml.contains("<published>2021-03-04T05:06:07Z</published>\n"));

    let both = "{\"title\":\"T\",\"items\":[{\"id\":\"1\",\"date_published\":\"2021-03-04T05:06:07Z\",\"date_modified\":\"2022-01-01T00:00:00Z\"}]}";
    let feed2 = parse(both).unwrap();
    let (xml2, _) = render_at(&feed2, "2024-01-01T00:00:00Z").unwrap();
    assert!(xml2.contains("<updated>2022-01-01T00:00:00Z</updated>\n"));
    assert!(xml2.contains("<published>2021-03-04T05:06:07Z</published>\n"));
}

#[test]
fn item_without_dates_uses_render_clock() {
    let feed = parse("{\"title\":\"T\",\"items\":[{\"id\":\"1\"}]}").unwrap();
    let (xml, _) = render_at(&feed, "2030-09-09T09:09:09Z").unwrap();
    assert!(xml.contains("<updated>2030-09-09T09:09:09Z</updated>\n"));
}

#[test]
fn render_reads_clock_for_undated_items() {
    let feed = parse("{\"title\":\"T\",\"items\":[{\"id\":\"1\"}]}").unwrap();
    let (xml, _) = render(&feed).unwrap();
    assert_eq!(count_occurrences(&xml, "<updated>"), 2);
}

#[test]
fn feed_updated_is_lexicographic_max() {
    let input = "{\"title\":\"T\",\"items\":[\
                 {\"id\":\"1\",\"date_published\":\"2021-01-01T00:00:00Z\"},\
                 {\"id\":\"2\",\"date_modified\":\"2023-06-01T00:00:00Z\",\"date_published\":\"2019-01-01T00:00:00Z\"},\
                 {\"id\":\"3\"},\
                 {\"id\":\"4\",\"date_modified\":\"2022-01-01T00:00:00Z\"}]}";
    let feed = parse(input).unwrap();
    assert_eq!(feed.updated_string(), "2023-06-01T00:00:00Z");
    assert_eq!(feed.updated().as_deref(), Some("2023-06-01T00:00:00Z"));
}

#[test]
fn feed_updated_floor_when_no_item_contributes() {
    let empty = parse("{\"title\":\"T\",\"items\":[]}").unwrap();
    assert_eq!(empty.updated_string(), "2000-01-01T00:00:00Z");
    assert!(empty.updated().is_none());
    let undated = parse("{\"title\":\"T\",\"items\":[{\"id\":\"1\"}]}").unwrap();
    assert_eq!(undated.updated_string(), "2000-01-01T00:00:00Z");
    let none = parse("{\"title\":\"T\"}").unwrap();
    assert_eq!(none.updated_string(), "2000-01-01T00:00:00Z");
}

#[test]
fn floor_updated_renders_and_parses() {
    let feed = parse("{\"title\":\"T\"}").unwrap();
    let (xml, instant) = render_at(&feed, "2024-01-01T00:00:00Z").unwrap();
    assert!(xml.contains("<updated>2000-01-01T00:00:00Z</updated>\n"));
    // 2000-01-01T00:00:00Z as Unix seconds
    assert_eq!(instant.secs, 946684800);
    assert_eq!(instant.nanos, 0);
}

#[test]
fn item_updated_prefers_date_modified() {
    let input = "{\"title\":\"T\",\"items\":[{\"id\":\"1\",\"date_published\":\"2021-01-01T00:00:00Z\",\"date_modified\":\"2020-01-01T00:00:00Z\"}]}";
    let feed = parse(input).unwrap();
    let item = &feed.items.as_ref().unwrap()[0];
    assert_eq!(item.updated().as_deref(), Some("2020-01-01T00:00:00Z"));
}

#[test]
fn attachments_render_as_enclosure_links() {
    let input = "{\"title\":\"T\",\"items\":[{\"id\":\"1\",\"attachments\":[\
                 {\"url\":\"https://e/a.mp3\",\"mime_type\":\"audio/mpeg\",\"size_in_bytes\":4050},\
                 {\"url\":\"https://e/b.mp3\",\"mime_type\":\"audio/ogg\"}]}]}";
    let feed = parse(input).unwrap();
    let (xml, _) = render_at(&feed, "2024-01-01T00:00:00Z").unwrap();
    assert!(xml.contains(
        "<link rel=\"enclosure\" href=\"https://e/a.mp3\"/ type=\"audio/mpeg\" length=\"4050\">\n"
    ));
    assert!(xml.contains("<link rel=\"enclosure\" href=\"https://e/b.mp3\"/ type=\"audio/ogg\">\n"));
}

#[test]
fn entry_language_sets_attribute() {
    let input = "{\"title\":\"T\",\"items\":[{\"id\":\"1\",\"language\":\"fr\",\"title\":\"Bonjour\",\"url\":\"https://e/1\",\"summary\":\"S\"}]}";
    let feed = parse(input).unwrap();
    let (xml, _) = render_at(&feed, "2024-01-01T00:00:00Z").unwrap();
    assert!(xml.contains("<entry xml:lang=\"fr\">\n"));
    assert!(xml.contains("<title>Bonjour</title>\n"));
    assert!(xml.contains("<link rel=\"alternate\" href=\"https://e/1\"/>\n"));
    assert!(xml.contains("<summary>S</summary>\n"));
    assert!(xml.contains("</entry>\n"));
}

#[test]
fn entries_render_in_input_order() {
    let input = "{\"title\":\"T\",\"items\":[{\"id\":\"b\"},{\"id\":\"a\"},{\"id\":\"c\"}]}";
    let feed = parse(input).unwrap();
    let (xml, _) = render_at(&feed, "2024-01-01T00:00:00Z").unwrap();
    let pb = xml.find("<id>b</id>").unwrap();
    let pa = xml.find("<id>a</id>").unwrap();
    let pc = xml.find("<id>c</id>").unwrap();
    assert!(pb < pa && pa < pc);
}

#[test]
fn unparseable_updated_string_is_render_error() {
    let input = "{\"title\":\"T\",\"items\":[{\"id\":\"1\",\"date_modified\":\"not a date\"}]}";
    let feed = parse(input).unwrap();
    assert_eq!(render_at(&feed, "2024-01-01T00:00:00Z").unwrap_err(), RenderError::Timestamp);
    assert_eq!(render(&feed).unwrap_err(), RenderError::Timestamp);
}

#[test]
fn subsecond_timestamps_keep_nanoseconds() {
    let input = "{\"title\":\"T\",\"items\":[{\"id\":\"1\",\"date_modified\":\"2021-01-01T00:00:00.250Z\"}]}";
    let feed = parse(input).unwrap();
    let (_, instant) = render_at(&feed, "2024-01-01T00:00:00Z").unwrap();
    assert_eq!(instant.secs, 1609459200);
    assert_eq!(instant.nanos, 250_000_000);
}

#[test]
fn should_write_compares_instants() {
    let updated = Instant { secs: 100, nanos: 500 };
    assert!(should_write(&updated, &None));
    assert!(should_write(&updated, &Some(Instant { secs: 99, nanos: 900 })));
    assert!(should_write(&updated, &Some(Instant { secs: 100, nanos: 499 })));
    assert!(!should_write(&updated, &Some(Instant { secs: 100, nanos: 500 })));
    assert!(!should_write(&updated, &Some(Instant { secs: 100, nanos: 501 })));
    assert!(!should_write(&updated, &Some(Instant { secs: 101, nanos: 0 })));
}

#[test]
fn is_after_is_strict() {
    let a = Instant { secs: 5, nanos: 5 };
    assert!(!a.is_after(&a));
    assert!(a.is_after(&Instant { secs: 5, nanos: 4 }));
    assert!(!a.is_after(&Instant { secs: 5, nanos: 6 }));
}

#[test]
fn decimal_lengths_render_exactly() {
    assert_eq!(feed2atom::render::u64_to_string(0), "0");
    assert_eq!(feed2atom::render::u64_to_string(7), "7");
    assert_eq!(feed2atom::render::u64_to_string(1234567890), "1234567890");
    assert_eq!(feed2atom::render::u64_to_string(u64::MAX), "18446744073709551615");
}
