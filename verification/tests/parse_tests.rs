use feed2atom::model::ParseError;
use feed2atom::parse::parse;

#[test]
fn parses_minimal_feed() {
    let feed = parse("{\"title\":\"T\"}").unwrap();
    assert_eq!(feed.title, "T");
    assert!(feed.items.is_none());
    assert!(feed.author.is_none());
    assert!(feed.authors.is_none());
}

#[test]
fn parses_all_feed_fields() {
    let input = "{\"version\":\"https://jsonfeed.org/version/1.1\",\"title\":\"My Feed\",\
                 \"home_page_url\":\"https://example.org/\",\"feed_url\":\"https://example.org/feed.json\",\
                 \"description\":\"desc\",\"user_comment\":\"uc\",\"next_url\":\"https://example.org/2\",\
                 \"icon\":\"https://example.org/icon.png\",\"favicon\":\"https://example.org/f.ico\",\
                 \"language\":\"en\",\"expired\":true,\
                 \"hubs\":[{\"type\":\"websub\",\"url\":\"https://hub.example.org/\"}],\
                 \"items\":[{\"id\":\"1\"}]}";
    let feed = parse(input).unwrap();
    assert_eq!(feed.version.as_deref(), Some("https://jsonfeed.org/version/1.1"));
    assert_eq!(feed.title, "My Feed");
    assert_eq!(feed.home_page_url.as_deref(), Some("https://example.org/"));
    assert_eq!(feed.feed_url.as_deref(), Some("https://example.org/feed.json"));
    assert_eq!(feed.description.as_deref(), Some("desc"));
    assert_eq!(feed.user_comment.as_deref(), Some("uc"));
    assert_eq!(feed.next_url.as_deref(), Some("https://example.org/2"));
    assert_eq!(feed.icon.as_deref(), Some("https://example.org/icon.png"));
    assert_eq!(feed.favicon.as_deref(), Some("https://example.org/f.ico"));
    assert_eq!(feed.language.as_deref(), Some("en"));
    assert_eq!(feed.expired, Some(true));
    let hubs = feed.hubs.as_ref().unwrap();
    assert_eq!(hubs.len(), 1);
    assert_eq!(hubs[0].hub_type.as_deref(), Some("websub"));
    assert_eq!(hubs[0].url.as_deref(), Some("https://hub.example.org/"));
    assert_eq!(feed.items.as_ref().unwrap().len(), 1);
    assert_eq!(feed.items.as_ref().unwrap()[0].id, "1");
}

#[test]
fn parses_item_fields() {
    let input = "{\"title\":\"T\",\"items\":[{\"id\":\"a\",\"url\":\"https://e/x\",\
                 \"external_url\":\"https://e/y\",\"title\":\"it\",\"content_html\":\"<p>h</p>\",\
                 \"content_text\":\"t\",\"summary\":\"s\",\"image\":\"https://e/i.png\",\
                 \"banner_image\":\"https://e/b.png\",\"date_published\":\"2021-01-01T00:00:00Z\",\
                 \"date_modified\":\"2021-02-01T00:00:00Z\",\"tags\":[\"x\",\"y\"],\
                 \"language\":\"de\",\"attachments\":[{\"url\":\"https://e/a.mp3\",\
                 \"mime_type\":\"audio/mpeg\",\"title\":\"at\",\"size_in_bytes\":123,\
                 \"duration_in_seconds\":7}]}]}";
    let feed = parse(input).unwrap();
    let item = &feed.items.as_ref().unwrap()[0];
    assert_eq!(item.id, "a");
    assert_eq!(item.url.as_deref(), Some("https://e/x"));
    assert_eq!(item.external_url.as_deref(), Some("https://e/y"));
    assert_eq!(item.title.as_deref(), Some("it"));
    assert_eq!(item.content_html.as_deref(), Some("<p>h</p>"));
    assert_eq!(item.content_text.as_deref(), Some("t"));
    assert_eq!(item.summary.as_deref(), Some("s"));
    assert_eq!(item.image.as_deref(), Some("https://e/i.png"));
    assert_eq!(item.banner_image.as_deref(), Some("https://e/b.png"));
    assert_eq!(item.date_published.as_deref(), Some("2021-01-01T00:00:00Z"));
    assert_eq!(item.date_modified.as_deref(), Some("2021-02-01T00:00:00Z"));
    ass_tags(item.tags.as_ref().unwrap());
    assert_eq!(item.language.as_deref(), Some("de"));
    let at = &item.attachments.as_ref().unwrap()[0];
    assert_eq!(at.url, "https://e/a.mp3");
    assert_eq!(at.mime_type, "audio/mpeg");
    assert_eq!(at.title.as_deref(), Some("at"));
    assert_eq!(at.size_in_bytes, Some(123));
    assert_eq!(at.duration_in_seconds, Some(7));
}

fn ass_tags(v: &Vec<String>) {
    assert_eq!(v.len(), 2);
    assert_eq!(v[0], "x");
    assert_eq!(v[1], "y");
}

#[test]
fn unknown_fields_are_ignored() {
    let input = "{\"title\":\"T\",\"unknown\":{\"nested\":[1,2.5e3,true,null,\"s\"],\"m\":{}},\"items\":[]}";
    let feed = parse(input).unwrap();
    assert_eq!(feed.title, "T");
    assert_eq!(feed.items.as_ref().unwrap().len(), 0);
}

#[test]
fn missing_title_is_missing_field() {
    assert_eq!(parse("{}").unwrap_err(), ParseError::MissingField);
    assert_eq!(parse("{\"version\":\"v\"}").unwrap_err(), ParseError::MissingField);
}

#[test]
fn missing_item_id_is_missing_field() {
    let input = "{\"title\":\"T\",\"items\":[{\"title\":\"no id\"}]}";
    assert_eq!(parse(input).unwrap_err(), ParseError::MissingField);
}

#[test]
fn missing_attachment_fields_are_missing_field() {
    let input = "{\"title\":\"T\",\"items\":[{\"id\":\"1\",\"attachments\":[{\"url\":\"u\"}]}]}";
    assert_eq!(parse(input).unwrap_err(), ParseError::MissingField);
}

#[test]
fn malformed_json_is_syntax_error() {
    assert_eq!(parse("").unwrap_err(), ParseError::Syntax);
    assert_eq!(parse("{\"title\":\"T\"").unwrap_err(), ParseError::Syntax);
    assert_eq!(parse("{\"title\" \"T\"}").unwrap_err(), ParseError::Syntax);
    assert_eq!(parse("{\"title\":\"T\",}").unwrap_err(), ParseError::Syntax);
    assert_eq!(parse("{\"title\":\"T\"} x").unwrap_err(), ParseError::Syntax);
    assert_eq!(parse("@").unwrap_err(), ParseError::Syntax);
}

#[test]
fn wrong_field_type_is_field_type_error() {
    assert_eq!(parse("{\"title\":5}").unwrap_err(), ParseError::FieldType);
    assert_eq!(parse("{\"title\":\"T\",\"items\":{}}").unwrap_err(), ParseError::FieldType);
    assert_eq!(parse("{\"title\":\"T\",\"expired\":\"yes\"}").unwrap_err(), ParseError::FieldType);
    assert_eq!(parse("[1]").unwrap_err(), ParseError::FieldType);
    let f = "{\"title\":\"T\",\"items\":[{\"id\":\"1\",\"attachments\":[{\"url\":\"u\",\"mime_type\":\"m\",\"size_in_bytes\":1.5}]}]}";
    assert_eq!(parse(f).unwrap_err(), ParseError::FieldType);
}

#[test]
fn string_escapes_are_decoded() {
    let input = "{\"title\":\"a\\u0041\\n\\\"\\\\/\\t b\"}";
    let feed = parse(input).unwrap();
    assert_eq!(feed.title, "aA\n\"\\/\t b");
}

#[test]
fn surrogate_pairs_are_combined() {
    let input = "{\"title\":\"x\\ud83d\\ude00y\"}";
    let feed = parse(input).unwrap();
    assert_eq!(feed.title, "x\u{1F600}y");
}

#[test]
fn lone_surrogate_is_rejected() {
    let input = "{\"title\":\"x\\ud83dy\"}";
    assert_eq!(parse(input).unwrap_err(), ParseError::Syntax);
}

#[test]
fn large_sizes_fit_in_u64() {
    let ok = "{\"title\":\"T\",\"items\":[{\"id\":\"1\",\"attachments\":[{\"url\":\"u\",\"mime_type\":\"m\",\"size_in_bytes\":18446744073709551615}]}]}";
    let feed = parse(ok).unwrap();
    let at = &feed.items.as_ref().unwrap()[0].attachments.as_ref().unwrap()[0];
    assert_eq!(at.size_in_bytes, Some(u64::MAX));
    let too_big = "{\"title\":\"T\",\"items\":[{\"id\":\"1\",\"attachments\":[{\"url\":\"u\",\"mime_type\":\"m\",\"size_in_bytes\":18446744073709551616}]}]}";
    assert_eq!(parse(too_big).unwrap_err(), ParseError::FieldType);
}

#[test]
fn legacy_author_is_folded() {
    let input = "{\"title\":\"T\",\"author\":{\"name\":\"A\",\"url\":\"https://a\"}}";
    let feed = parse(input).unwrap();
    assert!(feed.author.is_none());
    let authors = feed.authors.as_ref().unwrap();
    assert_eq!(authors.len(), 1);
    assert_eq!(authors[0].name.as_deref(), Some("A"));
    assert_eq!(authors[0].url.as_deref(), Some("https://a"));
}

#[test]
fn legacy_author_is_discarded_when_authors_present() {
    let input = "{\"title\":\"T\",\"author\":{\"name\":\"Old\"},\"authors\":[{\"name\":\"New\"}]}";
    let feed = parse(input).unwrap();
    assert!(feed.author.is_none());
    let authors = feed.authors.as_ref().unwrap();
    assert_eq!(authors.len(), 1);
    assert_eq!(authors[0].name.as_deref(), Some("New"));
}

#[test]
fn item_legacy_author_is_folded_independently() {
    let input = "{\"title\":\"T\",\"items\":[{\"id\":\"1\",\"author\":{\"name\":\"IA\"}}]}";
    let feed = parse(input).unwrap();
    let item = &feed.items.as_ref().unwrap()[0];
    assert!(item.author.is_none());
    let authors = item.authors.as_ref().unwrap();
    assert_eq!(authors.len(), 1);
    assert_eq!(authors[0].name.as_deref(), Some("IA"));
}

#[test]
fn normalization_is_idempotent() {
    let input = "{\"title\":\"T\",\"author\":{\"name\":\"A\"},\"items\":[{\"id\":\"1\",\"author\":{\"name\":\"B\"}}]}";
    let feed = parse(input).unwrap();
    let again = feed.clone().normalize();
    assert!(again.author.is_none());
    let authors = again.authors.as_ref().unwrap();
    assert_eq!(authors.len(), 1);
    assert_eq!(authors[0].name.as_deref(), Some("A"));
    let item = &again.items.as_ref().unwrap()[0];
    assert!(item.author.is_none());
    assert_eq!(item.authors.as_ref().unwrap()[0].name.as_deref(), Some("B"));
}

#[test]
fn empty_authors_array_is_kept_and_legacy_discarded() {
    let input = "{\"title\":\"T\",\"author\":{\"name\":\"A\"},\"authors\":[]}";
    let feed = parse(input).unwrap();
    assert!(feed.author.is_none());
    assert_eq!(feed.authors.as_ref().unwrap().len(), 0);
}
