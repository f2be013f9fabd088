use rubyshd::md2gemtext::{convert, convert_events, MdEvent, MdTag, MdTagEnd};

#[test]
fn test_kitchen_sink() {
    let markdown_demo = r#"
# h1
## h2
### h3
<p>looks like html</p>

---

```
sample
  text
```

> implying

1. don't pick up the phone
2. don't let him in
3. don't be his friend

some `code` and some `` fancy`code `` and *italics*
and __bold__ and ***semi-overlapping* bold *and* italics**

this paragraph has [one link](http://example.net)

this [paragraph](http://example.com) has [several links](http://example.org)
and an ![inline image](a://url) in it

![this one's just an image](https://placekitten.com/200/300)
"#;
    let gemtext_demo = r#"# h1

## h2

### h3

<p>looks like html</p>

-----

```
sample
  text
```

> implying

* don't pick up the phone
* don't let him in
* don't be his friend

some `code` and some `fancy`code` and _italics_ and **bold** and **_semi-overlapping_ bold _and_ italics**

this paragraph has one link
=> http://example.net one link

this paragraph has several links and an [image: inline image] in it
=> http://example.com paragraph
=> http://example.org several links
=> a://url [image: inline image]

=> https://placekitten.com/200/300 [image: this one's just an image]
"#;
    assert_eq!(convert(markdown_demo).unwrap(), gemtext_demo);
}

#[test]
fn test_list_start() {
    let markdown = "> hi\n\n1. uh\n2. ah\n";
    let gemtext = "> hi\n\n* uh\n* ah\n";
    assert_eq!(convert(markdown).unwrap(), gemtext);
}

#[test]
fn html_within_a_line_is_not_converted() {
    assert_eq!(convert("some <b>bold</b> text\n"), None);
}

#[test]
fn text_that_starts_like_markup_gets_a_space() {
    assert_eq!(convert("\\# not a heading\n").unwrap(), " # not a heading\n");
}

#[test]
fn heading_levels_beyond_three_count_as_three() {
    let events = vec![
        MdEvent::Start(MdTag::Heading(5)),
        MdEvent::Text("deep".to_string()),
        MdEvent::End(MdTagEnd::Heading),
    ];
    assert_eq!(convert_events(&events).unwrap(), "### deep\n");
}

#[test]
fn a_link_named_by_the_whole_line_stands_alone() {
    let events = vec![
        MdEvent::Start(MdTag::Paragraph),
        MdEvent::Start(MdTag::Link("gemini://a/".to_string())),
        MdEvent::Text("  away ".to_string()),
        MdEvent::End(MdTagEnd::Link),
        MdEvent::End(MdTagEnd::Paragraph),
    ];
    // The line is trimmed, the link's name is not: they differ, both stay.
    assert_eq!(convert_events(&events).unwrap(), "away\n=> gemini://a/   away \n");
    let events = vec![
        MdEvent::Start(MdTag::Paragraph),
        MdEvent::Start(MdTag::Link("gemini://a/".to_string())),
        MdEvent::Text("away".to_string()),
        MdEvent::End(MdTagEnd::Link),
        MdEvent::End(MdTagEnd::Paragraph),
    ];
    assert_eq!(convert_events(&events).unwrap(), "=> gemini://a/ away\n");
}

#[test]
fn an_unconverted_event_ends_the_conversion() {
    let events = vec![MdEvent::Text("a".to_string()), MdEvent::Other, MdEvent::Rule];
    assert_eq!(convert_events(&events), None);
}
