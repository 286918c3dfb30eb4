use alchemy_llm::utils::{ThinkFragment, ThinkTagParser};

#[test]
fn parses_inline_think_block_and_text() {
    let mut parser = ThinkTagParser::new();

    let fragments = parser.feed("<think>reason</think>answer");

    assert_eq!(
        fragments,
        vec![
            ThinkFragment::Thinking("reason".to_string()),
            ThinkFragment::Text("answer".to_string()),
        ]
    );
    assert!(parser.flush().is_empty());
}

#[test]
fn handles_split_open_tag_boundaries() {
    let mut parser = ThinkTagParser::new();

    assert!(parser.feed("<th").is_empty());
    assert_eq!(
        parser.feed("ink>reason"),
        vec![ThinkFragment::Thinking("reason".to_string())]
    );
    assert_eq!(
        parser.feed("</think>done"),
        vec![ThinkFragment::Text("done".to_string())]
    );
}

#[test]
fn handles_split_close_tag_boundaries() {
    let mut parser = ThinkTagParser::new();

    assert_eq!(
        parser.feed("<think>rea"),
        vec![ThinkFragment::Thinking("rea".to_string())]
    );
    assert_eq!(
        parser.feed("son</th"),
        vec![ThinkFragment::Thinking("son".to_string())]
    );
    assert_eq!(
        parser.feed("ink>text"),
        vec![ThinkFragment::Text("text".to_string())]
    );
}

#[test]
fn flushes_false_start_as_text() {
    let mut parser = ThinkTagParser::new();

    assert_eq!(
        parser.feed("hello <thi"),
        vec![ThinkFragment::Text("hello ".to_string())]
    );
    assert_eq!(
        parser.flush(),
        vec![ThinkFragment::Text("<thi".to_string())]
    );
}

#[test]
fn drops_empty_thinking_segments() {
    let mut parser = ThinkTagParser::new();

    assert_eq!(
        parser.feed("<think></think>answer"),
        vec![ThinkFragment::Text("answer".to_string())]
    );
}

#[test]
fn flush_resets_mode_for_next_chunk() {
    let mut parser = ThinkTagParser::new();

    assert_eq!(
        parser.feed("<think>reason"),
        vec![ThinkFragment::Thinking("reason".to_string())]
    );
    assert!(parser.flush().is_empty());
    assert_eq!(
        parser.feed("next"),
        vec![ThinkFragment::Text("next".to_string())]
    );
}

fn tagged(fragments: &[ThinkFragment]) -> Vec<(bool, char)> {
    let mut out = Vec::new();
    for fragment in fragments {
        match fragment {
            ThinkFragment::Text(text) => out.extend(text.chars().map(|c| (false, c))),
            ThinkFragment::Thinking(text) => out.extend(text.chars().map(|c| (true, c))),
        }
    }
    out
}

fn feed_all(chunks: &[&str]) -> Vec<(bool, char)> {
    let mut parser = ThinkTagParser::new();
    let mut out = Vec::new();
    for chunk in chunks {
        out.extend(tagged(&parser.feed(chunk)));
    }
    out.extend(tagged(&parser.flush()));
    out
}

#[test]
fn chunking_does_not_change_what_is_released() {
    let input = "a<think>b</think>c<think>d</thi";
    let whole = feed_all(&[input]);
    let chars: Vec<char> = input.chars().collect();
    for cut in 0..=chars.len() {
        let left: String = chars[..cut].iter().collect();
        let right: String = chars[cut..].iter().collect();
        assert_eq!(feed_all(&[&left, &right]), whole);
    }
    let singles: Vec<String> = chars.iter().map(|c| c.to_string()).collect();
    let single_refs: Vec<&str> = singles.iter().map(|s| s.as_str()).collect();
    assert_eq!(feed_all(&single_refs), whole);
    let expected: Vec<(bool, char)> = vec![
        (false, 'a'),
        (true, 'b'),
        (false, 'c'),
        (true, 'd'),
        (true, '<'),
        (true, '/'),
        (true, 't'),
        (true, 'h'),
        (true, 'i'),
    ];
    assert_eq!(whole, expected);
}

#[test]
fn empty_think_block_releases_nothing() {
    let mut parser = ThinkTagParser::new();
    assert!(parser.feed("<think></think>").is_empty());
    assert!(parser.flush().is_empty());
}

#[test]
fn dangling_open_tag_prefix_is_flushed_as_text() {
    for cut in 1..7 {
        let mut parser = ThinkTagParser::new();
        let prefix = &"<think>"[..cut];
        assert!(parser.feed(prefix).is_empty());
        assert_eq!(parser.flush(), vec![ThinkFragment::Text(prefix.to_string())]);
    }
}

#[test]
fn dangling_close_tag_prefix_is_flushed_as_thinking() {
    let mut parser = ThinkTagParser::new();
    assert_eq!(
        parser.feed("<think>x</thin"),
        vec![ThinkFragment::Thinking("x".to_string())]
    );
    assert_eq!(
        parser.flush(),
        vec![ThinkFragment::Thinking("</thin".to_string())]
    );
}

#[test]
fn multibyte_text_around_tags_is_kept() {
    let mut parser = ThinkTagParser::new();
    assert_eq!(
        parser.feed("\u{4E2D}<think>\u{1F600}</think>\u{6587}"),
        vec![
            ThinkFragment::Text("\u{4E2D}".to_string()),
            ThinkFragment::Thinking("\u{1F600}".to_string()),
            ThinkFragment::Text("\u{6587}".to_string()),
        ]
    );
}
