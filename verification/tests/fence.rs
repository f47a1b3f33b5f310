use codr::fence::{merge_prose, FenceSplitter, Segment};

fn prose(text: &str) -> Segment {
    Segment::Prose(text.to_string())
}

fn code(content: &str, closed: bool) -> Segment {
    Segment::Code { content: content.to_string(), closed }
}

fn literal(segments: &[Segment]) -> String {
    let mut text = String::new();
    for segment in segments {
        match segment {
            Segment::Prose(t) => text.push_str(t),
            Segment::Code { content, closed } => {
                text.push_str("```");
                text.push_str(content);
                if *closed {
                    text.push_str("```");
                }
            }
        }
    }
    text
}

fn merged(segments: Vec<Segment>) -> Vec<Segment> {
    merge_prose(segments)
}

fn resegment(fragments: &[&str]) -> Vec<Segment> {
    let mut splitter = FenceSplitter::new();
    let mut out = Vec::new();
    for fragment in fragments {
        out.extend(splitter.push(fragment));
    }
    out.extend(splitter.finish());
    out
}

#[test]
fn streamed_answer_with_a_python_block() {
    let mut splitter = FenceSplitter::new();
    let first = splitter.push("Here is `");
    let second = splitter.push("code`\n```py\nprint(1)\n");
    let third = splitter.push("```\ndone");
    let end = splitter.finish();
    assert_eq!(first, vec![prose("Here is ")]);
    assert_eq!(second, vec![prose("`code`\n")]);
    assert_eq!(third, vec![code("py\nprint(1)\n", true), prose("\ndone")]);
    assert_eq!(end, vec![]);

    let mut all = first;
    all.extend(second);
    all.extend(third);
    let prose_channel: Vec<String> = merged(all.clone())
        .into_iter()
        .filter_map(|s| match s {
            Segment::Prose(t) => Some(t),
            _ => None,
        })
        .collect();
    assert_eq!(prose_channel, vec!["Here is `code`\n".to_string(), "\ndone".to_string()]);
    assert_eq!(prose_channel[0].trim(), "Here is `code`");
    assert_eq!(prose_channel[1].trim(), "done");
    let code_channel: Vec<String> = all
        .iter()
        .filter(|s| matches!(s, Segment::Code { .. }))
        .map(|s| literal(std::slice::from_ref(s)))
        .collect();
    assert_eq!(code_channel, vec!["```py\nprint(1)\n```".to_string()]);
}

#[test]
fn plain_text_is_handed_on_with_every_fragment() {
    let mut splitter = FenceSplitter::new();
    assert_eq!(splitter.push("Hello"), vec![prose("Hello")]);
    assert_eq!(splitter.push(""), vec![]);
    assert_eq!(splitter.push(", world"), vec![prose(", world")]);
    assert_eq!(splitter.finish(), vec![]);
}

#[test]
fn fence_split_across_fragments_is_found() {
    let mut splitter = FenceSplitter::new();
    assert_eq!(splitter.push("a`"), vec![prose("a")]);
    assert_eq!(splitter.push("`"), vec![]);
    assert!(!splitter.in_code_block());
    assert_eq!(splitter.push("`rs\nx"), vec![]);
    assert!(splitter.in_code_block());
    assert_eq!(splitter.push("``"), vec![]);
    assert_eq!(splitter.push("`b"), vec![code("rs\nx", true), prose("b")]);
    assert!(!splitter.in_code_block());
    assert_eq!(splitter.finish(), vec![]);
}

#[test]
fn backticks_held_back_turn_out_to_be_text() {
    let mut splitter = FenceSplitter::new();
    assert_eq!(splitter.push("a``"), vec![prose("a")]);
    assert_eq!(splitter.push("b"), vec![prose("``b")]);
    assert_eq!(splitter.push("`"), vec![]);
    assert_eq!(splitter.finish(), vec![prose("`")]);
}

#[test]
fn open_block_is_handed_on_unclosed_at_the_end() {
    let mut splitter = FenceSplitter::new();
    assert_eq!(splitter.push("see ```sh\nls"), vec![prose("see ")]);
    assert_eq!(splitter.push(" -l\n``"), vec![]);
    assert_eq!(splitter.finish(), vec![code("sh\nls -l\n``", false)]);
    assert!(!splitter.in_code_block());
    assert_eq!(splitter.push("next"), vec![prose("next")]);
}

#[test]
fn text_that_ends_with_an_opening_fence() {
    assert_eq!(resegment(&["a```"]), vec![prose("a"), code("", false)]);
    assert_eq!(resegment(&["```"]), vec![code("", false)]);
}

#[test]
fn fences_are_found_from_the_left_in_a_longer_run() {
    assert_eq!(resegment(&["````x"]), vec![code("`x", false)]);
    assert_eq!(resegment(&["``````"]), vec![code("", true)]);
    assert_eq!(resegment(&["```a``````b```"]), vec![code("a", true), code("b", true)]);
    assert_eq!(resegment(&["x```````y"]), vec![prose("x"), code("", true), prose("`y")]);
}

#[test]
fn empty_text_gives_no_segment() {
    assert_eq!(resegment(&[]), vec![]);
    assert_eq!(resegment(&["", ""]), vec![]);
}

#[test]
fn text_beyond_ascii_is_kept() {
    let text = "caf\u{e9} ```\u{1F600}``` \u{4e2d}";
    assert_eq!(
        resegment(&[text]),
        vec![prose("caf\u{e9} "), code("\u{1F600}", true), prose(" \u{4e2d}")]
    );
}

#[test]
fn segments_restore_the_text_for_every_cut() {
    let texts = [
        "Here is `code`\n```py\nprint(1)\n```\ndone",
        "```a``````b```",
        "no fence at all",
        "``` open forever",
        "`````````` ten",
        "``",
        "a`b``c```d````e`````f",
    ];
    for text in texts {
        let chars: Vec<char> = text.chars().collect();
        let whole = resegment(&[text]);
        assert_eq!(literal(&whole), text);
        for i in 0..=chars.len() {
            for j in i..=chars.len() {
                let a: String = chars[..i].iter().collect();
                let b: String = chars[i..j].iter().collect();
                let c: String = chars[j..].iter().collect();
                let cut = resegment(&[&a, &b, &c]);
                assert_eq!(literal(&cut), text);
                assert_eq!(merged(cut), merged(whole.clone()));
            }
        }
    }
}

#[test]
fn no_segment_holds_a_fence_in_its_content() {
    let text = "a```b````c`````d``````e```````";
    let chars: Vec<char> = text.chars().collect();
    for i in 0..=chars.len() {
        let a: String = chars[..i].iter().collect();
        let b: String = chars[i..].iter().collect();
        for segment in resegment(&[&a, &b]) {
            let content = match segment {
                Segment::Prose(t) => t,
                Segment::Code { content, .. } => content,
            };
            assert!(!content.contains("```"));
        }
    }
}

#[test]
fn resegmenting_the_restored_text_changes_nothing() {
    let fragments = ["Intro ``", "`rust\nfn main() {}\n`", "`` and `inline` ", "```\nopen"];
    let first = resegment(&fragments);
    let restored = literal(&first);
    assert_eq!(restored, fragments.concat());
    let second = resegment(&[&restored]);
    assert_eq!(literal(&second), restored);
    assert_eq!(merged(second.clone()), merged(first));
    assert_eq!(resegment(&[&literal(&second)]), second);
}

#[test]
fn merge_prose_joins_runs_of_prose_only() {
    assert_eq!(merge_prose(vec![]), vec![]);
    assert_eq!(
        merge_prose(vec![
            prose("a"),
            prose("b"),
            prose("c"),
            code("x", true),
            code("y", false),
            prose("d"),
            code("", true),
            prose("e"),
            prose(""),
        ]),
        vec![
            prose("abc"),
            code("x", true),
            code("y", false),
            prose("d"),
            code("", true),
            prose("e"),
        ]
    );
}
