use codechat_core::chunk_content;
use codechat_core::split_paragraphs;

#[test]
fn split_matches_std_split_on_blank_lines() {
    let samples = [
        "",
        "a",
        "a\n\nb",
        "a\n\n\nb",
        "\n\n",
        "\n\n\n\n",
        "one\n\ntwo\n\nthree",
        "trailing\n\n",
        "\n\nleading",
        "inner\nnewline\n\nkept",
    ];
    for sample in samples {
        let expected: Vec<&str> = sample.split("\n\n").collect();
        assert_eq!(split_paragraphs(sample), expected, "sample {:?}", sample);
    }
}

#[test]
fn chunks_are_trimmed_paragraphs() {
    let content = "  First paragraph is long enough.  \n\nshort\n\nSecond long paragraph here.";
    assert_eq!(
        chunk_content(content),
        vec!["First paragraph is long enough.", "Second long paragraph here."]
    );
}

#[test]
fn short_chunks_are_dropped() {
    assert_eq!(chunk_content("tiny"), Vec::<String>::new());
    assert_eq!(chunk_content("123456789"), Vec::<String>::new());
    assert_eq!(chunk_content("1234567890"), vec!["1234567890"]);
    // Nine characters padded by whitespace still measure nine bytes trimmed.
    assert_eq!(chunk_content("   123456789   "), Vec::<String>::new());
}

#[test]
fn chunk_cutoff_counts_bytes_not_characters() {
    // Five two-byte characters measure ten bytes: kept.
    assert_eq!(chunk_content("ñññññ"), vec!["ñññññ"]);
    // Four two-byte characters measure eight bytes: dropped.
    assert_eq!(chunk_content("ññññ"), Vec::<String>::new());
}

#[test]
fn chunk_order_is_kept() {
    let content = "paragraph number one\n\nparagraph number two\n\nparagraph number three";
    assert_eq!(
        chunk_content(content),
        vec!["paragraph number one", "paragraph number two", "paragraph number three"]
    );
}
