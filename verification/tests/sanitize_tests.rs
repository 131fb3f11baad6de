use media_transcriber::ident::sanitize_filename;

#[test]
fn cdata_and_punctuation_dropped() {
    assert_eq!(
        sanitize_filename("Episode #1: A/B <![CDATA[Test]]>"),
        "Episode_1_AB_Test"
    );
}

#[test]
fn plain_title_kept() {
    assert_eq!(sanitize_filename("abc"), "abc");
}

#[test]
fn idempotent_on_underscore_free_results() {
    for x in ["abc", "A.B.C", "Tidy", "", "2024 ", "!!!"] {
        let once = sanitize_filename(x);
        if !once.contains('_') {
            assert_eq!(sanitize_filename(&once), once);
        }
    }
}

#[test]
fn spaces_become_single_underscores() {
    assert_eq!(sanitize_filename("a b"), "a_b");
    assert_eq!(sanitize_filename("a  b"), "a_b");
    assert_eq!(sanitize_filename("a \t b"), "a_b");
}

#[test]
fn trailing_underscores_removed() {
    assert_eq!(sanitize_filename("abc!!!"), "abc");
    assert_eq!(sanitize_filename("abc   "), "abc");
    assert_eq!(sanitize_filename("abc _ _ "), "abc");
}

#[test]
fn non_ascii_dropped() {
    assert_eq!(sanitize_filename("caf\u{e9} au lait"), "caf_au_lait");
}

#[test]
fn all_punctuation_yields_empty() {
    assert_eq!(sanitize_filename("?!..."), "");
    assert_eq!(sanitize_filename("<![CDATA[]]>"), "");
}

#[test]
fn underscores_in_input_are_dropped() {
    assert_eq!(sanitize_filename("Episode_1"), "Episode1");
}
