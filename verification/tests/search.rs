use common_sense_coder::search::SearchMode;

#[test]
fn exact_is_equality() {
    assert!(SearchMode::Exact.check("my_lib_fn", "my_lib_fn"));
    assert!(!SearchMode::Exact.check("my_lib_fn", "my_lib_fn2"));
    assert!(!SearchMode::Exact.check("mylibfn", "my_lib_fn"));
    assert!(!SearchMode::Exact.check("My_lib_fn", "my_lib_fn"));
    assert!(SearchMode::Exact.check("", ""));
    assert!(!SearchMode::Exact.check("", "a"));
}

#[test]
fn fuzzy_is_an_ordered_subsequence() {
    for name in ["my_lib_fn", "my_sub_lib_fn", "my_unused_lib_fn", "my_private_lib_fn"] {
        assert!(SearchMode::Fuzzy.check("mylibfn", name));
    }
    assert!(!SearchMode::Fuzzy.check("mylibfn", "my_lib"));
    assert!(!SearchMode::Fuzzy.check("mylibfn", "nf_bil_ym"));
    assert!(!SearchMode::Fuzzy.check("mylibfn", "main"));
    assert!(!SearchMode::Fuzzy.check("MYLIBFN", "my_lib_fn"));
    assert!(SearchMode::Fuzzy.check("", "anything"));
    assert!(SearchMode::Fuzzy.check("", ""));
    assert!(!SearchMode::Fuzzy.check("a", ""));
}

#[test]
fn fuzzy_steps_behind_each_match() {
    // a letter that the query repeats needs as many letters in the candidate
    assert!(SearchMode::Fuzzy.check("aa", "aa"));
    assert!(SearchMode::Fuzzy.check("aa", "aba"));
    assert!(!SearchMode::Fuzzy.check("aa", "a"));
    assert!(!SearchMode::Fuzzy.check("aab", "aba"));
    assert!(SearchMode::Fuzzy.check("äö", "xäyöz"));
    assert!(!SearchMode::Fuzzy.check("öä", "xäyöz"));
}

#[test]
fn exact_implies_fuzzy() {
    let words = ["", "a", "ab", "ba", "my_lib_fn", "mylibfn", "äö"];
    for q in words {
        for c in words {
            if SearchMode::Exact.check(q, c) {
                assert!(SearchMode::Fuzzy.check(q, c));
            }
        }
    }
}

#[test]
fn default_mode_is_exact() {
    assert_eq!(SearchMode::default(), SearchMode::Exact);
}
