use dcs_kneeboard::query_aliases::QueryAliases;
use dcs_kneeboard::word_map::WordMap;

fn aliases(pairs: &[(&str, &str)]) -> QueryAliases {
    let list: Vec<(String, String)> =
        pairs.iter().map(|(k, v)| (k.to_string(), v.to_string())).collect();
    QueryAliases { rewrites: WordMap::from_pairs(&list) }
}

#[test]
fn rewrites_basic_alias() {
    let a = aliases(&[("mark", "mk")]);
    assert_eq!(a.rewrite("mark 82"), "mk 82");
    assert_eq!(a.rewrite("mark 82 employment"), "mk 82 employment");
}

#[test]
fn respects_word_boundaries() {
    let a = aliases(&[("mark", "mk")]);
    // "remark" must not become "remk".
    assert_eq!(a.rewrite("remark mode"), "remark mode");
    // "markup" must not become "mkup".
    assert_eq!(a.rewrite("markup language"), "markup language");
    // Standalone "mark" still rewrites.
    assert_eq!(a.rewrite("the mark of zorro"), "the mk of zorro");
}

#[test]
fn longest_key_wins() {
    // If both "mark" → "mk" and "mark 82" → "mk 82" are defined, the
    // longer key matches first so the shorter doesn't pre-empt it.
    // (Result is the same string in this case, but the count of
    // operations differs; this is here as a regression guard.)
    let a = aliases(&[("mark", "mk"), ("mark 82", "mk 82")]);
    assert_eq!(a.rewrite("mark 82"), "mk 82");
}

#[test]
fn multiple_aliases() {
    let a = aliases(&[
        ("mark", "mk"),
        ("agem", "agm"),
        ("jay damn", "jdam"),
    ]);
    assert_eq!(
        a.rewrite("how do i employ the agem 65 with mark 82"),
        "how do i employ the agm 65 with mk 82"
    );
    assert_eq!(a.rewrite("jay damn release"), "jdam release");
}

#[test]
fn empty_aliases_passthrough() {
    let a = QueryAliases::default();
    assert_eq!(a.rewrite("anything goes here"), "anything goes here");
}

#[test]
fn empty_key_ignored() {
    let a = aliases(&[("", "should not apply"), ("mark", "mk")]);
    assert_eq!(a.rewrite("mark 82"), "mk 82");
}
