use stats_render::image_gen::ImageGen;
use stats_render::subst::replace_all;
use stats_render::text::{i64_to_string, proportion_to_string, u64_to_string};

#[test]
fn replace_all_behaves_like_str_replace() {
    assert_eq!(replace_all("a {{ x }} b {{ x }}", "{{ x }}", "V"), "a V b V");
    assert_eq!(replace_all("aaa", "aa", "b"), "aaa".replace("aa", "b"));
    assert_eq!(replace_all("no match", "{{ x }}", "V"), "no match");
}

#[test]
fn replaces_mapped_tag_and_keeps_unmapped() {
    let template = String::from("Hello {{ x }} and {{ y }}!");
    let tags = vec![(String::from("x"), String::from("V"))];
    let out = ImageGen::replace_tags(template, &tags);
    assert_eq!(out, "Hello V and {{ y }}!");
}

#[test]
fn replaces_every_occurrence_of_a_tag() {
    let template = String::from("{{ x }}-{{ x }}-{{ x }}");
    let tags = vec![(String::from("x"), String::from("a"))];
    let out = ImageGen::replace_tags(template, &tags);
    assert_eq!(out, "a-a-a");
}

#[test]
fn value_is_inserted_verbatim() {
    let template = String::from("<svg>{{ body }}</svg>");
    let tags = vec![(String::from("body"), String::from("<rect x=\"1\"/>"))];
    let out = ImageGen::replace_tags(template, &tags);
    assert_eq!(out, "<svg><rect x=\"1\"/></svg>");
}

#[test]
fn tag_name_must_match_the_whole_token() {
    let template = String::from("{{ stars }} {{ star }}");
    let tags = vec![(String::from("star"), String::from("9"))];
    let out = ImageGen::replace_tags(template, &tags);
    assert_eq!(out, "{{ stars }} 9");
}

#[test]
fn tokens_introduced_by_values_are_not_resubstituted() {
    let template = String::from("{{ a }}");
    let tags = vec![
        (String::from("a"), String::from("{{ b }}")),
        (String::from("b"), String::from("X")),
    ];
    let out = ImageGen::replace_tags(template, &tags);
    assert_eq!(out, "{{ b }}");
}

#[test]
fn later_keys_do_not_rescan_earlier_values() {
    let template = String::from("{{ b }} {{ a }}");
    let tags = vec![
        (String::from("a"), String::from("{{ b }}")),
        (String::from("b"), String::from("X")),
    ];
    let out = ImageGen::replace_tags(template, &tags);
    assert_eq!(out, "X {{ b }}");
}

#[test]
fn unused_mapping_key_is_silently_ignored() {
    let template = String::from("no tags here");
    let tags = vec![(String::from("x"), String::from("V"))];
    let out = ImageGen::replace_tags(template, &tags);
    assert_eq!(out, "no tags here");
}

#[test]
fn decimal_formatting_matches_display() {
    assert_eq!(u64_to_string(0), "0");
    assert_eq!(u64_to_string(42), "42");
    assert_eq!(u64_to_string(1234567890), "1234567890");
    assert_eq!(i64_to_string(-5), "-5");
    assert_eq!(i64_to_string(i64::MIN), format!("{}", i64::MIN));
    assert_eq!(i64_to_string(i64::MAX), format!("{}", i64::MAX));
}

#[test]
fn proportion_formatting_has_two_decimal_places() {
    assert_eq!(proportion_to_string(7500), "75.00");
    assert_eq!(proportion_to_string(2500), "25.00");
    assert_eq!(proportion_to_string(25), "0.25");
    assert_eq!(proportion_to_string(10001), "100.01");
    assert_eq!(proportion_to_string(0), "0.00");
}
