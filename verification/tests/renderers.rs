use stats_render::grid::{band_color_string, contributions_grid_content};
use stats_render::image_gen::{languages_content, languages_tags, overview_content, overview_tags, ImageGen};
use stats_render::stats::{Language, Stats};

fn sample_stats() -> Stats {
    Stats::builder()
        .name(String::from("octocat"))
        .stargazers(42)
        .forks(7)
        .total_contributions(100)
        .languages(vec![
            Language::new(String::from("Go"), 100, 1, String::from("#00ADD8"), 2500),
            Language::new(String::from("Rust"), 300, 2, String::from("#dea584"), 7500),
        ])
        .repos(vec![String::from("a"), String::from("b")])
        .lines_changed((30, 20))
        .views(9)
        .contribution_calendar(vec![0, 3, 8, 15, 25])
        .build()
}

fn tag_value<'a>(tags: &'a [(String, String)], key: &str) -> &'a str {
    for (k, v) in tags {
        if k == key {
            return v;
        }
    }
    panic!("tag not found");
}

#[test]
fn image_gen_keeps_its_folders() {
    let gen = ImageGen::new(String::from("templates"), String::from("out"));
    assert_eq!(gen.template_folder, "templates");
    assert_eq!(gen.output_folder, "out");
}

#[test]
fn builder_defaults_unset_fields_to_zero_or_empty() {
    let stats = Stats::builder().stargazers(3).build();
    assert_eq!(stats.name(), "");
    assert_eq!(stats.stargazers(), 3);
    assert_eq!(stats.forks(), 0);
    assert_eq!(stats.total_contributions(), 0);
    assert!(stats.languages().is_empty());
    assert!(stats.repos().is_empty());
    assert_eq!(stats.lines_changed(), (0, 0));
    assert_eq!(stats.views(), 0);
    assert!(stats.contribution_calendar().is_empty());
}

#[test]
fn overview_mapping_prints_the_scalar_totals() {
    let stats = sample_stats();
    let tags = overview_tags(&stats);
    assert_eq!(tag_value(&tags, "name"), "octocat");
    assert_eq!(tag_value(&tags, "stars"), "42");
    assert_eq!(tag_value(&tags, "forks"), "7");
    assert_eq!(tag_value(&tags, "contributions"), "100");
    assert_eq!(tag_value(&tags, "lines_changed"), "50");
    assert_eq!(tag_value(&tags, "views"), "9");
    assert_eq!(tag_value(&tags, "repos"), "2");
}

#[test]
fn overview_template_is_filled_in_place() {
    let stats = sample_stats();
    let out = overview_content("{{ name }}: {{ stars }} stars, {{ repos }} repos", &stats);
    assert_eq!(out, "octocat: 42 stars, 2 repos");
}

#[test]
fn legend_lists_largest_language_first_with_staggered_delays() {
    let stats = sample_stats();
    let tags = languages_tags(&stats);
    let list = tag_value(&tags, "lang_list");
    let rust_at = list.find("<span class=\"lang\">Rust</span>").unwrap();
    let go_at = list.find("<span class=\"lang\">Go</span>").unwrap();
    assert!(rust_at < go_at);
    let first_delay = list.find("animation-delay: 0ms").unwrap();
    let second_delay = list.find("animation-delay: 150ms").unwrap();
    assert!(first_delay < rust_at && rust_at < second_delay && second_delay < go_at);
    assert!(list.contains("<span class=\"percent\">75.00%</span>"));
    assert!(list.contains("<span class=\"percent\">25.00%</span>"));
}

#[test]
fn progress_bar_stacks_segments_largest_first() {
    let stats = sample_stats();
    let tags = languages_tags(&stats);
    let progress = tag_value(&tags, "progress");
    assert_eq!(
        progress,
        "<span style=\"background-color: #dea584; width: 75.00%;\" class=\"progress-item\"></span>\
         <span style=\"background-color: #00ADD8; width: 25.00%;\" class=\"progress-item\"></span>"
    );
}

#[test]
fn languages_template_is_filled_in_place() {
    let stats = sample_stats();
    let out = languages_content("[{{ progress }}]", &stats);
    assert!(out.starts_with("[<span style=\"background-color: #dea584"));
    assert!(out.ends_with("]"));
}

#[test]
fn renderers_are_idempotent() {
    let stats = sample_stats();
    let template = "{{ name }} {{ stars }} {{ progress }} {{ lang_list }}";
    assert_eq!(overview_content(template, &stats), overview_content(template, &stats));
    assert_eq!(languages_content(template, &stats), languages_content(template, &stats));
    assert_eq!(contributions_grid_content(&stats), contributions_grid_content(&stats));
}

#[test]
fn band_colors_have_inclusive_boundaries() {
    assert_eq!(band_color_string(0), "#ebedf0");
    assert_eq!(band_color_string(1), "#c6e48b");
    assert_eq!(band_color_string(5), "#c6e48b");
    assert_eq!(band_color_string(6), "#7bc96f");
    assert_eq!(band_color_string(10), "#7bc96f");
    assert_eq!(band_color_string(11), "#239a3b");
    assert_eq!(band_color_string(20), "#239a3b");
    assert_eq!(band_color_string(21), "#196127");
}

#[test]
fn grid_positions_wrap_every_seven_days() {
    let stats = Stats::builder().contribution_calendar(vec![1; 14]).build();
    let out = contributions_grid_content(&stats);
    // position 7: column 1, row 0; position 13: column 1, row 6
    assert!(out.contains("x=\"15\" y=\"0\""));
    assert!(out.contains("x=\"15\" y=\"90\""));
    // position 0: column 0, row 0; position 6: column 0, row 6
    assert!(out.contains("x=\"0\" y=\"0\""));
    assert!(out.contains("x=\"0\" y=\"90\""));
    // position 7 starts its animation 1.4 seconds in
    assert!(out.contains("begin=\"1.4s\""));
    // no fifteenth entry, so no third column
    assert!(!out.contains("x=\"30\""));
}

#[test]
fn grid_animation_delays_grow_by_a_fifth_of_a_second() {
    let stats = sample_stats();
    let out = contributions_grid_content(&stats);
    assert!(out.contains("begin=\"0.0s\""));
    assert!(out.contains("begin=\"0.2s\""));
    assert!(out.contains("begin=\"0.4s\""));
    assert!(out.contains("begin=\"0.6s\""));
    assert!(out.contains("begin=\"0.8s\""));
    assert!(out.contains("to=\"#ebedf0\""));
    assert!(out.contains("to=\"#c6e48b\""));
    assert!(out.contains("to=\"#7bc96f\""));
    assert!(out.contains("to=\"#239a3b\""));
    assert!(out.contains("to=\"#196127\""));
}

#[test]
fn grid_single_cell_document_is_exact() {
    let stats = Stats::builder().contribution_calendar(vec![0]).build();
    let out = contributions_grid_content(&stats);
    let expected = "<svg viewBox=\"0 0 800 200\" xmlns=\"http://www.w3.org/2000/svg\">\n\
                    <g>\n\
                    <rect fill=\"#ebedf0\" height=\"10\" rx=\"2\" width=\"10\" x=\"0\" y=\"0\">\n\
                    <animate attributeName=\"fill\" begin=\"0.0s\" dur=\"0.01s\" fill=\"freeze\" from=\"#ebedf0\" to=\"#ebedf0\"/>\n\
                    </rect>\n\
                    </g>\n\
                    </svg>";
    assert_eq!(out, expected);
}
