use scene_config::config_file::{parse_config, parse_document, ConfigFile};
use scene_config::document::Node;
use scene_config::number::{Number, Real};
use scene_config::shape::JoinShape;
use scene_config::toml_source::ConfigParseError;

fn as_real(x: f64) -> Real {
    Real::from_bits(x.to_bits())
}

fn parsed(text: &str) -> ConfigFile {
    match parse_config(text) {
        Ok(file) => file,
        Err(e) => panic!("the text should be read: {:?}", e),
    }
}

fn labels(items: &[&str]) -> Vec<String> {
    items.iter().map(|s| s.to_string()).collect()
}

fn is_line(shape: &JoinShape) -> bool {
    matches!(shape, JoinShape::Line)
}

#[test]
fn parsing_twice_gives_the_same_file() {
    let text = r#"
        [point_groups]
        pg = ["A", "B"]

        [pg.config]
        point_color = [1, 2, 3]

        [cfg1]
        visible_points = ["A", ["pg"], "_KNEE"]
        joins = [["A", "B"], { points = ["A", ["pg"]], shape = { type = "cylinder", radius = 2 } }]
        vectors = [["A", "B", 2.5]]
        point_color = [0, 255, 0]
        line_thickness = 0.5
    "#;
    let first = parsed(text);
    let second = parsed(text);
    assert_eq!(format!("{:?}", first), format!("{:?}", second));
    assert_eq!(
        first.get_config("cfg1").unwrap().get_visible_points(),
        second.get_config("cfg1").unwrap().get_visible_points()
    );
    assert_eq!(first.get_point_color("A", "cfg1"), second.get_point_color("A", "cfg1"));
}

#[test]
fn a_plain_pattern_matches_the_whole_label() {
    let file = parsed("[c]\nvisible_points = [\"ANKLE\"]\n");
    assert!(file.contains_point_regex("c", "ANKLE"));
    assert!(!file.contains_point_regex("c", "LANKLE"));
    assert!(!file.contains_point_regex("c", "ANKLES"));
}

#[test]
fn an_underscore_pattern_matches_anywhere() {
    let file = parsed("[c]\nvisible_points = [\"_ANKLE\"]\n");
    assert!(file.contains_point_regex("c", "LANKLE"));
    assert!(file.contains_point_regex("c", "ANKLE"));
    assert!(!file.contains_point_regex("c", "KNEE"));
}

#[test]
fn a_plain_pattern_is_still_a_regular_expression() {
    let file = parsed("[c]\nvisible_points = [\"L.*\"]\n");
    assert!(file.contains_point_regex("c", "LANKLE"));
    assert!(file.contains_point_regex("c", "L"));
    assert!(!file.contains_point_regex("c", "RL"));
}

#[test]
fn a_pattern_that_is_no_expression_matches_nothing() {
    let file = parsed("[c]\nvisible_points = [\"A(\", \"B\"]\n");
    assert!(!file.contains_point_regex("c", "A("));
    assert!(!file.contains_point_regex("c", "A"));
    assert!(file.contains_point_regex("c", "B"));
    assert_eq!(file.get_all_points_that_match("c", "B"), labels(&["B"]));
}

#[test]
fn an_unknown_configuration_shows_nothing() {
    let file = parsed("[c]\nvisible_points = [\"A\"]\npoint_color = [1, 2, 3]\n");
    assert!(!file.contains_point_regex("other", "A"));
    assert!(file.get_all_points_that_match("other", "A").is_empty());
    assert_eq!(file.get_point_color("A", "other"), None);
    assert_eq!(file.get_point_size("A", "other"), None);
    assert_eq!(file.get_join_color("A", "B", "other"), None);
    assert_eq!(file.get_line_thickness("A", "B", "other"), None);
    assert!(file.joins("other").is_none());
    assert!(file.vectors_for_point("other", "A").is_none());
    assert!(file.get_config("other").is_none());
}

#[test]
fn a_group_reference_becomes_the_labels_of_the_group() {
    let file = parsed("[point_groups]\nleft = [\"LHIP\", \"LKNEE\"]\n\n[config]\nvisible_points = [[\"left\"]]\n");
    assert!(file.contains_point_regex("config", "LHIP"));
    assert!(file.contains_point_regex("config", "LKNEE"));
    assert!(!file.contains_point_regex("config", "left"));
    let config = file.get_config("config").unwrap();
    assert_eq!(config.get_visible_points(), Some(&labels(&["LHIP", "LKNEE"])));
    assert!(!config.get_visible_points().unwrap().contains(&"left".to_string()));
}

#[test]
fn a_group_may_be_defined_behind_the_configuration_that_names_it() {
    let file = parsed("[config]\nvisible_points = [\"HEAD\", [\"left\"]]\n\n[point_groups]\nleft = [\"LHIP\", \"LKNEE\"]\n");
    let config = file.get_config("config").unwrap();
    assert_eq!(config.get_visible_points(), Some(&labels(&["HEAD", "LHIP", "LKNEE"])));
}

#[test]
fn a_reference_to_an_unknown_group_is_skipped() {
    let file = parsed("[config]\nvisible_points = [\"HEAD\", [\"nobody\"], [\"a\", \"b\"], 3]\n");
    let config = file.get_config("config").unwrap();
    assert_eq!(config.get_visible_points(), Some(&labels(&["HEAD"])));
}

#[test]
fn a_join_of_one_point_is_dropped() {
    let file = parsed("[point_groups]\none = [\"A\"]\nnone = []\n\n[c]\njoins = [[\"A\"], [[\"one\"]], [[\"none\"]], [], [[\"nobody\"], \"B\"]]\n");
    let config = file.get_config("c").unwrap();
    assert!(config.get_joins().is_none());
    assert!(file.joins("c").is_none());
}

#[test]
fn a_join_of_one_label_and_a_group_is_kept() {
    let file = parsed("[point_groups]\none = [\"A\"]\n\n[c]\njoins = [[\"B\"], [[\"one\"], \"B\"]]\n");
    let joins = file.joins("c").unwrap();
    assert_eq!(joins.len(), 1);
    assert_eq!(joins[0].0, labels(&["A", "B"]));
    assert!(is_line(&joins[0].1));
}

#[test]
fn a_group_override_comes_before_the_configuration() {
    let text = r#"
        [point_groups]
        G = ["L", "M"]

        [G.config]
        point_color = [1, 2, 3]

        [C]
        point_color = [9, 9, 9]
        join_color = [8, 8, 8]
        point_size = 2.0
    "#;
    let file = parsed(text);
    assert_eq!(file.get_point_color("L", "C"), Some(vec![1, 2, 3]));
    assert_eq!(file.get_point_color("M", "C"), Some(vec![1, 2, 3]));
    assert_eq!(file.get_point_color("X", "C"), Some(vec![9, 9, 9]));
    assert_eq!(file.get_join_color("L", "M", "C"), Some(vec![8, 8, 8]));
    assert_eq!(file.get_point_size("L", "C"), Some(as_real(2.0)));
    assert_eq!(file.get_point_color("L", "nothing"), None);
}

#[test]
fn an_unknown_configuration_has_no_appearance_whatever_groups_override() {
    let text = r#"
        [point_groups]
        G = ["L", "M"]

        [G.config]
        point_color = [1, 2, 3]
        join_color = [4, 5, 6]
        point_size = 2.0
        line_thickness = 3.0

        [C]
        point_color = [9, 9, 9]
    "#;
    let file = parsed(text);
    assert_eq!(file.get_point_color("L", "C"), Some(vec![1, 2, 3]));
    assert_eq!(file.get_point_color("L", "nope"), None);
    assert_eq!(file.get_point_size("L", "nope"), None);
    assert_eq!(file.get_join_color("L", "M", "nope"), None);
    assert_eq!(file.get_line_thickness("L", "M", "nope"), None);
    assert_eq!(file.get_point_color("L", "G"), None);
    assert_eq!(file.get_point_color("L", ""), None);
}

#[test]
fn colours_are_cut_to_their_low_byte() {
    let file = parsed("[c]\npoint_color = [256, -1, 300]\njoin_color = [-256, 255, -9223372036854775808, 9223372036854775807]\n");
    assert_eq!(file.get_point_color("x", "c"), Some(vec![0, 255, 44]));
    assert_eq!(file.get_join_color("x", "y", "c"), Some(vec![0, 255, 0, 255]));
}

#[test]
fn the_first_group_that_sets_the_attribute_wins() {
    let text = r#"
        [point_groups]
        first = ["L"]
        second = ["L", "M"]
        third = ["L", "M"]

        [first.config]
        point_size = 3.0

        [second.config]
        point_color = [1, 1, 1]
        join_color = [2, 2, 2]
        line_thickness = 4.0

        [third.config]
        point_color = [5, 5, 5]
        join_color = [6, 6, 6]

        [C]
        point_color = [9, 9, 9]
    "#;
    let file = parsed(text);
    assert_eq!(file.get_point_color("L", "C"), Some(vec![1, 1, 1]));
    assert_eq!(file.get_point_size("L", "C"), Some(as_real(3.0)));
    assert_eq!(file.get_point_size("M", "C"), None);
    assert_eq!(file.get_join_color("L", "M", "C"), Some(vec![2, 2, 2]));
    assert_eq!(file.get_join_color("M", "L", "C"), Some(vec![2, 2, 2]));
    assert_eq!(file.get_line_thickness("L", "M", "C"), Some(as_real(4.0)));
    assert_eq!(file.get_line_thickness("L", "X", "C"), None);
}

#[test]
fn an_unknown_shape_name_gives_the_fallback_shape() {
    let text = r#"
        [c]
        joins = [
            { points = ["A", "B"], shape = { type = "blob" } },
            { points = ["C", "D"], shape = "blob" },
            { points = ["E", "F"], shape = { type = 7 } },
        ]
    "#;
    let file = parsed(text);
    let joins = file.joins("c").unwrap();
    assert_eq!(joins.len(), 3);
    let fallback = JoinShape::SemiCone(Number::Real(as_real(0.75)), Number::Real(as_real(0.25)));
    assert_eq!(joins[0].0, labels(&["A", "B"]));
    assert_eq!(joins[0].1, fallback);
    assert_eq!(joins[1].0, labels(&["C", "D"]));
    assert_eq!(joins[1].1, fallback);
    assert_eq!(joins[2].1, fallback);
}

#[test]
fn a_document_round_trip() {
    let text = r#"
        [point_groups]
        pg = ["A", "B"]

        [cfg1]
        joins = [["A", "B"]]
        point_color = [0, 255, 0]
    "#;
    let file = parsed(text);
    let joins = file.joins("cfg1").unwrap();
    assert_eq!(joins.len(), 1);
    assert_eq!(joins[0].0, labels(&["A", "B"]));
    assert_eq!(joins[0].1, JoinShape::Line);
    assert_eq!(file.get_point_color("A", "cfg1"), Some(vec![0, 255, 0]));
    assert_eq!(file.get_point_group("pg"), Some(&labels(&["A", "B"])));
}

#[test]
fn a_text_that_is_no_document_is_an_error() {
    match parse_config("[unclosed\nfoo = ") {
        Err(ConfigParseError::DocumentMalformed(message)) => assert!(!message.is_empty()),
        Ok(_) => panic!("the text is no document"),
    }
    assert!(parse_config("a = 1\na = 2\n").is_err());
}

#[test]
fn an_empty_text_describes_nothing() {
    let file = parsed("");
    assert_eq!(file.get_config_map().len(), 0);
    assert!(file.get_point_group("pg").is_none());
}

#[test]
fn a_document_in_memory_is_read_like_its_text() {
    let doc = vec![
        (
            "point_groups".to_string(),
            Node::Table(vec![(
                "pg".to_string(),
                Node::List(vec![Node::Text("A".to_string()), Node::Integer(3), Node::Text("B".to_string())]),
            )]),
        ),
        (
            "cfg1".to_string(),
            Node::Table(vec![
                ("joins".to_string(), Node::List(vec![Node::List(vec![Node::List(vec![Node::Text("pg".to_string())])])])),
                ("point_size".to_string(), Node::Real(1.5f64.to_bits())),
            ]),
        ),
        ("title".to_string(), Node::Text("ignored".to_string())),
    ];
    let file = parse_document(&doc);
    assert_eq!(file.get_point_group("pg"), Some(&labels(&["A", "B"])));
    let joins = file.joins("cfg1").unwrap();
    assert_eq!(joins.len(), 1);
    assert_eq!(joins[0].0, labels(&["A", "B"]));
    assert_eq!(file.get_point_size("Z", "cfg1"), Some(as_real(1.5)));
    assert!(file.get_config("title").is_none());
}
