use scene_config::assoc::Dict;
use scene_config::config::{merge_configs, Config, PointGroupConfig};
use scene_config::config_file::{parse_config, ConfigFile};
use scene_config::number::{Number, Real};
use scene_config::ordering::{comes_before, sorted_labels};
use scene_config::parse::{family, parse_shape_with};
use scene_config::grammar::Family;
use scene_config::document::Node;
use scene_config::pattern::{matches_pattern, matches_source, source_of_pattern};
use scene_config::shape::JoinShape;
use scene_config::text::str_equal;

fn file_of(text: &str) -> ConfigFile {
    parse_config(text).expect("the text is a document")
}

fn bits(x: f64) -> Real {
    Real::from_bits(x.to_bits())
}

fn labels(items: &[&str]) -> Vec<String> {
    items.iter().map(|s| s.to_string()).collect()
}

#[test]
fn groups_are_asked_in_the_order_of_the_document() {
    let file = file_of(
        r#"
        [point_groups]
        zeta = ["L"]
        alpha = ["L"]

        [alpha.config]
        point_color = [1, 1, 1]

        [zeta.config]
        point_color = [2, 2, 2]

        [scene]
        point_color = [3, 3, 3]
        "#,
    );
    assert_eq!(file.get_point_color("L", "scene"), Some(vec![2, 2, 2]));
    assert_eq!(file.get_point_color("M", "scene"), Some(vec![3, 3, 3]));
    assert_eq!(file.get_point_color("L", "none"), None);
}

#[test]
fn a_group_that_sets_nothing_is_passed_over() {
    let file = file_of(
        r#"
        [point_groups]
        first = ["L"]
        second = ["L"]

        [first.config]
        point_size = 1.0

        [second.config]
        point_color = [2, 2, 2]

        [c]
        point_color = [3, 3, 3]
        point_size = 9.0
        "#,
    );
    assert_eq!(file.get_point_color("L", "c"), Some(vec![2, 2, 2]));
    assert_eq!(file.get_point_size("L", "c"), Some(bits(1.0)));
    assert_eq!(file.get_point_size("M", "c"), Some(bits(9.0)));
}

#[test]
fn an_override_is_merged_into_the_configuration_named_like_a_label() {
    let file = file_of(
        r#"
        [point_groups]
        g = ["scene", "L"]

        [g.config]
        point_color = [1, 2, 3]
        line_thickness = 2.0

        [scene]
        point_color = [9, 9, 9]
        join_color = [7, 7, 7]
        point_size = 4.0

        [other]
        point_color = [9, 9, 9]
        "#,
    );
    let scene = file.get_config("scene").unwrap();
    assert_eq!(scene.get_point_color(), Some(&vec![1, 2, 3]));
    assert_eq!(scene.get_join_color(), Some(&vec![7, 7, 7]));
    assert_eq!(scene.get_line_thickness(), Some(bits(2.0)));
    assert_eq!(scene.get_point_size(), Some(bits(4.0)));
    let other = file.get_config("other").unwrap();
    assert_eq!(other.get_point_color(), Some(&vec![9, 9, 9]));
    assert_eq!(other.get_line_thickness(), None);
}

#[test]
fn merging_keeps_what_the_override_does_not_set() {
    let mut base = Config::default();
    base.add_visible_point("A".to_string());
    let base = Config::new(
        Some(labels(&["A"])),
        Some(vec![(labels(&["A", "B"]), JoinShape::Line)]),
        None,
        Some(vec![1, 1, 1]),
        None,
        Some(bits(1.0)),
        None,
    );
    let over = PointGroupConfig::new(None, Some(vec![2, 2, 2]), Some(bits(5.0)), Some(bits(6.0)));
    let merged = merge_configs(&base, &over);
    assert_eq!(merged.get_visible_points(), Some(&labels(&["A"])));
    assert_eq!(merged.get_joins().unwrap().len(), 1);
    assert_eq!(merged.get_point_color(), Some(&vec![1, 1, 1]));
    assert_eq!(merged.get_join_color(), Some(&vec![2, 2, 2]));
    assert_eq!(merged.get_line_thickness(), Some(bits(5.0)));
    assert_eq!(merged.get_point_size(), Some(bits(6.0)));
    let nothing = merge_configs(&base, &PointGroupConfig::default());
    assert!(nothing.same(&base));
    assert!(!merged.same(&base));
}

#[test]
fn colours_take_three_or_four_integers() {
    let file = file_of(
        r#"
        [a]
        point_color = [1, 2]
        join_color = [1, 2, 3, 4, 5]
        [b]
        point_color = [1, 2, 3, 4]
        join_color = [1, 2.0, 3]
        [c]
        point_color = [256, -1, 511]
        join_color = "red"
        "#,
    );
    assert_eq!(file.get_point_color("x", "a"), None);
    assert_eq!(file.get_join_color("x", "y", "a"), None);
    assert_eq!(file.get_point_color("x", "b"), Some(vec![1, 2, 3, 4]));
    assert_eq!(file.get_join_color("x", "y", "b"), None);
    assert_eq!(file.get_point_color("x", "c"), Some(vec![0, 255, 255]));
    assert_eq!(file.get_join_color("x", "y", "c"), None);
}

#[test]
fn sizes_take_real_numbers_only() {
    let file = file_of("[a]\npoint_size = 2\nline_thickness = 2.5\n[b]\npoint_size = 0.25\nline_thickness = \"thick\"\n");
    assert_eq!(file.get_point_size("x", "a"), None);
    assert_eq!(file.get_line_thickness("x", "y", "a"), Some(bits(2.5)));
    assert_eq!(file.get_point_size("x", "b"), Some(bits(0.25)));
    assert_eq!(file.get_line_thickness("x", "y", "b"), None);
}

#[test]
fn the_shapes_of_joins() {
    let file = file_of(
        r#"
        [c]
        vectors = [["O", ["I", "J", "K"]], ["P", "I"]]
        joins = [
            { points = ["A", "B"], shape = "LINE" },
            { points = ["A", "B"], shape = { type = "Line" } },
            { points = ["A", "B"], shape = { type = "CYLINDER", radius = 1.5 } },
            { points = ["A", "B"], shape = { type = "cilindro", radius = 2 } },
            { points = ["A", "B"], shape = { type = "cylinder" } },
            { points = ["A", "B"], shape = { type = "Cone", radius = 3 } },
            { points = ["A", "B"], shape = { type = "cono" } },
            { points = ["A", "B"], shape = "cone" },
            { points = ["A", "B"], shape = { type = "SemiCone", radius1 = 1, radius2 = 0.5 } },
            { points = ["A", "B"], shape = { type = "truncated cone", radius1 = 1 } },
            { points = ["A", "B"], shape = { type = "Prism", width = 2, height = 3.0, vector = "O" } },
            { points = ["A", "B"], shape = { type = "parallelepiped", width = 2, height = 3.0, vector = "P" } },
            { points = ["A", "B"], shape = { type = "rectangular prism", width = 2, height = 3.0 } },
            { points = ["A", "B"], shape = { type = "prisma", width = 2 } },
            { points = ["A", "B"], shape = { radius = 2 } },
            { points = ["A", "B"], shape = 4 },
            { points = ["A", "B"] },
            { points = "A", shape = "line" },
        ]
        "#,
    );
    let joins = file.joins("c").unwrap();
    let zero = Number::Real(bits(0.0));
    let expected = vec![
        JoinShape::Line,
        JoinShape::Line,
        JoinShape::Cylinder(Number::Real(bits(1.5))),
        JoinShape::Cylinder(Number::Integer(2)),
        JoinShape::Line,
        JoinShape::SemiCone(Number::Integer(3), zero),
        JoinShape::SemiCone(Number::Real(bits(0.5)), zero),
        JoinShape::SemiCone(Number::Real(bits(0.5)), zero),
        JoinShape::SemiCone(Number::Integer(1), Number::Real(bits(0.5))),
        JoinShape::Line,
        JoinShape::RectangularPrism(
            Number::Integer(2),
            Number::Real(bits(3.0)),
            Some(["I".to_string(), "J".to_string(), "K".to_string()]),
        ),
        JoinShape::RectangularPrism(Number::Integer(2), Number::Real(bits(3.0)), None),
        JoinShape::RectangularPrism(Number::Integer(2), Number::Real(bits(3.0)), None),
        JoinShape::Line,
        JoinShape::Line,
        JoinShape::Line,
    ];
    assert_eq!(joins.len(), expected.len());
    for (i, shape) in expected.iter().enumerate() {
        assert_eq!(&joins[i].1, shape, "join {}", i);
        assert!(joins[i].1.same(shape));
    }
}

#[test]
fn the_name_of_a_shape_is_matched_in_lower_case() {
    let file = file_of(
        "[c]\njoins = [{ points = [\"A\", \"B\"], shape = { type = \"PARALELEP\\u00CDPEDO\", width = 1, height = 1 } }]\n",
    );
    let joins = file.joins("c").unwrap();
    assert!(matches!(joins[0].1, JoinShape::RectangularPrism(_, _, None)));
}

#[test]
fn the_kinds_of_shape() {
    assert_eq!(family("line"), Family::Line);
    assert_eq!(family("cylinder"), Family::Cylinder);
    assert_eq!(family("cilindro"), Family::Cylinder);
    assert_eq!(family("cone"), Family::Cone);
    assert_eq!(family("cono"), Family::Cone);
    for name in ["semicone", "semicono", "cone frustum", "cono truncado", "partial cone", "cono parcial", "truncated cone"] {
        assert_eq!(family(name), Family::SemiCone);
    }
    for name in ["prisma rectangular", "rectangular prism", "prisma", "prism", "paralelepipedo", "paralelep\u{ed}pedo", "parallelepiped"] {
        assert_eq!(family(name), Family::Prism);
    }
    assert_eq!(family("Line"), Family::Unknown);
    assert_eq!(family(""), Family::Unknown);
    assert_eq!(family("sphere"), Family::Unknown);
}

#[test]
fn a_shape_is_read_with_its_name_in_lower_case() {
    let vectors = Dict::new();
    let descriptor = Node::Table(vec![
        ("type".to_string(), Node::Text("CYLINDER".to_string())),
        ("radius".to_string(), Node::Integer(4)),
    ]);
    assert_eq!(parse_shape_with(&descriptor, "cylinder", &vectors), JoinShape::Cylinder(Number::Integer(4)));
    assert_eq!(
        parse_shape_with(&descriptor, "CYLINDER", &vectors),
        JoinShape::SemiCone(Number::Real(bits(0.75)), Number::Real(bits(0.25)))
    );
    assert_eq!(parse_shape_with(&Node::Integer(1), "cylinder", &vectors), JoinShape::Line);
}

#[test]
fn the_vector_overlays_of_a_point() {
    let file = file_of(
        r#"
        [point_groups]
        feet = ["LFOOT", "RFOOT"]

        [c]
        vectors = [
            ["HIP", "HIPX"],
            ["HIP", "HIPY", 2.0],
            ["HIP", "HIPZ", 3],
            ["KNEE", ["KX", 4, "KY"]],
            ["KNEE", ["KZ"], 0.5],
            ["KNEE", ["KW"], 7],
            [["feet", "nobody"], "UP", 1.5],
            ["A"],
            ["A", "B", 1.0, 2.0],
            ["A", 2.0],
            [3, "B"],
            "HIP",
        ]
        "#,
    );
    let hip = file.vectors_for_point("c", "HIP").unwrap();
    assert_eq!(hip, &vec![("HIPX".to_string(), bits(1.0)), ("HIPY".to_string(), bits(2.0))]);
    let knee = file.vectors_for_point("c", "KNEE").unwrap();
    assert_eq!(
        knee,
        &vec![
            ("KX".to_string(), bits(1.0)),
            ("KY".to_string(), bits(1.0)),
            ("KZ".to_string(), bits(0.5)),
            ("KW".to_string(), bits(1.0)),
        ]
    );
    assert_eq!(file.vectors_for_point("c", "LFOOT").unwrap(), &vec![("UP".to_string(), bits(1.5))]);
    assert_eq!(file.vectors_for_point("c", "RFOOT").unwrap(), &vec![("UP".to_string(), bits(1.5))]);
    assert!(file.vectors_for_point("c", "A").is_none());
    assert!(file.vectors_for_point("c", "feet").is_none());
    let config = file.get_config("c").unwrap();
    assert_eq!(config.get_vectors().unwrap().len(), 4);
    assert!(config.get_vectors_for_point("HIP").is_some());
}

#[test]
fn a_configuration_without_vectors_has_no_list_of_them() {
    let file = file_of("[a]\nvectors = []\n[b]\nvisible_points = []\n");
    assert_eq!(file.get_config("a").unwrap().get_vectors().unwrap().len(), 0);
    assert!(file.get_config("b").unwrap().get_vectors().is_none());
    assert!(file.get_config("b").unwrap().get_visible_points().is_none());
}

#[test]
fn a_table_with_a_config_table_is_an_override() {
    let file = file_of(
        "[g.config]\npoint_size = 2.0\n[h]\nconfig = 3\npoint_size = 4.0\n[k]\npoint_size = 1.0\ntitle = \"x\"\n",
    );
    assert!(file.get_config("g").is_none());
    assert_eq!(file.get_point_group_config("g").unwrap().get_point_size(), Some(bits(2.0)));
    assert!(file.get_point_group_config("h").is_none());
    assert_eq!(file.get_config("h").unwrap().get_point_size(), Some(bits(4.0)));
    assert_eq!(file.get_config("k").unwrap().get_point_size(), Some(bits(1.0)));
}

#[test]
fn the_patterns_that_a_label_matches() {
    let file = file_of("[c]\nvisible_points = [\"L.*\", \"_KNEE\", \"RKNEE\", \"LKNEE\"]\n[d]\nvisible_points = [\"HEAD\"]\n");
    assert_eq!(file.get_all_points_that_match("c", "LKNEE"), labels(&["L.*", "_KNEE", "LKNEE"]));
    assert_eq!(file.get_all_points_that_match("c", "RKNEE"), labels(&["_KNEE", "RKNEE"]));
    assert!(file.get_all_points_that_match("c", "HEAD").is_empty());
    let config = file.get_config("c").unwrap();
    assert!(config.contains_point("RKNEE"));
    assert!(!config.contains_point("KNEE"));
    assert!(config.contains_point_regex("XKNEE"));
    assert!(file.contains_point("c", "XKNEE"));
    assert_eq!(file.get_all_config_names_that_contain_point("HEAD"), labels(&["d"]));
    assert_eq!(file.get_all_config_names_that_contain_point("LKNEE"), labels(&["c"]));
    assert_eq!(file.get_all_configs_that_contain_point("LKNEE").len(), 1);
    assert!(file.get_all_configs_that_contain_point("NOSE").is_empty());
    assert_eq!(file.get_all_configs().len(), 2);
}

#[test]
fn the_expression_of_a_pattern() {
    assert_eq!(source_of_pattern("ANKLE"), "^ANKLE$");
    assert_eq!(source_of_pattern("_ANKLE"), "ANKLE");
    assert_eq!(source_of_pattern("_"), "");
    assert_eq!(source_of_pattern(""), "^$");
    assert_eq!(source_of_pattern("\u{e9}_x"), "^\u{e9}_x$");
    assert!(matches_source("KNEE$", "LKNEE"));
    assert!(!matches_source("^KNEE", "LKNEE"));
    assert!(!matches_source("(", "("));
    assert!(matches_pattern("_", "anything"));
    assert!(matches_pattern("", ""));
    assert!(!matches_pattern("", "a"));
}

#[test]
fn the_name_of_a_configuration() {
    let file = file_of("[a]\npoint_size = 1.0\n[b]\npoint_size = 2.0\n[c]\npoint_size = 2.0\n");
    let b = file.get_config("b").unwrap();
    assert_eq!(file.get_config_name(b), "b");
    assert_eq!(file.get_config_name(file.get_config("c").unwrap()), "b");
    assert_eq!(file.get_config_name(&Config::default()), "Others");
}

#[test]
fn groups_and_overrides_can_be_added() {
    let mut file = ConfigFile::default();
    file.add_point_group("g".to_string(), labels(&["A"]));
    file.add_point_group("g".to_string(), labels(&["A", "B"]));
    file.add_point_group_config("g".to_string(), PointGroupConfig::new(Some(vec![1, 2, 3]), None, None, None));
    let mut config = Config::default();
    config.add_visible_point("A".to_string());
    config.add_visible_point_group(labels(&["B", "C"]));
    file.add_config("c".to_string(), config);
    assert_eq!(file.get_point_group("g"), Some(&labels(&["A", "B"])));
    assert_eq!(file.get_point_color("B", "c"), Some(vec![1, 2, 3]));
    assert_eq!(file.get_config("c").unwrap().get_visible_points(), Some(&labels(&["A", "B", "C"])));
    assert_eq!(file.get_config_map().len(), 1);
}

#[test]
fn texts_in_the_order_of_a_dictionary() {
    assert!(comes_before("a", "b"));
    assert!(comes_before("a", "ab"));
    assert!(comes_before("", "a"));
    assert!(!comes_before("a", "a"));
    assert!(!comes_before("b", "a"));
    assert!(comes_before("Z", "a"));
    assert!(comes_before("z", "\u{e9}"));
    let words = labels(&["pear", "apple", "Pear", "", "apple", "app", "\u{e9}clair", "zoo"]);
    let mut expected = words.clone();
    expected.sort();
    assert_eq!(sorted_labels(&words), expected);
    for a in &words {
        for b in &words {
            assert_eq!(comes_before(a, b), a < b);
        }
    }
    assert!(str_equal("abc", "abc"));
    assert!(!str_equal("abc", "abd"));
    assert!(!str_equal("abc", "ab"));
}
