use scene_config::config_file::{parse_config, ConfigFile};
use scene_config::number::{Number, Real};
use scene_config::scene::{
    get_config_index, get_marker_position_on_all_frames, get_marker_position_on_frame,
    get_marker_position_on_frame_range, join_despawns, label_has_segment, marker_paint, marker_size,
    marker_visibility, spawn_joins_in_config, standard_material_with_color, Join, JoinEvent, Marker, Paint,
    Visibility,
};
use scene_config::shape::JoinShape;

fn file_of(text: &str) -> ConfigFile {
    parse_config(text).expect("the text is a document")
}

fn markers(labels: &[&str]) -> Vec<Marker> {
    labels.iter().map(|l| Marker(l.to_string(), Visibility::Visible)).collect()
}

#[test]
fn a_marker_is_found_by_its_label() {
    let all = markers(&["HEAD", "LKNEE", "RKNEE", "LKNEE"]);
    assert_eq!(get_marker_position_on_frame("LKNEE", &all), Some(1));
    assert_eq!(get_marker_position_on_frame("HEAD", &all), Some(0));
    assert_eq!(get_marker_position_on_frame("KNEE", &all), None);
    assert_eq!(get_marker_position_on_frame("HEAD", &Vec::new()), None);
}

#[test]
fn a_label_is_a_part_between_double_colons() {
    assert!(label_has_segment("subject::LKNEE", "LKNEE"));
    assert!(label_has_segment("subject::LKNEE", "subject"));
    assert!(label_has_segment("LKNEE", "LKNEE"));
    assert!(!label_has_segment("subject::LKNEE", "KNEE"));
    assert!(!label_has_segment("subject:LKNEE", "LKNEE"));
    assert!(label_has_segment("a::", ""));
    assert!(label_has_segment(":::", ":"));
    assert!(label_has_segment(":::", ""));
    assert!(!label_has_segment(":::", "::"));
    assert!(label_has_segment("a::b::c", "b"));
    assert!(label_has_segment("", ""));
    for text in ["a::b", "::", ":::", "a:::b", "x", "", "a::b::", "::::"] {
        for label in ["a", "b", "", ":", ":b", "x", "a:"] {
            assert_eq!(
                label_has_segment(text, label),
                text.split("::").any(|part| part == label),
                "{:?} in {:?}",
                label,
                text
            );
        }
    }
}

#[test]
fn positions_over_a_range_of_frames() {
    let all = markers(&["HEAD", "s::LKNEE", "LKNEE"]);
    assert_eq!(
        get_marker_position_on_frame_range("LKNEE", &all, 10, 2, 4),
        vec![(2, 1), (3, 1), (2, 2), (3, 2)]
    );
    assert_eq!(get_marker_position_on_frame_range("HEAD", &all, 10, 9, 10), vec![(9, 0)]);
    assert!(get_marker_position_on_frame_range("HEAD", &all, 10, 4, 4).is_empty());
    assert!(get_marker_position_on_frame_range("HEAD", &all, 10, 5, 4).is_empty());
    assert!(get_marker_position_on_frame_range("HEAD", &all, 10, 2, 11).is_empty());
    assert!(get_marker_position_on_frame_range("NOSE", &all, 10, 0, 10).is_empty());
}

#[test]
fn positions_over_all_frames() {
    let all = markers(&["HEAD", "LKNEE"]);
    assert_eq!(get_marker_position_on_all_frames("LKNEE", &all, 3), vec![(0, 1), (1, 1), (2, 1)]);
    assert!(get_marker_position_on_all_frames("LKNEE", &all, 0).is_empty());
}

#[test]
fn a_marker_is_visible_where_the_configuration_shows_it() {
    let file = Some(file_of("[c]\nvisible_points = [\"HEAD\"]\n"));
    assert_eq!(marker_visibility("HEAD", "c", &file), Visibility::Visible);
    assert_eq!(marker_visibility("KNEE", "c", &file), Visibility::Hidden);
    assert_eq!(marker_visibility("HEAD", "other", &file), Visibility::Hidden);
    assert_eq!(marker_visibility("KNEE", "c", &None), Visibility::Visible);
}

#[test]
fn the_paint_of_a_marker() {
    let file = Some(file_of(
        "[point_groups]\ng = [\"A\"]\nh = [\"B\"]\n[g.config]\npoint_color = [1, 2, 3, 4]\n[h.config]\npoint_size = 2.5\n[c]\npoint_color = [300, -1, 0]\n",
    ));
    assert_eq!(marker_paint("A", "c", &file), Paint::Rgba(1, 2, 3, 4));
    assert_eq!(marker_paint("X", "c", &file), Paint::Rgb(44, 255, 0));
    assert_eq!(marker_paint("X", "other", &file), Paint::Rgb(0, 0, 255));
    assert_eq!(marker_paint("A", "c", &None), Paint::Rgb(0, 0, 255));
    assert_eq!(marker_size("B", "c", &file), Some(Real::from_bits(2.5f64.to_bits())));
    assert_eq!(marker_size("A", "c", &file), None);
    assert_eq!(marker_size("B", "c", &None), None);
    assert_eq!(marker_paint("A", "other", &file), Paint::Rgb(0, 0, 255));
    assert_eq!(marker_size("B", "other", &file), None);
}

#[test]
fn the_paint_of_a_join() {
    assert_eq!(standard_material_with_color(&vec![1, 2, 3]), Paint::Rgb(1, 2, 3));
    assert_eq!(standard_material_with_color(&vec![1, 2, 3, 4]), Paint::Rgba(1, 2, 3, 4));
    assert_eq!(standard_material_with_color(&vec![1, 2]), Paint::Rgb(0, 127, 0));
    assert_eq!(standard_material_with_color(&vec![]), Paint::Rgb(0, 127, 0));
}

#[test]
fn a_join_is_planned_piece_by_piece() {
    let file = file_of(
        r#"
        [point_groups]
        leg = ["HIP", "KNEE"]

        [leg.config]
        join_color = [9, 9, 9]
        line_thickness = 3.0

        [c]
        joins = [["HIP", "KNEE", "ANKLE"], { points = ["A", "B"], shape = { type = "Cylinder", radius = 2 } }]
        join_color = [1, 1, 1]
        "#,
    );
    let plans = spawn_joins_in_config("c", &file);
    assert_eq!(plans.len(), 3);
    assert_eq!((plans[0].join.0.as_str(), plans[0].join.1.as_str()), ("HIP", "KNEE"));
    assert_eq!(plans[0].join.2, JoinShape::Line);
    assert_eq!(plans[0].color, vec![9, 9, 9]);
    assert_eq!(plans[0].line_thickness, Some(Real::from_bits(3.0f64.to_bits())));
    assert_eq!((plans[1].join.0.as_str(), plans[1].join.1.as_str()), ("KNEE", "ANKLE"));
    assert_eq!(plans[1].color, vec![1, 1, 1]);
    assert_eq!(plans[1].line_thickness, None);
    assert_eq!((plans[2].join.0.as_str(), plans[2].join.1.as_str()), ("A", "B"));
    assert_eq!(plans[2].join.2, JoinShape::Cylinder(Number::Integer(2)));
    assert!(spawn_joins_in_config("other", &file).is_empty());
}

#[test]
fn a_join_without_a_colour_is_green() {
    let file = file_of("[c]\njoins = [[\"A\", \"B\"]]\n");
    let plans = spawn_joins_in_config("c", &file);
    assert_eq!(plans.len(), 1);
    assert_eq!(plans[0].color, vec![0, 255, 0]);
}

#[test]
fn an_event_takes_the_joins_between_its_points() {
    let join = Join("A".to_string(), "B".to_string(), JoinShape::Line);
    assert!(join_despawns(&JoinEvent::DespawnAllJoinsEvent, &join));
    assert!(join_despawns(&JoinEvent::DespawnJoinEvent("A".to_string(), "B".to_string()), &join));
    assert!(!join_despawns(&JoinEvent::DespawnJoinEvent("B".to_string(), "A".to_string()), &join));
    assert!(!join_despawns(&JoinEvent::DespawnJoinEvent("A".to_string(), "C".to_string()), &join));
}

#[test]
fn configurations_are_numbered_in_the_order_of_a_dictionary() {
    let file = file_of("[zeta]\n[alpha]\n[Beta]\n[alpha2]\n");
    assert_eq!(file.get_all_config_names(), vec!["Beta", "alpha", "alpha2", "zeta"]);
    assert_eq!(get_config_index(&file, 0), Some("Beta".to_string()));
    assert_eq!(get_config_index(&file, 3), Some("zeta".to_string()));
    assert_eq!(get_config_index(&file, 4), None);
    let names = file.get_all_config_names();
    assert!(names.windows(2).all(|pair| pair[0] < pair[1]));
    assert_eq!(names.len(), file.get_config_map().len());
}
