use vstd::prelude::*;
use vstd::string::*;
use crate::config::{joins_of, labels_of, optional};
use crate::number::Real;
use crate::ordering::strictly_in_order;
use crate::config_file::ConfigFile;
use crate::grammar::FileModel;
use crate::shape::{JoinShape, ShapeModel};
use crate::text::str_equal;

verus! {

/// Whether something is shown in the scene.
#[derive(Clone, Copy, Debug, PartialEq, Eq, Structural)]
pub enum Visibility {
    Inherited,
    Hidden,
    Visible,
}

/// The parent of the markers of a recording.
#[derive(Debug)]
pub struct C3dMarkers;

/// A marker: a point of the recording, by its label, with the visibility
/// that the configuration gives it.
#[derive(Debug)]
pub struct Marker(pub String, pub Visibility);

/// What may happen to the markers.
#[derive(Debug)]
pub enum MarkerEvent {
    DespawnAllMarkersEvent,
}

/// A join between two points, by their labels, with its shape.
#[derive(Debug)]
pub struct Join(pub String, pub String, pub JoinShape);

/// What may happen to the joins.
#[derive(Debug)]
pub enum JoinEvent {
    DespawnAllJoinsEvent,
    DespawnJoinEvent(String, String),
}

/// The trace of a point along the frames, by the point's label.
#[derive(Debug)]
pub struct Trace(pub String);

/// What may happen to the traces.
#[derive(Debug)]
pub enum TraceEvent {
    AddTraceEvent(String),
    UpdateTraceEvent,
    DespawnTraceEvent(String),
    DespawnAllTracesEvent,
}

/// The labels of the markers.
pub open spec fn marker_labels(markers: Seq<Marker>) -> Seq<Seq<char>> {
    Seq::new(markers.len(), |i: int| markers[i].0@)
}

/// The place of the first label, at or after `from`, that is the given one.
pub open spec fn first_from(labels: Seq<Seq<char>>, label: Seq<char>, from: int) -> Option<int>
    decreases labels.len() - from,
{
    if from < 0 || from >= labels.len() {
        None
    } else if labels[from] == label {
        Some(from)
    } else {
        first_from(labels, label, from + 1)
    }
}

/// What `first_from` finds is the first place of the label at or after
/// `from`; it finds none exactly where the label has no such place.
pub proof fn lemma_first_from(labels: Seq<Seq<char>>, label: Seq<char>, from: int)
    requires
        0 <= from,
    ensures
        match first_from(labels, label, from) {
            Some(i) => from <= i < labels.len() && labels[i] == label && forall|j: int|
                from <= j < i ==> labels[j] != label,
            None => forall|j: int| from <= j < labels.len() ==> labels[j] != label,
        },
    decreases labels.len() - from,
{
    if from < labels.len() && labels[from] != label {
        lemma_first_from(labels, label, from + 1);
    }
}

/// Finds a marker by its label: the place of the first marker that bears
/// the label. The position of the marker is that of its place.
pub fn get_marker_position_on_frame(label: &str, markers: &Vec<Marker>) -> (place: Option<usize>)
    ensures
        match place {
            Some(i) => first_from(marker_labels(markers@), label@, 0) == Some(i as int),
            None => first_from(marker_labels(markers@), label@, 0) is None,
        },
{
    let mut i: usize = 0;
    while i < markers.len()
        invariant
            i <= markers.len(),
            first_from(marker_labels(markers@), label@, 0) == first_from(marker_labels(markers@), label@, i as int),
        decreases markers.len() - i,
    {
        if str_equal(markers[i].0.as_str(), label) {
            return Some(i);
        }
        i += 1;
    }
    None
}

/// The visibility of a marker under a configuration: visible where the
/// configuration shows its label, hidden where it does not, and visible
/// where no file was read.
pub open spec fn visibility_of(file: Option<FileModel>, config: Seq<char>, label: Seq<char>) -> Visibility {
    match file {
        Some(f) => if f.is_visible(config, label) {
            Visibility::Visible
        } else {
            Visibility::Hidden
        },
        None => Visibility::Visible,
    }
}

/// The value of an optional file.
pub open spec fn file_view(file: Option<ConfigFile>) -> Option<FileModel> {
    match file {
        Some(f) => Some(f@),
        None => None,
    }
}

/// Decides the visibility of a marker under the current configuration.
pub fn marker_visibility(label: &str, current_config: &str, config: &Option<ConfigFile>) -> (visibility:
    Visibility)
    ensures
        visibility == visibility_of(file_view(*config), current_config@, label@),
{
    match config {
        Some(file) => if file.contains_point_regex(current_config, label) {
            Visibility::Visible
        } else {
            Visibility::Hidden
        },
        None => Visibility::Visible,
    }
}

/// Whether an event takes a join away: the event for all joins takes every
/// one, the event for one join takes those between its two points, in
/// their order.
pub open spec fn despawns(event: JoinEvent, join: Join) -> bool {
    match event {
        JoinEvent::DespawnAllJoinsEvent => true,
        JoinEvent::DespawnJoinEvent(first, second) => join.0@ == first@ && join.1@ == second@,
    }
}

/// Decides whether an event takes a join away.
pub fn join_despawns(event: &JoinEvent, join: &Join) -> (gone: bool)
    ensures
        gone == despawns(*event, *join),
{
    match event {
        JoinEvent::DespawnAllJoinsEvent => true,
        JoinEvent::DespawnJoinEvent(first, second) => str_equal(join.0.as_str(), first.as_str()) && str_equal(
            join.1.as_str(),
            second.as_str(),
        ),
    }
}

/// Whether the label is one of the parts of a text that `::` separates.
/// The part under way begins at `start`, and the text is read from `i` on.
pub open spec fn has_segment_from(text: Seq<char>, label: Seq<char>, start: int, i: int) -> bool
    decreases text.len() - i,
{
    if i < 0 || i >= text.len() {
        text.subrange(start, text.len() as int) == label
    } else if i + 1 < text.len() && text[i] == ':' && text[i + 1] == ':' {
        text.subrange(start, i) == label || has_segment_from(text, label, i + 2, i + 2)
    } else {
        has_segment_from(text, label, start, i + 1)
    }
}

/// Whether the label is one of the parts of a text that `::` separates.
pub open spec fn has_segment(text: Seq<char>, label: Seq<char>) -> bool {
    has_segment_from(text, label, 0, 0)
}

/// Tells whether the label is one of the parts of a text that `::`
/// separates.
pub fn label_has_segment(text: &str, label: &str) -> (found: bool)
    ensures
        found == has_segment(text@, label@),
{
    let n: usize = text.unicode_len();
    let mut start: usize = 0;
    let mut i: usize = 0;
    while i < n
        invariant
            n == text@.len(),
            start <= i <= n,
            has_segment(text@, label@) == has_segment_from(text@, label@, start as int, i as int),
        decreases n - i,
    {
        if i + 1 < n && text.get_char(i) == ':' && text.get_char(i + 1) == ':' {
            if str_equal(text.substring_char(start, i), label) {
                return true;
            }
            start = i + 2;
            i = i + 2;
        } else {
            i += 1;
        }
    }
    str_equal(text.substring_char(start, n), label)
}

/// Whether a range of frames lies within a recording of `num_frames`
/// frames.
pub open spec fn valid_range(start_frame: int, end_frame: int, num_frames: int) -> bool {
    start_frame <= num_frames && end_frame <= num_frames && start_frame <= end_frame
}

/// The frames of a range, each with the place of one marker.
pub open spec fn frames_of(place: int, start_frame: int, end_frame: int) -> Seq<(int, int)> {
    Seq::new((end_frame - start_frame) as nat, |k: int| (start_frame + k, place))
}

/// The frames and places at which the first `n` markers give a position to
/// the label: every frame of the range, for each marker one part of whose
/// label is the label.
pub open spec fn positions_upto(
    labels: Seq<Seq<char>>,
    label: Seq<char>,
    start_frame: int,
    end_frame: int,
    n: int,
) -> Seq<(int, int)>
    decreases n,
{
    if n <= 0 {
        Seq::empty()
    } else if has_segment(labels[n - 1], label) {
        positions_upto(labels, label, start_frame, end_frame, n - 1) + frames_of(n - 1, start_frame, end_frame)
    } else {
        positions_upto(labels, label, start_frame, end_frame, n - 1)
    }
}

/// The frames and places at which the markers give a position to the
/// label over a range of frames; none where the range does not lie within
/// the recording.
pub open spec fn positions_in_range(
    labels: Seq<Seq<char>>,
    label: Seq<char>,
    start_frame: int,
    end_frame: int,
    num_frames: int,
) -> Seq<(int, int)> {
    if valid_range(start_frame, end_frame, num_frames) {
        positions_upto(labels, label, start_frame, end_frame, labels.len() as int)
    } else {
        Seq::empty()
    }
}

/// The pairs of a vector, as integers.
pub open spec fn pairs_of(pairs: Seq<(usize, usize)>) -> Seq<(int, int)> {
    Seq::new(pairs.len(), |i: int| (pairs[i].0 as int, pairs[i].1 as int))
}

/// Finds where the positions of a label stand over a range of frames: for
/// each marker one part of whose label is the label, in the order of the
/// markers, every frame of the range with the place of the marker. A range
/// that does not lie within the recording gives nothing.
pub fn get_marker_position_on_frame_range(
    label: &str,
    markers: &Vec<Marker>,
    num_frames: usize,
    start_frame: usize,
    end_frame: usize,
) -> (positions: Vec<(usize, usize)>)
    ensures
        pairs_of(positions@) == positions_in_range(
            marker_labels(markers@),
            label@,
            start_frame as int,
            end_frame as int,
            num_frames as int,
        ),
{
    let mut positions: Vec<(usize, usize)> = Vec::new();
    assert(pairs_of(positions@) =~= Seq::empty());
    if start_frame > num_frames || end_frame > num_frames || start_frame > end_frame {
        return positions;
    }
    let mut i: usize = 0;
    while i < markers.len()
        invariant
            i <= markers.len(),
            start_frame <= end_frame,
            pairs_of(positions@) == positions_upto(
                marker_labels(markers@),
                label@,
                start_frame as int,
                end_frame as int,
                i as int,
            ),
        decreases markers.len() - i,
    {
        if label_has_segment(markers[i].0.as_str(), label) {
            let ghost before = pairs_of(positions@);
            let mut frame: usize = start_frame;
            while frame < end_frame
                invariant
                    start_frame <= frame <= end_frame,
                    pairs_of(positions@) == before + frames_of(i as int, start_frame as int, frame as int),
                decreases end_frame - frame,
            {
                let ghost earlier = pairs_of(positions@);
                positions.push((frame, i));
                assert(pairs_of(positions@) =~= earlier.push((frame as int, i as int)));
                assert(frames_of(i as int, start_frame as int, frame + 1) =~= frames_of(
                    i as int,
                    start_frame as int,
                    frame as int,
                ).push((frame as int, i as int)));
                assert(pairs_of(positions@) =~= before + frames_of(i as int, start_frame as int, frame + 1));
                frame += 1;
            }
        }
        i += 1;
    }
    positions
}

/// Finds where the positions of a label stand over all the frames of a
/// recording.
pub fn get_marker_position_on_all_frames(label: &str, markers: &Vec<Marker>, num_frames: usize) -> (positions:
    Vec<(usize, usize)>)
    ensures
        pairs_of(positions@) == positions_upto(
            marker_labels(markers@),
            label@,
            0,
            num_frames as int,
            markers@.len() as int,
        ),
{
    get_marker_position_on_frame_range(label, markers, num_frames, 0, num_frames)
}

/// A colour to paint with: red, green and blue, with or without an alpha.
#[derive(Clone, Copy, Debug, PartialEq, Eq, Structural)]
pub enum Paint {
    Rgb(u8, u8, u8),
    Rgba(u8, u8, u8, u8),
}

/// The paint that a list of bytes stands for: three bytes are red, green
/// and blue, a fourth is the alpha; any other number of bytes gives the
/// paint `otherwise`.
pub open spec fn paint_of(color: Seq<u8>, otherwise: Paint) -> Paint {
    if color.len() == 3 {
        Paint::Rgb(color[0], color[1], color[2])
    } else if color.len() == 4 {
        Paint::Rgba(color[0], color[1], color[2], color[3])
    } else {
        otherwise
    }
}

/// The paint of a join of the given colour; a dark green where the colour
/// has neither three nor four bytes.
pub fn standard_material_with_color(line_color: &Vec<u8>) -> (paint: Paint)
    ensures
        paint == paint_of(line_color@, Paint::Rgb(0, 127, 0)),
{
    if line_color.len() == 3 {
        Paint::Rgb(line_color[0], line_color[1], line_color[2])
    } else if line_color.len() == 4 {
        Paint::Rgba(line_color[0], line_color[1], line_color[2], line_color[3])
    } else {
        Paint::Rgb(0, 127, 0)
    }
}

/// The paint of a marker under a configuration: the colour that the file
/// gives to its label, or blue where there is no file, no colour, or a
/// colour of neither three nor four bytes.
pub open spec fn marker_paint_of(file: Option<FileModel>, config: Seq<char>, label: Seq<char>) -> Paint {
    match file {
        Some(f) => match f.point_color(label, config) {
            Some(color) => paint_of(color, Paint::Rgb(0, 0, 255)),
            None => Paint::Rgb(0, 0, 255),
        },
        None => Paint::Rgb(0, 0, 255),
    }
}

/// Decides the paint of a marker under the current configuration.
pub fn marker_paint(label: &str, current_config: &str, config: &Option<ConfigFile>) -> (paint: Paint)
    ensures
        paint == marker_paint_of(file_view(*config), current_config@, label@),
{
    match config {
        Some(file) => match file.get_point_color(label, current_config) {
            Some(color) => {
                if color.len() == 3 {
                    Paint::Rgb(color[0], color[1], color[2])
                } else if color.len() == 4 {
                    Paint::Rgba(color[0], color[1], color[2], color[3])
                } else {
                    Paint::Rgb(0, 0, 255)
                }
            },
            None => Paint::Rgb(0, 0, 255),
        },
        None => Paint::Rgb(0, 0, 255),
    }
}

/// The size of a marker under a configuration, where one is given.
pub fn marker_size(label: &str, current_config: &str, config: &Option<ConfigFile>) -> (size: Option<Real>)
    ensures
        size == match file_view(*config) {
            Some(f) => f.point_size(label@, current_config@),
            None => None,
        },
{
    match config {
        Some(file) => file.get_point_size(label, current_config),
        None => None,
    }
}

/// One piece of a join to put in the scene: the two points that it
/// connects, its shape, its colour, and the thickness of its line where
/// one is given.
#[derive(Debug)]
pub struct JoinPlan {
    pub join: Join,
    pub color: Vec<u8>,
    pub line_thickness: Option<Real>,
}

/// The mathematical value of a piece of a join.
pub struct PlanModel {
    pub first: Seq<char>,
    pub second: Seq<char>,
    pub shape: ShapeModel,
    pub color: Seq<u8>,
    pub line_thickness: Option<Real>,
}

impl View for JoinPlan {
    type V = PlanModel;

    open spec fn view(&self) -> PlanModel {
        PlanModel {
            first: self.join.0@,
            second: self.join.1@,
            shape: self.join.2@,
            color: self.color@,
            line_thickness: self.line_thickness,
        }
    }
}

/// The values of the pieces.
pub open spec fn plans_of(plans: Seq<JoinPlan>) -> Seq<PlanModel> {
    Seq::new(plans.len(), |i: int| plans[i]@)
}

/// The colour of a join that no colour was given to: green.
pub open spec fn default_join_color() -> Seq<u8> {
    seq![0u8, 255u8, 0u8]
}

/// The piece between the point at `i` and the next.
pub open spec fn piece(
    file: FileModel,
    config: Seq<char>,
    points: Seq<Seq<char>>,
    shape: ShapeModel,
    i: int,
) -> PlanModel {
    PlanModel {
        first: points[i],
        second: points[i + 1],
        shape,
        color: match file.join_color(points[i], points[i + 1], config) {
            Some(color) => color,
            None => default_join_color(),
        },
        line_thickness: file.line_thickness(points[i], points[i + 1], config),
    }
}

/// The first `n` pieces of a join: one between each point and the next.
pub open spec fn pieces_upto(
    file: FileModel,
    config: Seq<char>,
    points: Seq<Seq<char>>,
    shape: ShapeModel,
    n: int,
) -> Seq<PlanModel>
    decreases n,
{
    if n <= 0 {
        Seq::empty()
    } else {
        pieces_upto(file, config, points, shape, n - 1).push(piece(file, config, points, shape, n - 1))
    }
}

/// The pieces of the first `n` joins, one join after the other.
pub open spec fn plans_upto(
    file: FileModel,
    config: Seq<char>,
    joins: Seq<(Seq<Seq<char>>, ShapeModel)>,
    n: int,
) -> Seq<PlanModel>
    decreases n,
{
    if n <= 0 {
        Seq::empty()
    } else {
        plans_upto(file, config, joins, n - 1) + pieces_upto(
            file,
            config,
            joins[n - 1].0,
            joins[n - 1].1,
            joins[n - 1].0.len() - 1,
        )
    }
}

/// The pieces of all the joins of a configuration; none under a name that
/// is no configuration.
pub open spec fn plans_in(file: FileModel, config: Seq<char>) -> Seq<PlanModel> {
    match file.config(config) {
        Some(c) => match c.joins {
            Some(joins) => plans_upto(file, config, joins, joins.len() as int),
            None => Seq::empty(),
        },
        None => Seq::empty(),
    }
}

/// Plans the joins of a configuration: for every join one piece between
/// each of its points and the next, with the shape of the join, the colour
/// that the file gives to the two points, or green, and the thickness of
/// the line between them.
pub fn spawn_joins_in_config(current_config: &str, config_file: &ConfigFile) -> (plans: Vec<JoinPlan>)
    ensures
        plans_of(plans@) == plans_in(config_file@, current_config@),
{
    let mut plans: Vec<JoinPlan> = Vec::new();
    assert(plans_of(plans@) =~= Seq::empty());
    match config_file.joins(current_config) {
        Some(joins) => {
            let mut n: usize = 0;
            while n < joins.len()
                invariant
                    n <= joins.len(),
                    plans_of(plans@) == plans_upto(config_file@, current_config@, joins_of(joins@), n as int),
                decreases joins.len() - n,
            {
                let points = &joins[n].0;
                let ghost before = plans_of(plans@);
                let ghost labels = labels_of(points@);
                let ghost shape = joins@[n as int].1@;
                assert(joins_of(joins@)[n as int] == (labels, shape));
                let mut i: usize = 0;
                assert(before + pieces_upto(config_file@, current_config@, labels, shape, 0) =~= before);
                while i + 1 < points.len()
                    invariant
                        n < joins.len(),
                        points == &joins[n as int].0,
                        labels == labels_of(points@),
                        shape == joins@[n as int].1@,
                        i <= points.len(),
                        i + 1 <= points.len() || i == 0,
                        plans_of(plans@) == before + pieces_upto(
                            config_file@,
                            current_config@,
                            labels,
                            shape,
                            i as int,
                        ),
                    decreases points.len() - i,
                {
                    let color = match config_file.get_join_color(
                        points[i].as_str(),
                        points[i + 1].as_str(),
                        current_config,
                    ) {
                        Some(color) => color,
                        None => {
                            let mut green: Vec<u8> = Vec::new();
                            green.push(0);
                            green.push(255);
                            green.push(0);
                            assert(green@ =~= default_join_color());
                            green
                        },
                    };
                    let line_thickness = config_file.get_line_thickness(
                        points[i].as_str(),
                        points[i + 1].as_str(),
                        current_config,
                    );
                    let plan = JoinPlan {
                        join: Join(points[i].clone(), points[i + 1].clone(), joins[n].1.duplicate()),
                        color,
                        line_thickness,
                    };
                    let ghost earlier = plans_of(plans@);
                    assert(plan@ == piece(config_file@, current_config@, labels, shape, i as int));
                    plans.push(plan);
                    assert(plans_of(plans@) =~= earlier.push(plan@));
                    assert(plans_of(plans@) =~= before + pieces_upto(
                        config_file@,
                        current_config@,
                        labels,
                        shape,
                        i + 1,
                    ));
                    i += 1;
                }
                proof {
                    if points.len() == 0 {
                        assert(pieces_upto(config_file@, current_config@, labels, shape, -1) =~= Seq::empty());
                    }
                }
                n += 1;
            }
        },
        None => {},
    }
    plans
}

/// The name of the configuration at a place of the list of all names in
/// the strict order of a dictionary; none where the file has no more than
/// `idx` configurations.
pub fn get_config_index(config_file: &ConfigFile, idx: usize) -> (name: Option<String>)
    ensures
        match name {
            Some(n) => exists|names: Seq<Seq<char>>|
                #![trigger strictly_in_order(names)]
                strictly_in_order(names) && names.to_multiset() == crate::resolve::names_of(
                    config_file@.configs,
                ).to_multiset() && idx < names.len() && names[idx as int] == n@,
            None => idx >= config_file@.configs.len(),
        },
        name is Some <==> idx < config_file@.configs.len(),
{
    let names = config_file.get_all_config_names();
    if names.len() > idx {
        assert(strictly_in_order(labels_of(names@)));
        Some(names[idx].clone())
    } else {
        None
    }
}

} // verus!
