use n_orbital::{snapshot_columns, Body, Column, Field, LIST_LIMIT};

fn labels(tests: usize, massives: usize) -> Vec<&'static str> {
    snapshot_columns(tests, massives)
        .unwrap()
        .iter()
        .map(|column| column.label())
        .collect()
}

#[test]
fn header_of_one_test_particle_and_one_massive_body() {
    assert_eq!(
        labels(1, 1),
        vec![
            "Time", "", "x", "y", "z", "vx", "vy", "vz", "", "m", "x", "y", "z", "vx", "vy", "vz", ""
        ]
    );
}

#[test]
fn header_of_an_empty_run_is_the_time_and_a_gap() {
    assert_eq!(snapshot_columns(0, 0), Some(vec![Column::Time, Column::Gap]));
    assert_eq!(labels(0, 0), vec!["Time", ""]);
}

#[test]
fn columns_of_two_test_particles() {
    let mut expected = vec![Column::Time, Column::Gap];
    for i in 0..2 {
        for field in [Field::X, Field::Y, Field::Z, Field::Vx, Field::Vy, Field::Vz] {
            expected.push(Column::Of(Body::Test(i), field));
        }
        expected.push(Column::Gap);
    }
    assert_eq!(snapshot_columns(2, 0), Some(expected));
}

#[test]
fn columns_of_a_massive_body_start_with_its_mass() {
    assert_eq!(
        snapshot_columns(0, 1),
        Some(vec![
            Column::Time,
            Column::Gap,
            Column::Of(Body::Massive(0), Field::Mass),
            Column::Of(Body::Massive(0), Field::X),
            Column::Of(Body::Massive(0), Field::Y),
            Column::Of(Body::Massive(0), Field::Z),
            Column::Of(Body::Massive(0), Field::Vx),
            Column::Of(Body::Massive(0), Field::Vy),
            Column::Of(Body::Massive(0), Field::Vz),
            Column::Gap,
        ])
    );
}

#[test]
fn test_particles_come_before_massive_bodies() {
    let columns = snapshot_columns(3, 4).unwrap();
    assert_eq!(columns.len(), 2 + 7 * 3 + 8 * 4);
    for i in 0..3 {
        assert_eq!(columns[2 + 7 * i], Column::Of(Body::Test(i), Field::X));
        assert_eq!(columns[2 + 7 * i + 5], Column::Of(Body::Test(i), Field::Vz));
        assert_eq!(columns[2 + 7 * i + 6], Column::Gap);
    }
    for i in 0..4 {
        let start = 2 + 7 * 3 + 8 * i;
        assert_eq!(columns[start], Column::Of(Body::Massive(i), Field::Mass));
        assert_eq!(columns[start + 3], Column::Of(Body::Massive(i), Field::Z));
        assert_eq!(columns[start + 7], Column::Gap);
    }
}

#[test]
fn field_labels() {
    assert_eq!(Field::Mass.label(), "m");
    assert_eq!(Field::X.label(), "x");
    assert_eq!(Field::Y.label(), "y");
    assert_eq!(Field::Z.label(), "z");
    assert_eq!(Field::Vx.label(), "vx");
    assert_eq!(Field::Vy.label(), "vy");
    assert_eq!(Field::Vz.label(), "vz");
    assert_eq!(Column::Time.label(), "Time");
    assert_eq!(Column::Gap.label(), "");
    assert_eq!(Column::Of(Body::Massive(7), Field::Vy).label(), "vy");
}

#[test]
fn a_snapshot_too_wide_to_hold_is_refused() {
    assert_eq!(snapshot_columns(usize::MAX, 0), None);
    assert_eq!(snapshot_columns(0, usize::MAX), None);
    assert_eq!(snapshot_columns(LIST_LIMIT, 1), None);
    assert_eq!(snapshot_columns(usize::MAX / 7, usize::MAX / 8), None);
}
