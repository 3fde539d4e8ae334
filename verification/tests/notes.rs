use strobetune::notes::{transposed_pitch_class, tuning, FREQ_UNITS_PER_HZ, N_STRINGS, N_TUNINGS};

#[test]
fn display_names_match_spec() {
    let std = &tuning(0);
    assert_eq!(std.display_name(0), "Standard E");
    assert_eq!(std.display_name(-1), "Standard E♭");
    assert_eq!(std.display_name(-2), "Standard D");
    assert_eq!(std.display_name(1), "Standard F");

    let drop_d = &tuning(1);
    assert_eq!(drop_d.display_name(0), "Drop D");
    assert_eq!(drop_d.display_name(-1), "Drop D♭");

    let open_g = &tuning(2);
    assert_eq!(open_g.display_name(0), "Open G");
    assert_eq!(open_g.display_name(2), "Open A");
}

#[test]
fn pitch_classes_are_spelled_with_flats() {
    let names: Vec<&str> = (0..12).map(|s| transposed_pitch_class(0, s)).collect();
    assert_eq!(
        names,
        vec!["C", "D♭", "D", "E♭", "E", "F", "G♭", "G", "A♭", "A", "B♭", "B"]
    );
}

#[test]
fn transposing_by_octaves_keeps_the_name() {
    for root in 0..12 {
        for s in -24..=24 {
            assert_eq!(transposed_pitch_class(root, s), transposed_pitch_class(root, s + 12));
        }
    }
    assert_eq!(transposed_pitch_class(4, -13), "E♭");
    assert_eq!(transposed_pitch_class(0, -1), "B");
    assert_eq!(transposed_pitch_class(11, 1), "C");
}

#[test]
fn transposing_at_the_edges_of_the_range() {
    assert_eq!(transposed_pitch_class(i32::MAX, 0), transposed_pitch_class(7, 0));
    assert_eq!(transposed_pitch_class(0, i32::MIN), transposed_pitch_class(4, 0));
}

#[test]
fn display_name_follows_transpose_by_octave() {
    let t = tuning(0);
    assert_eq!(t.display_name(12), "Standard E");
    assert_eq!(t.display_name(-12), "Standard E");
    assert_eq!(t.display_name(-5), "Standard B");
}

#[test]
fn preset_table_matches_the_readme() {
    let labels: Vec<Vec<&str>> = (0..N_TUNINGS)
        .map(|i| tuning(i).strings.iter().map(|s| s.label).collect())
        .collect();
    assert_eq!(labels[0], vec!["E2", "A2", "D3", "G3", "B3", "E4"]);
    assert_eq!(labels[1], vec!["D2", "A2", "D3", "G3", "B3", "E4"]);
    assert_eq!(labels[2], vec!["D2", "G2", "D3", "G3", "B3", "D4"]);
    assert_eq!(tuning(0).id, "standard");
    assert_eq!(tuning(1).id, "drop_d");
    assert_eq!(tuning(2).id, "open_g");
    assert_eq!(tuning(0).strings[0].freq_units, 824_069);
    assert_eq!(tuning(1).strings[0].freq_units, 734_162);
    assert_eq!(tuning(2).strings[5].freq_units, 2_936_648);
    assert_eq!(tuning(0).strings[1].freq_units / FREQ_UNITS_PER_HZ, 110);
    assert_eq!(tuning(0).strings.len(), N_STRINGS);
}
