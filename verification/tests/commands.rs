use onechat::commands::{
    all_commands, filtered_commands, moved_selection, swipe_neighbors, PaletteCommand, PickerDirection,
    SwipeNeighbors,
};

#[test]
fn palette_filtering_uses_labels_and_keywords() {
    assert_eq!(
        all_commands()
            .into_iter()
            .filter(|command| command.matches("provider"))
            .collect::<Vec<_>>(),
        vec![PaletteCommand::ChooseModel, PaletteCommand::OpenSettings]
    );
    assert!(all_commands().into_iter().all(|command| command.matches("")));
}

#[test]
fn picker_navigation_wraps_and_handles_empty_results() {
    assert_eq!(moved_selection(0, 3, PickerDirection::Previous), 2);
    assert_eq!(moved_selection(2, 3, PickerDirection::Next), 0);
    assert_eq!(moved_selection(4, 0, PickerDirection::Next), 0);
}

#[test]
fn text_to_speech_is_discoverable_by_label_and_audio_keywords() {
    assert!(all_commands().contains(&PaletteCommand::OpenTextToSpeech));
    assert!(PaletteCommand::OpenTextToSpeech.matches("text to speech"));
    assert!(PaletteCommand::OpenTextToSpeech.matches("voice"));
    assert!(PaletteCommand::OpenTextToSpeech.matches("audio.cpp"));
}

#[test]
fn palette_queries_are_trimmed_and_case_insensitive_for_labels() {
    assert!(PaletteCommand::OpenSettings.matches("  OPEN SETTINGS  "));
    assert!(PaletteCommand::OpenSettings.matches("PREFERENCES"));
    assert!(!PaletteCommand::OpenSettings.matches("open  settings"));
    assert!(PaletteCommand::OpenSettings.matches("preferences"));
    assert_eq!(filtered_commands("sidebar"), vec![PaletteCommand::ToggleSidebar]);
    assert_eq!(filtered_commands("no such command"), Vec::new());
    assert_eq!(filtered_commands("   ").len(), 9);
    assert_eq!(PaletteCommand::ChooseModel.label(), "Choose model");
    assert_eq!(PaletteCommand::OpenTextToSpeech.detail(), "Open the audio.cpp TTS Playground");
}

#[test]
fn picker_navigation_steps_inside_the_list() {
    assert_eq!(moved_selection(1, 3, PickerDirection::Previous), 0);
    assert_eq!(moved_selection(0, 3, PickerDirection::Next), 1);
    assert_eq!(moved_selection(0, 0, PickerDirection::Previous), 0);
}

fn ids(values: &[&str]) -> Vec<String> {
    values.iter().map(|value| value.to_string()).collect()
}

#[test]
fn swipe_neighbors_follow_visual_order_without_wrapping() {
    let ids = ids(&["first", "second", "third"]);

    assert_eq!(
        swipe_neighbors(&ids, "first"),
        Some(SwipeNeighbors { previous: None, next: Some("second".into()) })
    );
    assert_eq!(
        swipe_neighbors(&ids, "second"),
        Some(SwipeNeighbors { previous: Some("first".into()), next: Some("third".into()) })
    );
    assert_eq!(
        swipe_neighbors(&ids, "third"),
        Some(SwipeNeighbors { previous: Some("second".into()), next: None })
    );
}

#[test]
fn swipe_neighbors_reject_unknown_current_item() {
    assert_eq!(swipe_neighbors(&ids(&["first"]), "missing"), None);
}
