use yap_to_text::modes::{ModeInfo, TranscriptionMode, get_available_modes};

#[test]
fn from_str_resolves_every_identifier() {
    assert_eq!(TranscriptionMode::from_str("default"), TranscriptionMode::Default);
    assert_eq!(TranscriptionMode::from_str("email"), TranscriptionMode::Email);
    assert_eq!(TranscriptionMode::from_str("bullets"), TranscriptionMode::Bullets);
    assert_eq!(TranscriptionMode::from_str("summary"), TranscriptionMode::Summary);
    assert_eq!(TranscriptionMode::from_str("slack"), TranscriptionMode::Slack);
    assert_eq!(TranscriptionMode::from_str("meeting_notes"), TranscriptionMode::MeetingNotes);
    assert_eq!(TranscriptionMode::from_str("code_comment"), TranscriptionMode::CodeComment);
}

#[test]
fn from_str_is_case_insensitive() {
    assert_eq!(TranscriptionMode::from_str("EMAIL"), TranscriptionMode::Email);
    assert_eq!(TranscriptionMode::from_str("Bullets"), TranscriptionMode::Bullets);
    assert_eq!(TranscriptionMode::from_str("Meeting_Notes"), TranscriptionMode::MeetingNotes);
}

#[test]
fn from_str_falls_back_to_default() {
    assert_eq!(TranscriptionMode::from_str(""), TranscriptionMode::Default);
    assert_eq!(TranscriptionMode::from_str("haiku"), TranscriptionMode::Default);
    assert_eq!(TranscriptionMode::from_str("bullets "), TranscriptionMode::Default);
}

#[test]
fn as_str_round_trips_through_from_str() {
    for mode in TranscriptionMode::all_modes() {
        assert_eq!(TranscriptionMode::from_str(mode.as_str()), mode);
    }
}

#[test]
fn display_names_and_descriptions() {
    assert_eq!(TranscriptionMode::Bullets.display_name(), "Bullet Points");
    assert_eq!(TranscriptionMode::MeetingNotes.display_name(), "Meeting Notes");
    assert_eq!(TranscriptionMode::Slack.display_name(), "Slack Message");
    assert_eq!(TranscriptionMode::Default.description(), "Clean up grammar and filler words");
    assert_eq!(TranscriptionMode::Summary.description(), "Condense into a brief summary");
}

#[test]
fn system_prompt_embeds_language_name() {
    let p = TranscriptionMode::Bullets.get_system_prompt("English");
    assert_eq!(
        p,
        "You are a content organizer that NEVER translates. Convert this transcript into clear, \
         organized bullet points. Extract key points and use concise language. Keep the EXACT \
         SAME LANGUAGE as the input (English). NEVER change the language. Output ONLY the bullet \
         list using \u{2022} or - markers, nothing else."
    );
}

#[test]
fn default_mode_system_prompt_names_language_twice() {
    let p = TranscriptionMode::Default.get_system_prompt("French");
    assert_eq!(
        p,
        "You are a transcript cleaner that NEVER translates. You clean up speech transcripts by \
         removing filler words and fixing grammar while keeping the EXACT SAME LANGUAGE as the \
         input. If input is French, output French. NEVER change the language. Output ONLY the \
         cleaned text."
    );
}

#[test]
fn meeting_notes_prompt_has_three_subsections() {
    let p = TranscriptionMode::MeetingNotes.get_system_prompt("English");
    assert!(p.contains("- Key Discussion Points\n"));
    assert!(p.contains("- Decisions Made\n"));
    assert!(p.contains("- Action Items (if any)\n"));
}

#[test]
fn all_modes_lists_the_whole_catalog_in_order() {
    let modes = TranscriptionMode::all_modes();
    assert_eq!(modes.len(), 7);
    assert_eq!(modes[0], TranscriptionMode::Default);
    assert_eq!(modes[1], TranscriptionMode::Email);
    assert_eq!(modes[2], TranscriptionMode::Bullets);
    assert_eq!(modes[3], TranscriptionMode::Summary);
    assert_eq!(modes[4], TranscriptionMode::Slack);
    assert_eq!(modes[5], TranscriptionMode::MeetingNotes);
    assert_eq!(modes[6], TranscriptionMode::CodeComment);
}

#[test]
fn every_mode_requires_the_cleanup_service() {
    for mode in TranscriptionMode::all_modes() {
        assert!(mode.requires_ollama());
    }
}

#[test]
fn default_trait_gives_default_mode() {
    assert_eq!(TranscriptionMode::default(), TranscriptionMode::Default);
}

#[test]
fn available_modes_carry_ids_names_and_descriptions() {
    let infos: Vec<ModeInfo> = get_available_modes();
    assert_eq!(infos.len(), 7);
    assert_eq!(infos[0].id, "default");
    assert_eq!(infos[0].name, "Default");
    assert_eq!(infos[2].id, "bullets");
    assert_eq!(infos[2].name, "Bullet Points");
    assert_eq!(infos[2].description, "Convert to organized bullet points");
    assert_eq!(infos[5].id, "meeting_notes");
    assert!(infos.iter().all(|m| m.requires_ollama));
}
