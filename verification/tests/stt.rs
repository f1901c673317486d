use pickscribe::stt::{
    choose_model_file, clean_transcript, parse_progress_percentage, preferred_model_names,
    shellexpand_home, whisper_language,
};

#[test]
fn parses_whisper_progress_percentages() {
    assert_eq!(parse_progress_percentage("whisper_print_progress: progress = 42%"), Some(42));
    assert_eq!(parse_progress_percentage("progress = 100%"), Some(100));
    assert_eq!(parse_progress_percentage("progress = 101%"), None);
    assert_eq!(parse_progress_percentage("no progress here"), None);
}

#[test]
fn progress_needs_a_percent_sign_and_a_number() {
    assert_eq!(parse_progress_percentage("progress = 7"), None);
    assert_eq!(parse_progress_percentage("progress = x%"), None);
    assert_eq!(parse_progress_percentage("progress = +9%"), Some(9));
    assert_eq!(parse_progress_percentage("progress =   0% done"), Some(0));
}

#[test]
fn stt_text_drops_timestamps_and_markers() {
    let raw = "[00:00:00.000 --> 00:00:02.000]  Hello there.\n\n[MUSIC]\n(laughs)\n[00:00:02.000 --> 00:00:04.000] How are you?\n";
    assert_eq!(clean_transcript(raw), "Hello there. How are you?");
    assert_eq!(clean_transcript(""), "");
}

#[test]
fn language_defaults_to_auto_and_home_expands() {
    assert_eq!(whisper_language(""), "auto");
    assert_eq!(whisper_language("pt"), "pt");
    assert_eq!(shellexpand_home("~/models/a.bin", Some("/home/me")), "/home/me/models/a.bin");
    assert_eq!(shellexpand_home("~/models/a.bin", None), "~/models/a.bin");
    assert_eq!(shellexpand_home("/abs/a.bin", Some("/home/me")), "/abs/a.bin");
}

fn names(values: &[&str]) -> Vec<String> {
    values.iter().map(|value| (*value).to_string()).collect()
}

#[test]
fn detects_english_model_from_preference_list() {
    assert_eq!(choose_model_file(&names(&["ggml-base.en.bin"])).as_deref(), Some("ggml-base.en.bin"));
}

#[test]
fn detects_unknown_model_by_sorted_filename() {
    assert_eq!(
        choose_model_file(&names(&["ggml-zeta.bin", "ggml-foo.bin"])).as_deref(),
        Some("ggml-foo.bin")
    );
}

#[test]
fn returns_none_for_empty_model_directory() {
    assert_eq!(choose_model_file(&names(&[])), None);
}

#[test]
fn respects_model_preference_order() {
    assert_eq!(
        choose_model_file(&names(&["ggml-base.bin", "ggml-small.en.bin", "ggml-small.bin"]))
            .as_deref(),
        Some("ggml-small.bin")
    );
}

#[test]
fn only_ggml_bin_files_count_as_models() {
    assert_eq!(
        choose_model_file(&names(&["notes.txt", "ggml-a.gguf", "model.bin", "ggml-b.bin"]))
            .as_deref(),
        Some("ggml-b.bin")
    );
    assert_eq!(choose_model_file(&names(&["notes.txt", "ggml-a.gguf"])), None);
    assert_eq!(preferred_model_names()[0], "ggml-large-v3-turbo.bin");
    assert_eq!(preferred_model_names().len(), 8);
}
