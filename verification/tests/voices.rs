use sherpa_onnx_openai_server::voices::{default_voice_map, lowercase_keys, VoiceMap};

#[test]
fn default_voice_map_contains_openai_voice_names() {
    let map = default_voice_map();
    assert_eq!(map.get("alloy"), Some(&0));
    assert_eq!(map.get("shimmer"), Some(&5));
}

#[test]
fn default_voice_map_has_all_six_speakers() {
    let map = default_voice_map();
    assert_eq!(map.get("echo"), Some(&1));
    assert_eq!(map.get("fable"), Some(&2));
    assert_eq!(map.get("onyx"), Some(&3));
    assert_eq!(map.get("nova"), Some(&4));
    assert_eq!(map.get("ash"), None);
    assert_eq!(map.get("Alloy"), None);
}

#[test]
fn insert_replaces_an_existing_voice() {
    let mut map = VoiceMap::new();
    map.insert("alloy".to_string(), 0);
    map.insert("nova".to_string(), 4);
    map.insert("alloy".to_string(), 7);
    assert_eq!(map.get("alloy"), Some(&7));
    assert_eq!(map.get("nova"), Some(&4));
    assert_eq!(map.get("echo"), None);
}

#[test]
fn lowercase_keys_finds_voices_by_lowercase_name() {
    let mut map = VoiceMap::new();
    map.insert("Alloy".to_string(), 0);
    map.insert("NOVA".to_string(), 4);
    let lower = lowercase_keys(&map);
    assert_eq!(lower.get("alloy"), Some(&0));
    assert_eq!(lower.get("nova"), Some(&4));
    assert_eq!(lower.get("NOVA"), None);
}

#[test]
fn lowercase_keys_later_entry_wins_on_collision() {
    let mut map = VoiceMap::new();
    map.insert("Echo".to_string(), 1);
    map.insert("ECHO".to_string(), 9);
    let lower = lowercase_keys(&map);
    assert_eq!(lower.get("echo"), Some(&9));
}
