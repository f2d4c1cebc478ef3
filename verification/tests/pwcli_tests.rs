use irate_goose::pwcli::{filter_audio_sinks, parse_pwcli_output, PwObject};

#[test]
fn test_parse_pwcli_output() {
    let input = r#"id 0, type PipeWire:Interface:Core/4
                object.serial = "0"
                core.name = "pipewire-0"
            id 36, type PipeWire:Interface:Node/3
                object.serial = "36"
                factory.id = "19"
                media.class = "Audio/Sink"
                node.name = "effect_input.virtual-surround-7.1-buttface"
            id 37, type PipeWire:Interface:Node/3
                object.serial = "37"
                media.class = "Stream/Output/Audio""#;

    let result = parse_pwcli_output(input);
    assert_eq!(result.len(), 3);

    let first = &result[0];
    assert_eq!(first.get("id"), Some(&"0".to_string()));
    assert_eq!(
        first.get("type"),
        Some(&"PipeWire:Interface:Core/4".to_string())
    );
    assert_eq!(first.get("object.serial"), Some(&"0".to_string()));
    assert_eq!(first.get("core.name"), Some(&"pipewire-0".to_string()));

    let second = &result[1];
    assert_eq!(second.get("media.class"), Some(&"Audio/Sink".to_string()));
    assert_eq!(
        second.get("node.name"),
        Some(&"effect_input.virtual-surround-7.1-buttface".to_string())
    );

    let third = &result[2];
    assert_eq!(
        third.get("media.class"),
        Some(&"Stream/Output/Audio".to_string())
    );
}

#[test]
fn test_parse_without_quotes() {
    let input = r#"id 99, type Test
                key = value
                quoted = "value with spaces""#;
    let result = parse_pwcli_output(input);
    let obj = &result[0];
    assert_eq!(obj.get("key"), Some(&"value".to_string()));
    assert_eq!(obj.get("quoted"), Some(&"value with spaces".to_string()));
}

#[test]
fn test_filter_audio_sinks() {
    let mut dev1 = PwObject::new();
    dev1.insert("id".to_string(), "36".to_string());
    dev1.insert("media.class".to_string(), "Audio/Sink".to_string());
    let mut dev2 = PwObject::new();
    dev2.insert("id".to_string(), "37".to_string());
    dev2.insert("media.class".to_string(), "Stream/Output/Audio".to_string());
    let mut dev3 = PwObject::new();
    dev3.insert("id".to_string(), "38".to_string());
    // no media.class

    let devices = vec![dev1, dev2, dev3];
    let filtered = filter_audio_sinks(&devices);
    assert_eq!(filtered.len(), 1);
    assert_eq!(filtered[0].get("id"), Some(&"36".to_string()));
}

#[test]
fn test_filter_skips_own_virtual_device() {
    let mut own = PwObject::new();
    own.insert("media.class".to_string(), "Audio/Sink".to_string());
    own.insert(
        "node.name".to_string(),
        "effect_input.virtual-surround-7.1-irategoose".to_string(),
    );
    let mut other = PwObject::new();
    other.insert("media.class".to_string(), "Audio/Sink".to_string());
    other.insert("node.name".to_string(), "alsa_output.hdmi".to_string());
    let filtered = filter_audio_sinks(&vec![own, other]);
    assert_eq!(filtered.len(), 1);
    assert_eq!(filtered[0].get("node.name"), Some(&"alsa_output.hdmi".to_string()));
}

#[test]
fn test_repeated_key_reads_last_value() {
    let mut obj = PwObject::new();
    obj.insert("k".to_string(), "first".to_string());
    obj.insert("k".to_string(), "second".to_string());
    assert_eq!(obj.get("k"), Some(&"second".to_string()));
    assert_eq!(obj.get("missing"), None);
}
