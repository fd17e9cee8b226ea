use library::toolkit::config::{parse_config_text, render_config_text, AppConfig, ConfigFields};

fn pairs(v: &[(&str, &str)]) -> Vec<(String, String)> {
    v.iter().map(|(k, w)| (k.to_string(), w.to_string())).collect()
}

#[test]
fn config_text_parses_key_value_lines() {
    let text = "# comment\n\n  theme :  dark \nnot a pair\nurl: http://x:80\r\n:empty key\n";
    assert_eq!(
        parse_config_text(text),
        pairs(&[("theme", "dark"), ("url", "http://x:80"), ("", "empty key")])
    );
    assert!(parse_config_text("").is_empty());
}

#[test]
fn config_render_writes_header_comments() {
    let text = render_config_text("Settings\n# already\n", &pairs(&[("a", "1"), ("b", "")]));
    assert_eq!(text, "# Settings\n# already\n\na: 1\nb: \n");
    assert_eq!(render_config_text("", &pairs(&[("k", "v")])), "k: v\n");
}

#[test]
fn config_saved_then_loaded_is_unchanged() {
    let entries = pairs(&[("accent", "#00f5ff"), ("speed", "3"), ("url", "a:b"), ("empty", "")]);
    let text = render_config_text("My app\n  second line  ", &entries);
    assert_eq!(parse_config_text(&text), entries);
}

#[derive(Default, Debug)]
struct Demo {
    speed: u32,
    name: String,
}

impl ConfigFields for Demo {
    fn parse_field(&mut self, key: &str, val: &str) {
        match key {
            "speed" => self.speed = val.parse().unwrap_or(0),
            "name" => self.name = val.to_string(),
            _ => {}
        }
    }
    fn serialize_fields(&self) -> Vec<(String, String)> {
        vec![("speed".to_string(), self.speed.to_string()), ("name".to_string(), self.name.clone())]
    }
}

#[test]
fn app_config_round_trip_through_fields() {
    let cfg: AppConfig<Demo> = AppConfig::from_text("speed: 4\nname: cosmos\n");
    assert_eq!(cfg.fields.speed, 4);
    assert_eq!(cfg.fields.name, "cosmos");
    let text = cfg.to_text("header");
    assert_eq!(text, "# header\n\nspeed: 4\nname: cosmos\n");
    let again: AppConfig<Demo> = AppConfig::from_text(&text);
    assert_eq!(again.fields.speed, 4);
    assert_eq!(again.fields.name, "cosmos");
}

#[test]
fn config_load_save_load_is_stable() {
    let text = "  key with spaces  :  v: w  \n#x\n===: y\nk:\n";
    let first = parse_config_text(text);
    assert_eq!(first, pairs(&[("key with spaces", "v: w"), ("===", "y"), ("k", "")]));
    let saved = render_config_text("h", &first);
    assert_eq!(parse_config_text(&saved), first);
}
