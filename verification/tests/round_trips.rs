use omp_config::json_text::{from_value, into_value};
use omp_config::models::{read_models_document_with_revision, write_models_document};
use omp_config::yaml_text::{from_yaml_value, into_yaml_value, read_yaml, write_yaml};
use serde_yaml::value::{Tag, TaggedValue};

const CHARACTERS: [char; 48] = [
    'a', 'b', 'e', 'x', '0', '1', ' ', '\n', '\r', '\t', '\0', '\u{7f}', '\u{85}', '\u{a0}',
    '\u{2028}', '\u{2029}', '\u{3000}', '\u{e000}', '\u{feff}', '\u{fffe}', 'é', '😀', ':', '#', '-', '\'',
    '"', '\\', '.', '!', '?', '[', ']', '{', '}', '&', '*', '~', '%', '@', '|', '>', ',', '=',
    '<', '`', '/', '+',
];

struct Choices(u64);

impl Choices {
    fn below(&mut self, n: usize) -> usize {
        self.0 = self.0.wrapping_mul(6364136223846793005).wrapping_add(1442695040888963407);
        (self.0 >> 33) as usize % n
    }

    fn bits(&mut self) -> u64 {
        ((self.below(1 << 31) as u64) << 33) | self.below(1 << 31) as u64
    }

    fn text(&mut self) -> String {
        let length = if self.below(30) == 0 { 150 } else { self.below(6) };
        (0..length).map(|_| CHARACTERS[self.below(CHARACTERS.len())]).collect()
    }

    fn tag(&mut self) -> Tag {
        let mut text = self.text();
        if text.is_empty() {
            text.push('!');
        }
        Tag::new(text)
    }

    fn yaml(&mut self, depth: usize) -> serde_yaml::Value {
        match self.below(if depth == 0 { 6 } else { 10 }) {
            0 => serde_yaml::Value::Null,
            1 => serde_yaml::Value::Bool(self.below(2) == 0),
            2 => serde_yaml::Value::Number((self.bits() as i64).into()),
            3 => serde_yaml::Value::Number(f64::from_bits(self.bits()).into()),
            4 | 5 => serde_yaml::Value::String(self.text()),
            6 | 7 => {
                let length = self.below(4);
                (0..length).map(|_| self.yaml(depth - 1)).collect()
            }
            8 => {
                let length = self.below(4);
                let entries: serde_yaml::Mapping =
                    (0..length).map(|_| (self.yaml(depth - 1), self.yaml(depth - 1))).collect();
                serde_yaml::Value::Mapping(entries)
            }
            _ => {
                let (tag, value) = (self.tag(), self.yaml(depth - 1));
                serde_yaml::Value::Tagged(Box::new(TaggedValue { tag, value }))
            }
        }
    }

    fn json(&mut self, depth: usize) -> serde_json::Value {
        match self.below(if depth == 0 { 7 } else { 10 }) {
            0 => serde_json::Value::Null,
            1 => serde_json::Value::Bool(self.below(2) == 0),
            2 => serde_json::Value::from(self.bits() as i64),
            3 => serde_json::Value::from(
                [self.bits(), i64::MAX as u64, i64::MAX as u64 + 1][self.below(3)],
            ),
            4 => serde_json::Value::from(f64::from_bits(self.bits())),
            5 | 6 => serde_json::Value::String(self.text()),
            7 | 8 => {
                let length = self.below(4);
                (0..length).map(|_| self.json(depth - 1)).collect()
            }
            _ => {
                let length = self.below(4);
                (0..length).map(|_| (self.text(), self.json(depth - 1))).collect()
            }
        }
    }
}

fn yaml_safe(value: &serde_yaml::Value, tagged: bool) -> bool {
    match value {
        serde_yaml::Value::Sequence(items) => items.iter().all(|item| yaml_safe(item, false)),
        serde_yaml::Value::Mapping(entries) => {
            let lone = |key: &serde_yaml::Value| match key {
                serde_yaml::Value::Tagged(_) => false,
                serde_yaml::Value::Mapping(entries) => entries.len() != 1,
                _ => true,
            };
            entries.iter().all(|(key, value)| yaml_safe(key, false) && yaml_safe(value, false))
                && (tagged || entries.len() != 1 || entries.keys().all(lone))
        }
        serde_yaml::Value::Tagged(inner) => {
            let shown = inner.tag.to_string();
            let tag = &shown[1..];
            !tagged
                && (tag == "!" || !tag.starts_with('!'))
                && !tag.contains(['\0', ',', '[', ']'])
                && yaml_safe(&inner.value, true)
        }
        _ => true,
    }
}

fn plain_tags(value: &serde_yaml::Value, tagged: bool) -> bool {
    match value {
        serde_yaml::Value::Sequence(items) => items.iter().all(|item| plain_tags(item, false)),
        serde_yaml::Value::Mapping(entries) => {
            entries.iter().all(|(key, value)| plain_tags(key, false) && plain_tags(value, false))
        }
        serde_yaml::Value::Tagged(inner) => {
            let shown = inner.tag.to_string();
            let tag = &shown[1..];
            !tagged
                && (tag == "!" || !tag.starts_with('!'))
                && !tag.contains('\0')
                && plain_tags(&inner.value, true)
        }
        _ => true,
    }
}

fn json5_safe(value: &serde_json::Value) -> bool {
    let text = |s: &str| !s.contains(['\u{2028}', '\u{2029}']);
    match value {
        serde_json::Value::Number(n) => n.as_u64().map_or(true, |n| n <= i64::MAX as u64),
        serde_json::Value::String(s) => text(s),
        serde_json::Value::Array(items) => items.iter().all(json5_safe),
        serde_json::Value::Object(entries) => {
            entries.iter().all(|(key, value)| text(key) && json5_safe(value))
        }
        _ => true,
    }
}

#[test]
fn exactly_the_safe_yaml_values_are_read_back() {
    let mut choices = Choices(1);
    for _ in 0..40000 {
        let value = choices.yaml(4);
        let text = write_yaml(from_yaml_value(value.clone()));
        let back = text.clone().and_then(|text| read_yaml(&text)).map(into_yaml_value);
        let read = back.is_ok();
        let same = back.map_or(false, |back| format!("{back:?}") == format!("{value:?}"));
        assert_eq!(same, yaml_safe(&value, false), "{value:?} {text:?}");
        assert!(same || !read || !plain_tags(&value, false), "{value:?} {text:?}");
        if let (serde_yaml::Value::Mapping(_), Ok(text)) = (&value, &text) {
            assert!(!text.trim().is_empty(), "{value:?}");
        }
    }
}

#[test]
fn exactly_the_safe_json_values_are_read_back() {
    let mut choices = Choices(2);
    for _ in 0..20000 {
        let value = choices.json(4);
        let write = write_models_document(from_value(value.clone()), "missing".to_string())
            .expect("every value is written");
        assert_eq!(
            write.bytes,
            format!("{}\n", serde_json::to_string_pretty(&value).expect("JSON")).into_bytes()
        );
        let back = read_models_document_with_revision(Some(write.bytes), "/m");
        let same =
            back.map_or(false, |(back, _)| format!("{:?}", into_value(back)) == format!("{value:?}"));
        assert_eq!(same, json5_safe(&value), "{value:?}");
    }
}
