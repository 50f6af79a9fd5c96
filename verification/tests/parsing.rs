use nilkit::colors::Colors;
use nilkit::cpu::{read_cpu_times, CpuSampler};
use nilkit::disk::{disk_bytes, DiskStat};
use nilkit::meminfo::{parse_kb, parse_meminfo};
use nilkit::sensors::{HwmonEntry, Sensor, TempReader};
use nilkit::text::{chars_of, parse_u64, split_lines, split_words, string_of, trimmed};
use nilkit::weather::weather_icon;

fn v(s: &str) -> Vec<char> {
    s.chars().collect()
}

#[test]
fn trim_removes_unicode_white_space() {
    let t = trimmed(&v("\u{3000} \t abc def \r\n\u{a0}"));
    assert_eq!(string_of(&t), "abc def");
    assert_eq!(string_of(&trimmed(&v("   "))), "");
}

#[test]
fn lines_follow_str_lines() {
    for text in ["", "a", "a\n", "a\r\nb", "a\n\nb\n", "\n", "x\r", "one\ntwo\r\nthree"] {
        let got: Vec<String> = split_lines(&v(text)).iter().map(|l| string_of(l)).collect();
        let want: Vec<String> = text.lines().map(|l| l.to_string()).collect();
        assert_eq!(got, want, "text {:?}", text);
    }
}

#[test]
fn words_follow_split_whitespace() {
    for text in ["", "  ", "a b", " cpu  1 2\t3 ", "x\u{2003}y"] {
        let got: Vec<String> = split_words(&v(text)).iter().map(|l| string_of(l)).collect();
        let want: Vec<String> = text.split_whitespace().map(|l| l.to_string()).collect();
        assert_eq!(got, want, "text {:?}", text);
    }
}

#[test]
fn parse_u64_follows_str_parse() {
    for text in [
        "0", "42", "+7", "-7", "+", "", "007", "18446744073709551615", "18446744073709551616",
        "12a", " 1", "99999999999999999999999",
    ] {
        assert_eq!(parse_u64(&v(text)), text.parse::<u64>().ok(), "text {:?}", text);
    }
}

#[test]
fn chars_round_trip() {
    let s = "zażółć 🌧️";
    assert_eq!(string_of(&chars_of(s)), s);
}

#[test]
fn weather_icons_by_code() {
    assert_eq!(weather_icon(0), "☀️");
    assert_eq!(weather_icon(1), "🌤️");
    assert_eq!(weather_icon(2), "⛅");
    assert_eq!(weather_icon(3), "☁️");
    assert_eq!(weather_icon(48), "🌫️");
    assert_eq!(weather_icon(53), "🌦️");
    assert_eq!(weather_icon(57), "🌧️");
    assert_eq!(weather_icon(65), "🌧️");
    assert_eq!(weather_icon(66), "🌨️");
    assert_eq!(weather_icon(75), "❄️");
    assert_eq!(weather_icon(77), "🌨️");
    assert_eq!(weather_icon(82), "🌧️");
    assert_eq!(weather_icon(86), "🌨️");
    assert_eq!(weather_icon(95), "⛈️");
    assert_eq!(weather_icon(99), "⛈️");
    assert_eq!(weather_icon(4), "❓");
    assert_eq!(weather_icon(255), "❓");
}

#[test]
fn colors_defaults() {
    let c = Colors::default();
    assert_eq!(c.bg, "#1a1a1a");
    assert_eq!(c.fg, "#e0e0e0");
    assert_eq!(c.accent, "#87d6bd");
    assert_eq!(c.surface, "#2a2a2a");
    assert_eq!(c.outline, "#444444");
}

#[test]
fn colors_parse_keys_comments_and_last_value() {
    let text = "# palette\nbg = #000000\n\n  fg=#ffffff  \nnot a pair\n#surface=#123456\naccent = #111\naccent = #222\nsurface = a=b\n";
    let c = Colors::parse(text);
    assert_eq!(c.bg, "#000000");
    assert_eq!(c.fg, "#ffffff");
    assert_eq!(c.accent, "#222");
    assert_eq!(c.surface, "a=b");
    assert_eq!(c.outline, "#444444");
}

#[test]
fn colors_parse_empty_gives_defaults() {
    let c = Colors::parse("");
    assert_eq!(c.bg, "#1a1a1a");
    assert_eq!(c.surface, "#2a2a2a");
}

#[test]
fn parse_kb_reads_first_word() {
    assert_eq!(parse_kb("   16318412 kB"), 16318412);
    assert_eq!(parse_kb(""), 0);
    assert_eq!(parse_kb("  kB"), 0);
    assert_eq!(parse_kb("+5"), 5);
}

#[test]
fn meminfo_totals() {
    let text = "MemTotal:       16318412 kB\nMemFree:         1234 kB\nMemAvailable:    8000000 kB\nMemTotal: 1 kB\n";
    let m = parse_meminfo(text);
    assert_eq!(m.total_kb, 16318412);
    assert_eq!(m.available_kb, 8000000);
}

#[test]
fn meminfo_missing_field_is_zero() {
    let m = parse_meminfo("MemTotal: 100 kB\nMemTotal: 200 kB\n");
    assert_eq!(m.total_kb, 200);
    assert_eq!(m.available_kb, 0);
}

#[test]
fn cpu_times_from_stat() {
    let text = "cpu  100 5 50 1000 20 3 4 0 0 0\ncpu0 1 2 3 4\n";
    assert_eq!(read_cpu_times(text), Some((1020, 1182)));
    assert_eq!(read_cpu_times("cpu  1 2 3 4\n"), Some((4, 10)));
    assert_eq!(read_cpu_times("cpu  1 2 3\n"), Some((0, 0)));
    assert_eq!(read_cpu_times("intr 1 2 3 4 5\n"), Some((0, 0)));
    assert_eq!(read_cpu_times(""), Some((0, 0)));
    assert_eq!(read_cpu_times("cpu 1 x 2 3 4"), Some((4, 10)));
}

#[test]
fn cpu_times_overflow_is_reported() {
    assert_eq!(read_cpu_times("cpu 18446744073709551615 1 1 1\n"), None);
}

#[test]
fn cpu_sampler_deltas() {
    let mut s = CpuSampler::new(100, 1000);
    let d = s.sample(150, 1100);
    assert_eq!((d.idle, d.total), (50, 100));
    let d = s.sample(140, 1200);
    assert_eq!((d.idle, d.total), (0, 100));
}

#[test]
fn disk_bytes_figures() {
    let d = disk_bytes(&DiskStat { frsize: 4096, blocks: 1000, bfree: 300, bavail: 250 }).unwrap();
    assert_eq!(d.total, 4_096_000);
    assert_eq!(d.available, 1_024_000);
    assert_eq!(d.used, 2_867_200);
    assert!(disk_bytes(&DiskStat { frsize: 1, blocks: 10, bfree: 11, bavail: 0 }).is_none());
    assert!(disk_bytes(&DiskStat { frsize: u64::MAX, blocks: 2, bfree: 0, bavail: 0 }).is_none());
}

#[test]
fn sensors_discovered_by_name() {
    let entries = vec![
        HwmonEntry { dir: "/sys/class/hwmon/hwmon0".to_string(), name: "acpitz\n".to_string() },
        HwmonEntry { dir: "/sys/class/hwmon/hwmon1".to_string(), name: "k10temp\n".to_string() },
        HwmonEntry { dir: "/sys/class/hwmon/hwmon2/".to_string(), name: " nvme ".to_string() },
        HwmonEntry { dir: "/sys/class/hwmon/hwmon3".to_string(), name: "k10temp".to_string() },
    ];
    let r = TempReader::discover(&entries).unwrap();
    assert_eq!(r.sensor_path(Sensor::Cpu).unwrap(), "/sys/class/hwmon/hwmon3/temp1_input");
    assert_eq!(r.sensor_path(Sensor::Nvme).unwrap(), "/sys/class/hwmon/hwmon2/temp1_input");
    assert!(r.sensor_path(Sensor::Gpu).is_none());
}

#[test]
fn sensors_need_cpu() {
    let entries = vec![HwmonEntry { dir: "/x".to_string(), name: "amdgpu".to_string() }];
    assert!(TempReader::discover(&entries).is_none());
    assert!(TempReader::discover(&vec![]).is_none());
}
