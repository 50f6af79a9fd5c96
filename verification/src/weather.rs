use vstd::prelude::*;

verus! {

/// The icon shown for a WMO weather code.
pub open spec fn weather_icon_text(code: u8) -> Seq<char> {
    if code == 0 {
        "☀️"@
    } else if code == 1 {
        "🌤️"@
    } else if code == 2 {
        "⛅"@
    } else if code == 3 {
        "☁️"@
    } else if code == 45 || code == 48 {
        "🌫️"@
    } else if code == 51 || code == 53 || code == 55 {
        "🌦️"@
    } else if code == 56 || code == 57 {
        "🌧️"@
    } else if code == 61 || code == 63 || code == 65 {
        "🌧️"@
    } else if code == 66 || code == 67 {
        "🌨️"@
    } else if code == 71 || code == 73 || code == 75 {
        "❄️"@
    } else if code == 77 {
        "🌨️"@
    } else if code == 80 || code == 81 || code == 82 {
        "🌧️"@
    } else if code == 85 || code == 86 {
        "🌨️"@
    } else if code == 95 {
        "⛈️"@
    } else if code == 96 || code == 99 {
        "⛈️"@
    } else {
        "❓"@
    }
}

/// Maps a WMO weather code to an emoji.
pub fn weather_icon(code: u8) -> (icon: &'static str)
    ensures
        icon@ == weather_icon_text(code),
{
    match code {
        0 => "☀️",
        1 => "🌤️",
        2 => "⛅",
        3 => "☁️",
        45 | 48 => "🌫️",
        51 | 53 | 55 => "🌦️",
        56 | 57 => "🌧️",
        61 | 63 | 65 => "🌧️",
        66 | 67 => "🌨️",
        71 | 73 | 75 => "❄️",
        77 => "🌨️",
        80 | 81 | 82 => "🌧️",
        85 | 86 => "🌨️",
        95 => "⛈️",
        96 | 99 => "⛈️",
        _ => "❓",
    }
}

/// The WMO codes that have an icon of their own.
pub open spec fn known_weather_code(code: u8) -> bool {
    code == 0 || code == 1 || code == 2 || code == 3 || code == 45 || code == 48 || code == 51
        || code == 53 || code == 55 || code == 56 || code == 57 || code == 61 || code == 63
        || code == 65 || code == 66 || code == 67 || code == 71 || code == 73 || code == 75
        || code == 77 || code == 80 || code == 81 || code == 82 || code == 85 || code == 86
        || code == 95 || code == 96 || code == 99
}

/// The question mark is shown exactly for the codes without an icon, and the
/// codes of one WMO group share one icon.
pub proof fn lemma_weather_icons(code: u8)
    ensures
        weather_icon_text(code) == "❓"@ <==> !known_weather_code(code),
        code == 48 ==> weather_icon_text(code) == weather_icon_text(45),
        code == 53 || code == 55 ==> weather_icon_text(code) == weather_icon_text(51),
        code == 57 ==> weather_icon_text(code) == weather_icon_text(56),
        code == 63 || code == 65 ==> weather_icon_text(code) == weather_icon_text(61),
        code == 67 ==> weather_icon_text(code) == weather_icon_text(66),
        code == 73 || code == 75 ==> weather_icon_text(code) == weather_icon_text(71),
        code == 81 || code == 82 ==> weather_icon_text(code) == weather_icon_text(80),
        code == 86 ==> weather_icon_text(code) == weather_icon_text(85),
        code == 96 || code == 99 ==> weather_icon_text(code) == weather_icon_text(95),
{
    reveal_strlit("❓");
    reveal_strlit("☀️");
    reveal_strlit("🌤️");
    reveal_strlit("⛅");
    reveal_strlit("☁️");
    reveal_strlit("🌫️");
    reveal_strlit("🌦️");
    reveal_strlit("🌧️");
    reveal_strlit("🌨️");
    reveal_strlit("❄️");
    reveal_strlit("⛈️");
    if known_weather_code(code) {
        assert(weather_icon_text(code)[0] != "❓"@[0]);
    }
}

} // verus!
