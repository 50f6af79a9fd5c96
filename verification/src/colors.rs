//! The notification palette and its `key = value` configuration format.
use vstd::prelude::*;
use crate::text::{chars_of, lines, split_lines, split_once, split_once_spec, string_of, trim, trimmed, eq_str};

verus! {

/// The colours a notification is drawn with.
#[derive(Clone, Debug)]
pub struct Colors {
    pub bg: String,
    pub fg: String,
    pub accent: String,
    pub surface: String,
    pub outline: String,
}

/// Default background colour.
pub open spec fn default_bg() -> Seq<char> {
    "#1a1a1a"@
}

/// Default foreground colour.
pub open spec fn default_fg() -> Seq<char> {
    "#e0e0e0"@
}

/// Default accent colour.
pub open spec fn default_accent() -> Seq<char> {
    "#87d6bd"@
}

/// Default surface colour.
pub open spec fn default_surface() -> Seq<char> {
    "#2a2a2a"@
}

/// Default outline colour.
pub open spec fn default_outline() -> Seq<char> {
    "#444444"@
}

impl Default for Colors {
    fn default() -> (c: Self)
        ensures
            c.bg@ == default_bg(),
            c.fg@ == default_fg(),
            c.accent@ == default_accent(),
            c.surface@ == default_surface(),
            c.outline@ == default_outline(),
    {
        Colors {
            bg: String::from_str("#1a1a1a"),
            fg: String::from_str("#e0e0e0"),
            accent: String::from_str("#87d6bd"),
            surface: String::from_str("#2a2a2a"),
            outline: String::from_str("#444444"),
        }
    }
}

/// The `(key, value)` pair a configuration line holds: blank lines and lines
/// starting with `#` hold none, nor does a line without `=`; key and value
/// are trimmed.
pub open spec fn config_entry(line: Seq<char>) -> Option<(Seq<char>, Seq<char>)> {
    let l = trim(line);
    if l.len() == 0 || l[0] == '#' {
        None
    } else {
        match split_once_spec(l, '=') {
            Some(kv) => Some((trim(kv.0), trim(kv.1))),
            None => None,
        }
    }
}

/// The value of the last line among `ls` that sets `key`.
pub open spec fn config_lookup(ls: Seq<Seq<char>>, key: Seq<char>) -> Option<Seq<char>>
    decreases ls.len(),
{
    if ls.len() == 0 {
        None
    } else {
        match config_entry(ls.last()) {
            Some(kv) => if kv.0 == key {
                Some(kv.1)
            } else {
                config_lookup(ls.drop_last(), key)
            },
            None => config_lookup(ls.drop_last(), key),
        }
    }
}

/// The value that `content` gives `key`, or `default` when no line sets it.
pub open spec fn config_value(content: Seq<char>, key: Seq<char>, default: Seq<char>) -> Seq<
    char,
> {
    match config_lookup(lines(content), key) {
        Some(v) => v,
        None => default,
    }
}

/// The entry of one configuration line.
pub fn parse_entry(line: &Vec<char>) -> (r: Option<(Vec<char>, Vec<char>)>)
    ensures
        r matches Some(kv) ==> config_entry(line@) == Some((kv.0@, kv.1@)),
        r is None ==> config_entry(line@) is None,
{
    let l = trimmed(line);
    if l.len() == 0 || l[0] == '#' {
        return None;
    }
    match split_once(&l, '=') {
        Some((k, v)) => Some((trimmed(&k), trimmed(&v))),
        None => None,
    }
}

fn update(slot: &mut Option<Vec<char>>, key: &Vec<char>, value: &Vec<char>, name: &str)
    ensures
        key@ == name@ ==> found_view(*final(slot)) == Some(value@),
        key@ != name@ ==> *final(slot) == *old(slot),
{
    if eq_str(key, name) {
        *slot = Some(value.clone());
    }
}

/// The value found so far, viewed as characters.
pub open spec fn found_view(o: Option<Vec<char>>) -> Option<Seq<char>> {
    match o {
        Some(v) => Some(v@),
        None => None,
    }
}

fn finish(found: Option<Vec<char>>, default: &str) -> (s: String)
    ensures
        s@ == (match found_view(found) {
            Some(v) => v,
            None => default@,
        }),
{
    match found {
        Some(v) => string_of(&v),
        None => String::from_str(default),
    }
}

impl Colors {
    /// Reads a palette from the text of a `key = value` file; a key that no
    /// line sets keeps its default, and a key set twice takes its last value.
    pub fn parse(content: &str) -> (c: Colors)
        ensures
            c.bg@ == config_value(content@, "bg"@, default_bg()),
            c.fg@ == config_value(content@, "fg"@, default_fg()),
            c.accent@ == config_value(content@, "accent"@, default_accent()),
            c.surface@ == config_value(content@, "surface"@, default_surface()),
            c.outline@ == config_value(content@, "outline"@, default_outline()),
    {
        let chars = chars_of(content);
        let ls = split_lines(&chars);
        let ghost all = lines(content@);
        let mut bg: Option<Vec<char>> = None;
        let mut fg: Option<Vec<char>> = None;
        let mut accent: Option<Vec<char>> = None;
        let mut surface: Option<Vec<char>> = None;
        let mut outline: Option<Vec<char>> = None;
        let mut i: usize = 0;
        while i < ls.len()
            invariant
                ls.len() == all.len(),
                forall|j: int| 0 <= j < ls.len() ==> (#[trigger] ls[j])@ == all[j],
                i <= ls.len(),
                found_view(bg) == config_lookup(all.take(i as int), "bg"@),
                found_view(fg) == config_lookup(all.take(i as int), "fg"@),
                found_view(accent) == config_lookup(all.take(i as int), "accent"@),
                found_view(surface) == config_lookup(all.take(i as int), "surface"@),
                found_view(outline) == config_lookup(all.take(i as int), "outline"@),
            decreases ls.len() - i,
        {
            let ghost next = all.take(i + 1);
            proof {
                assert(next.drop_last() =~= all.take(i as int));
                assert(next.last() == ls[i as int]@);
            }
            match parse_entry(&ls[i]) {
                Some((k, v)) => {
                    update(&mut bg, &k, &v, "bg");
                    update(&mut fg, &k, &v, "fg");
                    update(&mut accent, &k, &v, "accent");
                    update(&mut surface, &k, &v, "surface");
                    update(&mut outline, &k, &v, "outline");
                },
                None => {},
            }
            i = i + 1;
        }
        proof {
            assert(all.take(ls.len() as int) =~= all);
        }
        Colors {
            bg: finish(bg, "#1a1a1a"),
            fg: finish(fg, "#e0e0e0"),
            accent: finish(accent, "#87d6bd"),
            surface: finish(surface, "#2a2a2a"),
            outline: finish(outline, "#444444"),
        }
    }
}

} // verus!
