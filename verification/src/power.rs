//! The power menu: its three actions and how keys move between them.
use vstd::prelude::*;
use crate::text::{chars_of, string_of, trimmed, trim};

verus! {

/// Number of actions in the menu.
pub const ACTION_COUNT: usize = 3;

/// The label of the `i`-th action.
pub open spec fn label_spec(i: int) -> Seq<char> {
    if i == 0 {
        "Shutdown"@
    } else if i == 1 {
        "Reboot"@
    } else {
        "Lock"@
    }
}

/// The command line of the `i`-th action.
pub open spec fn command_spec(i: int) -> Seq<Seq<char>> {
    if i == 0 {
        seq!["systemctl"@, "poweroff"@]
    } else if i == 1 {
        seq!["systemctl"@, "reboot"@]
    } else {
        seq!["hyprlock"@]
    }
}

/// The label of the `i`-th action.
pub fn action_label(i: usize) -> (l: &'static str)
    requires
        i < ACTION_COUNT,
    ensures
        l@ == label_spec(i as int),
{
    if i == 0 {
        "Shutdown"
    } else if i == 1 {
        "Reboot"
    } else {
        "Lock"
    }
}

/// The command line the `i`-th action runs: the program, then its arguments.
pub fn action_command(i: usize) -> (c: Vec<&'static str>)
    requires
        i < ACTION_COUNT,
    ensures
        c@.len() == command_spec(i as int).len(),
        forall|j: int| 0 <= j < c@.len() ==> (#[trigger] c@[j])@ == command_spec(i as int)[j],
{
    let mut c: Vec<&'static str> = Vec::new();
    if i == 0 {
        c.push("systemctl");
        c.push("poweroff");
    } else if i == 1 {
        c.push("systemctl");
        c.push("reboot");
    } else {
        c.push("hyprlock");
    }
    c
}

fn str_eq(a: &str, b: &str) -> (r: bool)
    ensures
        r == (a@ == b@),
{
    let n = a.unicode_len();
    if n != b.unicode_len() {
        return false;
    }
    let mut i: usize = 0;
    while i < n
        invariant
            n == a@.len() == b@.len(),
            i <= n,
            a@.subrange(0, i as int) == b@.subrange(0, i as int),
        decreases n - i,
    {
        if a.get_char(i) != b.get_char(i) {
            proof {
                assert(a@.subrange(0, n as int)[i as int] != b@.subrange(0, n as int)[i as int]);
                assert(a@.subrange(0, n as int) =~= a@);
                assert(b@.subrange(0, n as int) =~= b@);
            }
            return false;
        }
        i = i + 1;
        assert(a@.subrange(0, i as int) =~= b@.subrange(0, i as int));
    }
    assert(a@.subrange(0, n as int) =~= a@);
    assert(b@.subrange(0, n as int) =~= b@);
    true
}

/// The action a button click runs, found from the button's command line:
/// `systemctl poweroff` is the first, another `systemctl` the second, and
/// anything else the third.
pub fn clicked_action(i: usize) -> (k: usize)
    requires
        i < ACTION_COUNT,
    ensures
        k == i,
{
    let cmd = action_command(i);
    proof {
        reveal_strlit("systemctl");
        reveal_strlit("poweroff");
        reveal_strlit("reboot");
        reveal_strlit("hyprlock");
        assert("hyprlock"@.len() == 8);
        assert("systemctl"@.len() == 9);
        assert("reboot"@.len() == 6);
        assert("poweroff"@.len() == 8);
        assert("hyprlock"@ != "systemctl"@);
        assert("reboot"@ != "poweroff"@);
    }
    if str_eq(cmd[0], "systemctl") {
        if str_eq(cmd[1], "poweroff") {
            0
        } else {
            1
        }
    } else {
        2
    }
}

/// A key, as the power menu tells keys apart.
#[derive(Clone, Copy, PartialEq, Eq, Structural, Debug)]
pub enum PowerKey {
    Escape,
    /// Return or keypad Enter.
    Enter,
    /// `s`.
    Shutdown,
    /// `r`.
    Reboot,
    /// `l`.
    Lock,
    /// Left or `h`.
    Left,
    /// Right.
    Right,
    Other,
}

/// What a key press does in the power menu.
#[derive(Clone, Copy, PartialEq, Eq, Structural, Debug)]
pub enum PowerResponse {
    /// Close the menu.
    Close,
    /// Run this action and close the menu.
    Run(usize),
    /// Select this action; the key is consumed.
    Select(usize),
    /// Consume the key and do nothing.
    Stay,
    /// Let the key go on.
    Proceed,
}

/// The response to `key` with action `selected` highlighted.
pub open spec fn power_key_spec(selected: usize, key: PowerKey) -> PowerResponse {
    match key {
        PowerKey::Escape => PowerResponse::Close,
        PowerKey::Enter => PowerResponse::Run(selected),
        PowerKey::Shutdown => PowerResponse::Run(0),
        PowerKey::Reboot => PowerResponse::Run(1),
        PowerKey::Lock => PowerResponse::Run(2),
        PowerKey::Left => if selected > 0 {
            PowerResponse::Select((selected - 1) as usize)
        } else {
            PowerResponse::Stay
        },
        PowerKey::Right => if selected < ACTION_COUNT - 1 {
            PowerResponse::Select((selected + 1) as usize)
        } else {
            PowerResponse::Stay
        },
        PowerKey::Other => PowerResponse::Proceed,
    }
}

/// Decides what a key press does.
pub fn power_key(selected: usize, key: PowerKey) -> (r: PowerResponse)
    requires
        selected < ACTION_COUNT,
    ensures
        r == power_key_spec(selected, key),
{
    match key {
        PowerKey::Escape => PowerResponse::Close,
        PowerKey::Enter => PowerResponse::Run(selected),
        PowerKey::Shutdown => PowerResponse::Run(0),
        PowerKey::Reboot => PowerResponse::Run(1),
        PowerKey::Lock => PowerResponse::Run(2),
        PowerKey::Left => {
            if selected > 0 {
                PowerResponse::Select(selected - 1)
            } else {
                PowerResponse::Stay
            }
        },
        PowerKey::Right => {
            if selected < ACTION_COUNT - 1 {
                PowerResponse::Select(selected + 1)
            } else {
                PowerResponse::Stay
            }
        },
        PowerKey::Other => PowerResponse::Proceed,
    }
}

/// Keys never take the menu outside its actions: every action run or
/// selected from a valid selection is one of the three.
pub proof fn lemma_power_key_in_range(selected: usize, key: PowerKey)
    requires
        selected < ACTION_COUNT,
    ensures
        power_key_spec(selected, key) matches PowerResponse::Run(k) ==> k < ACTION_COUNT,
        power_key_spec(selected, key) matches PowerResponse::Select(k) ==> k < ACTION_COUNT,
{
}

/// The arrow keys move the highlight by exactly one button: Left to the
/// button before (and nowhere from the first), Right to the button after
/// (and nowhere from the last); Left after Right, and Right after Left, come
/// back to where they started.
pub proof fn lemma_arrows_move_by_one(selected: usize)
    requires
        selected < ACTION_COUNT,
    ensures
        selected > 0 ==> power_key_spec(selected, PowerKey::Left) == PowerResponse::Select(
            (selected - 1) as usize,
        ),
        selected == 0 ==> power_key_spec(selected, PowerKey::Left) == PowerResponse::Stay,
        selected + 1 < ACTION_COUNT ==> power_key_spec(selected, PowerKey::Right)
            == PowerResponse::Select((selected + 1) as usize),
        selected + 1 == ACTION_COUNT ==> power_key_spec(selected, PowerKey::Right)
            == PowerResponse::Stay,
        forall|k: usize|
            power_key_spec(selected, PowerKey::Right) == PowerResponse::Select(k) ==> k < ACTION_COUNT
                && power_key_spec(k, PowerKey::Left) == PowerResponse::Select(selected),
        forall|k: usize|
            power_key_spec(selected, PowerKey::Left) == PowerResponse::Select(k) ==> power_key_spec(
                k,
                PowerKey::Right,
            ) == PowerResponse::Select(selected),
{
}

/// The wallpaper path in the output of the wallpaper query: the output
/// trimmed, unless that is empty.
pub open spec fn query_path_spec(output: Seq<char>) -> Option<Seq<char>> {
    if trim(output).len() == 0 {
        None
    } else {
        Some(trim(output))
    }
}

/// Reads the wallpaper path out of the query's output.
pub fn wallpaper_from_query(output: &str) -> (r: Option<String>)
    ensures
        r matches Some(p) ==> query_path_spec(output@) == Some(p@),
        r is None ==> query_path_spec(output@) is None,
{
    let chars = chars_of(output);
    let t = trimmed(&chars);
    if t.len() == 0 {
        None
    } else {
        Some(string_of(&t))
    }
}

/// Whether `args` hold `--daemon`.
pub open spec fn has_daemon_flag(args: Seq<String>) -> bool {
    exists|i: int| 0 <= i < args.len() && (#[trigger] args[i])@ == "--daemon"@
}

/// Splits the command line into the daemon flag and the other arguments.
pub fn split_daemon_flag(args: &Vec<String>) -> (r: (bool, Vec<String>))
    ensures
        r.0 == has_daemon_flag(args@),
        r.1@ == args@.filter(|a: String| a@ != "--daemon"@),
{
    let mut daemon = false;
    let mut rest: Vec<String> = Vec::new();
    let mut i: usize = 0;
    while i < args.len()
        invariant
            i <= args.len(),
            daemon == exists|j: int| 0 <= j < i && (#[trigger] args@[j])@ == "--daemon"@,
            rest@ == args@.take(i as int).filter(|a: String| a@ != "--daemon"@),
        decreases args.len() - i,
    {
        let is_flag = str_eq(args[i].as_str(), "--daemon");
        proof {
            reveal_with_fuel(Seq::<_>::filter, 1);
            assert(args@.take(i + 1).drop_last() =~= args@.take(i as int));
        }
        if is_flag {
            daemon = true;
        } else {
            rest.push(args[i].clone());
        }
        i = i + 1;
    }
    proof {
        assert(args@.take(args.len() as int) =~= args@);
    }
    (daemon, rest)
}

} // verus!
