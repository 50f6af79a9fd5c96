use std::sync::mpsc;

use chrono::{Datelike, NaiveDate};
use nilkit::calendar::{calendar_refresh, day_headers, month_grid, Day, MAX_YEAR, MIN_YEAR};
use nilkit::clock::{clock_text, month_title};
use nilkit::colors::Colors;
use nilkit::greeter::{
    auth_step, is_control, password_key, pick_username, session_command, AuthAction, AuthError,
    AuthEvent, AuthKind, AuthPhase, GreetRequest, GreetResponse, HomeEntry, PasswordAction,
    PasswordKey,
};
use nilkit::notify::{id_of_counter, make_request, NotificationServer, NotifyHints};
use nilkit::picker::{
    load_wanted, next_generation, handle_key, lock_path, move_target, socket_path, KeyResponse, Msg, Page, PickerAction,
    PickerKey, PickerState, Target,
};
use nilkit::power::{
    action_command, action_label, clicked_action, power_key, split_daemon_flag,
    wallpaper_from_query, PowerKey, PowerResponse,
};
use nilkit::stack::{
    dismiss_timeout_ms, notification_css, window_height, AddOutcome, NotifyData, Stack,
    MAX_VISIBLE,
};
use nilkit::text::to_decimal;
use nilkit::wallpaper::{select_wallpapers, DirItem};

fn data(id: u32, body: &str) -> NotifyData {
    NotifyData {
        id,
        summary: format!("s{}", id),
        body: body.to_string(),
        icon: String::new(),
        urgency: 1,
    }
}

fn shown_margin(o: AddOutcome) -> Option<(u32, i32)> {
    match o {
        AddOutcome::Show(w) => Some((w.data.id, w.margin_top)),
        AddOutcome::Queued => None,
    }
}

#[test]
fn stack_places_windows_below_each_other() {
    let mut s = Stack::new(Colors::default());
    assert_eq!(shown_margin(s.add(data(1, ""))), Some((1, 4)));
    assert_eq!(shown_margin(s.add(data(2, "body"))), Some((2, 38)));
    assert_eq!(shown_margin(s.add(data(3, ""))), Some((3, 87)));
    assert_eq!(shown_margin(s.add(data(4, ""))), Some((4, 121)));
}

#[test]
fn stack_queues_beyond_max_visible_and_promotes_in_order() {
    let mut s = Stack::new(Colors::default());
    for id in 1..=MAX_VISIBLE as u32 {
        assert!(shown_margin(s.add(data(id, ""))).is_some());
    }
    assert!(shown_margin(s.add(data(5, "b"))).is_none());
    assert!(shown_margin(s.add(data(6, ""))).is_none());
    let out = s.remove(2);
    assert_eq!(out.removed, Some(1));
    assert_eq!(out.margins, vec![4, 38, 72]);
    let w = out.shown.unwrap();
    assert_eq!((w.data.id, w.margin_top), (5, 106));
    let out = s.remove(1);
    assert_eq!(out.removed, Some(0));
    assert_eq!(out.margins, vec![4, 38, 72]);
    assert_eq!(out.shown.unwrap().data.id, 6);
    let out = s.remove(3);
    assert_eq!(out.removed, Some(0));
    assert!(out.shown.is_none());
}

#[test]
fn stack_remove_unknown_id_changes_nothing() {
    let mut s = Stack::new(Colors::default());
    s.add(data(1, ""));
    let out = s.remove(9);
    assert_eq!(out.removed, None);
    assert!(out.margins.is_empty());
    assert!(out.shown.is_none());
    assert_eq!(s.remove(1).removed, Some(0));
}

#[test]
fn stack_ids_wrap_to_one() {
    let mut s = Stack::new(Colors::default());
    assert_eq!(s.next_id(), 1);
    assert_eq!(s.next_id(), 2);
}

#[test]
fn stack_push_request_numbers_requests() {
    let mut s = Stack::new(Colors::default());
    let hints = NotifyHints { urgency: None, image_path: None };
    let req = make_request("app", 0, "", "hello", "", hints, -1);
    match s.push_request(req) {
        AddOutcome::Show(w) => {
            assert_eq!(w.data.id, 1);
            assert_eq!(w.data.summary, "hello");
            assert_eq!(w.data.urgency, 1);
            assert_eq!(w.margin_top, 4);
        }
        AddOutcome::Queued => panic!("expected a window"),
    }
}

#[test]
fn stack_reload_colors_replaces_palette() {
    let mut s = Stack::new(Colors::default());
    s.reload_colors(Colors::parse("bg = #010101\n"));
    assert_eq!(s.palette().bg, "#010101");
}

#[test]
fn window_height_and_timeout() {
    assert_eq!(window_height(""), 30);
    assert_eq!(window_height("x"), 45);
    assert_eq!(dismiss_timeout_ms(0), 3000);
    assert_eq!(dismiss_timeout_ms(1), 5000);
    assert_eq!(dismiss_timeout_ms(2), 0);
    assert_eq!(dismiss_timeout_ms(7), 5000);
}

#[test]
fn notification_css_matches_template() {
    let c = Colors::default();
    let expected = format!(
        r#"
            window {{
                background-color: {};
                border-radius: 8px;
                padding: {}px;
            }}
            .summary {{
                font-size: 11px;
                font-weight: bold;
                color: {};
            }}
            .body {{
                font-size: 9px;
                color: alpha({}, 0.55);
            }}
            image {{
                -gtk-icon-filter: none;
                -gtk-icon-style: regular;
            }}
            "#,
        c.surface, 8, c.fg, c.fg
    );
    assert_eq!(notification_css(&c), expected);
}

#[test]
fn notify_ids_and_request() {
    let (tx, _rx) = mpsc::channel();
    let mut server = NotificationServer::new(tx);
    let hints = NotifyHints { urgency: Some(2), image_path: Some("/img.png".to_string()) };
    let (id, req) = server.notify("app", 0, "", "sum", "body", vec![], hints, 5000);
    assert_eq!(id, 1);
    assert_eq!(req.app_name, "app");
    assert_eq!(req.replaces_id, 0);
    assert_eq!(req.app_icon, "/img.png");
    assert_eq!(req.urgency, 2);
    assert_eq!(req.summary, "sum");
    assert_eq!(req.body, "body");
    assert_eq!(req.expire_timeout, 5000);
    let hints = NotifyHints { urgency: None, image_path: Some("/img.png".to_string()) };
    let (id, req) = server.notify("app", 0, "dialog-info", "s", "", vec![], hints, -1);
    assert_eq!(id, 2);
    assert_eq!(req.app_icon, "dialog-info");
    assert_eq!(req.urgency, 1);
    let hints = NotifyHints { urgency: None, image_path: None };
    let (id, req) = server.notify("app", 42, "", "s", "", vec![], hints, -1);
    assert_eq!(id, 42);
    assert_eq!(req.replaces_id, 42);
    assert_eq!(req.app_icon, "");
    let hints = NotifyHints { urgency: None, image_path: None };
    assert_eq!(server.notify("app", 0, "", "s", "", vec![], hints, -1).0, 3);
}

#[test]
fn notify_replacing_takes_no_id_and_requests_reach_the_channel() {
    let (tx, rx) = mpsc::channel();
    let mut server = NotificationServer::new(tx);
    let hints = NotifyHints { urgency: None, image_path: None };
    let (id, req) = server.notify("app", 7, "", "first", "", vec![], hints, -1);
    assert_eq!(id, 7);
    server.channel().send(req).unwrap();
    let hints = NotifyHints { urgency: None, image_path: None };
    let (id, req) = server.notify("app", 0, "", "second", "", vec![], hints, -1);
    assert_eq!(id, 1);
    server.channel().send(req).unwrap();
    let first = rx.recv().unwrap();
    let second = rx.recv().unwrap();
    assert_eq!((first.replaces_id, first.urgency, first.summary.as_str()), (7, 1, "first"));
    assert_eq!((second.replaces_id, second.urgency, second.summary.as_str()), (0, 1, "second"));
    assert!(rx.try_recv().is_err());
}

#[test]
fn notify_server_information() {
    let (tx, _rx) = mpsc::channel();
    let server = NotificationServer::new(tx);
    assert_eq!(server.get_capabilities(), vec!["body".to_string(), "icon-static".to_string()]);
    let info = server.get_server_information("1.0.0");
    assert_eq!(info, ("hyprnotify".into(), "mrozelek".into(), "1.0.0".into(), "1.2".into()));
    server.close_notification(3);
}

#[test]
fn picker_flow() {
    let mut p = PickerState::new();
    assert_eq!(p.step(Msg::Toggle), PickerAction::Show);
    p.shown(vec!["/w/a.png".to_string(), "/w/b.gif".to_string()]);
    assert!(p.is_open());
    assert_eq!(p.step(Msg::ApplyTarget(Target::Desktop)), PickerAction::Nothing);
    assert_eq!(p.step(Msg::Confirm(1)), PickerAction::ShowTargets);
    assert_eq!(p.page(), Page::TargetChooser);
    assert_eq!(p.step(Msg::Confirm(0)), PickerAction::Nothing);
    assert!(p.accepts(Msg::ApplyTarget(Target::Greeter)));
    assert_eq!(
        p.step(Msg::ApplyTarget(Target::Greeter)),
        PickerAction::Apply { path: "/w/b.gif".to_string(), target: Target::Greeter }
    );
    assert_eq!(p.page(), Page::Applying);
    assert_eq!(p.step(Msg::ApplyTarget(Target::Desktop)), PickerAction::Nothing);
    assert_eq!(p.step(Msg::ApplyFinished(false)), PickerAction::ShowGrid);
    assert_eq!(p.page(), Page::Grid);
    assert!(p.is_open());
    assert_eq!(p.step(Msg::Confirm(0)), PickerAction::ShowTargets);
    assert_eq!(p.step(Msg::Back), PickerAction::ShowGrid);
    assert_eq!(p.step(Msg::Back), PickerAction::Hide);
    assert!(!p.is_open());
    assert_eq!(p.step(Msg::Toggle), PickerAction::Show);
}

#[test]
fn picker_apply_success_hides() {
    let mut p = PickerState::new();
    p.step(Msg::Toggle);
    p.shown(vec!["/w/a.png".to_string()]);
    p.step(Msg::Confirm(0));
    p.step(Msg::ApplyTarget(Target::Desktop));
    assert_eq!(p.step(Msg::ApplyFinished(true)), PickerAction::Hide);
    assert!(!p.is_open());
    assert_eq!(p.step(Msg::Toggle), PickerAction::Show);
}

#[test]
fn picker_refuses_apply_without_wallpaper() {
    let mut p = PickerState::new();
    p.step(Msg::Toggle);
    p.shown(vec![]);
    p.step(Msg::Confirm(0));
    assert!(!p.accepts(Msg::ApplyTarget(Target::Desktop)));
}

#[test]
fn picker_keys() {
    assert_eq!(handle_key(PickerKey::Escape, Page::TargetChooser), KeyResponse::Back);
    assert_eq!(handle_key(PickerKey::Enter, Page::TargetChooser), KeyResponse::Proceed);
    assert_eq!(handle_key(PickerKey::Enter, Page::Grid), KeyResponse::ConfirmSelected);
    assert_eq!(handle_key(PickerKey::Left, Page::Grid), KeyResponse::Move(-1));
    assert_eq!(handle_key(PickerKey::Down, Page::Grid), KeyResponse::Move(3));
    assert_eq!(handle_key(PickerKey::Up, Page::Grid), KeyResponse::Move(-3));
    assert_eq!(handle_key(PickerKey::Right, Page::Applying), KeyResponse::Move(1));
    assert_eq!(handle_key(PickerKey::Desktop, Page::Grid), KeyResponse::Apply(Target::Desktop));
    assert_eq!(handle_key(PickerKey::Greeter, Page::Grid), KeyResponse::Apply(Target::Greeter));
    assert_eq!(handle_key(PickerKey::Other, Page::Grid), KeyResponse::Proceed);
    assert_eq!(move_target(1, -3), 0);
    assert_eq!(move_target(4, 3), 7);
}

#[test]
fn picker_paths() {
    assert_eq!(socket_path(1000), "/tmp/hyprwall-1000.sock");
    assert_eq!(lock_path(0), "/tmp/hyprwall-0.lock");
    assert_eq!(to_decimal(u64::MAX), u64::MAX.to_string());
    assert_eq!(to_decimal(9), "9");
    assert_eq!(to_decimal(10), "10");
}

#[test]
fn power_actions_and_keys() {
    assert_eq!(action_label(0), "Shutdown");
    assert_eq!(action_label(2), "Lock");
    assert_eq!(action_command(1), vec!["systemctl", "reboot"]);
    assert_eq!(action_command(2), vec!["hyprlock"]);
    for i in 0..3 {
        assert_eq!(clicked_action(i), i);
    }
    assert_eq!(power_key(1, PowerKey::Escape), PowerResponse::Close);
    assert_eq!(power_key(1, PowerKey::Enter), PowerResponse::Run(1));
    assert_eq!(power_key(2, PowerKey::Shutdown), PowerResponse::Run(0));
    assert_eq!(power_key(0, PowerKey::Reboot), PowerResponse::Run(1));
    assert_eq!(power_key(0, PowerKey::Lock), PowerResponse::Run(2));
    assert_eq!(power_key(0, PowerKey::Left), PowerResponse::Stay);
    assert_eq!(power_key(1, PowerKey::Left), PowerResponse::Select(0));
    assert_eq!(power_key(1, PowerKey::Right), PowerResponse::Select(2));
    assert_eq!(power_key(2, PowerKey::Right), PowerResponse::Stay);
    assert_eq!(power_key(2, PowerKey::Other), PowerResponse::Proceed);
}

#[test]
fn power_query_and_flags() {
    assert_eq!(wallpaper_from_query("  /home/u/w.png\n"), Some("/home/u/w.png".to_string()));
    assert_eq!(wallpaper_from_query(" \n"), None);
    let args = vec!["nilpower".to_string(), "--daemon".to_string(), "-v".to_string()];
    let (d, rest) = split_daemon_flag(&args);
    assert!(d);
    assert_eq!(rest, vec!["nilpower".to_string(), "-v".to_string()]);
    let (d, rest) = split_daemon_flag(&vec!["nilpower".to_string()]);
    assert!(!d);
    assert_eq!(rest.len(), 1);
}

fn run(events: Vec<AuthEvent>) -> Vec<AuthAction> {
    let mut phase = AuthPhase::Idle;
    let mut out = Vec::new();
    for ev in events {
        let (p, a) = auth_step(phase, ev);
        phase = p;
        out.push(a);
    }
    out
}

fn request(a: &AuthAction) -> Option<GreetRequest> {
    match a {
        AuthAction::Send(r) => Some(*r),
        _ => None,
    }
}

#[test]
fn greeter_login_succeeds() {
    let acts = run(vec![
        AuthEvent::Begin,
        AuthEvent::Sent(Ok(())),
        AuthEvent::Received(Ok(GreetResponse::AuthMessage(AuthKind::Info))),
        AuthEvent::Sent(Ok(())),
        AuthEvent::Received(Ok(GreetResponse::AuthMessage(AuthKind::Secret))),
        AuthEvent::Sent(Ok(())),
        AuthEvent::Received(Ok(GreetResponse::Success)),
        AuthEvent::Sent(Ok(())),
        AuthEvent::Received(Ok(GreetResponse::Success)),
    ]);
    assert_eq!(request(&acts[0]), Some(GreetRequest::CreateSession));
    assert!(matches!(acts[1], AuthAction::Receive));
    assert_eq!(request(&acts[2]), Some(GreetRequest::PostAuthResponse { with_password: false }));
    assert_eq!(request(&acts[4]), Some(GreetRequest::PostAuthResponse { with_password: true }));
    assert_eq!(request(&acts[6]), Some(GreetRequest::StartSession));
    assert!(matches!(acts[8], AuthAction::Finish(Ok(()))));
}

#[test]
fn greeter_refusal_cancels_session() {
    let acts = run(vec![
        AuthEvent::Begin,
        AuthEvent::Sent(Ok(())),
        AuthEvent::Received(Ok(GreetResponse::Error("bad password".to_string()))),
        AuthEvent::Sent(Ok(())),
    ]);
    assert_eq!(request(&acts[2]), Some(GreetRequest::CancelSession));
    match &acts[3] {
        AuthAction::Finish(Err(e)) => assert_eq!(e.message(), "bad password"),
        _ => panic!("expected a failure"),
    }
}

#[test]
fn greeter_errors_and_messages() {
    let acts = run(vec![AuthEvent::Begin, AuthEvent::Sent(Err("broken pipe".to_string()))]);
    match &acts[1] {
        AuthAction::Finish(Err(e)) => assert_eq!(e.message(), "CreateSession failed: broken pipe"),
        _ => panic!("expected a failure"),
    }
    let acts = run(vec![
        AuthEvent::Begin,
        AuthEvent::Sent(Ok(())),
        AuthEvent::Received(Ok(GreetResponse::Success)),
        AuthEvent::Sent(Ok(())),
        AuthEvent::Received(Ok(GreetResponse::AuthMessage(AuthKind::Visible))),
        AuthEvent::Sent(Err("ignored".to_string())),
    ]);
    assert_eq!(request(&acts[4]), Some(GreetRequest::CancelSession));
    match &acts[5] {
        AuthAction::Finish(Err(e)) => assert_eq!(e.message(), "Unexpected response"),
        _ => panic!("expected a failure"),
    }
    let acts = run(vec![AuthEvent::Begin, AuthEvent::Sent(Ok(())), AuthEvent::Received(Err("timed out".to_string())), AuthEvent::Sent(Ok(()))]);
    match &acts[3] {
        AuthAction::Finish(Err(e)) => assert_eq!(e.message(), "Read failed: timed out"),
        _ => panic!("expected a failure"),
    }
    assert_eq!(AuthError::SocketUnset.message(), "GREETD_SOCK not set");
    assert_eq!(AuthError::ConnectFailed("no such file".into()).message(), "Connect failed: no such file");
    assert_eq!(AuthError::PostAuthFailed("x".into()).message(), "PostAuth failed: x");
    assert_eq!(AuthError::StartSessionFailed("y".into()).message(), "StartSession failed: y");
    assert!(matches!(auth_step(AuthPhase::Done, AuthEvent::Begin).1, AuthAction::Ignore));
    assert_eq!(session_command(), vec!["uwsm", "start", "hyprland-uwsm.desktop"]);
}

#[test]
fn greeter_password_keys() {
    assert_eq!(password_key(PasswordKey::Enter, true, false, false), PasswordAction::Ignore);
    assert_eq!(password_key(PasswordKey::Enter, false, true, false), PasswordAction::Ignore);
    assert_eq!(password_key(PasswordKey::Enter, false, false, false), PasswordAction::Submit);
    assert_eq!(password_key(PasswordKey::Backspace, false, false, false), PasswordAction::Pop);
    assert_eq!(password_key(PasswordKey::Escape, false, false, false), PasswordAction::Clear);
    assert_eq!(password_key(PasswordKey::Other(Some('a')), false, true, true), PasswordAction::Proceed);
    assert_eq!(password_key(PasswordKey::Other(Some('ż')), false, true, false), PasswordAction::Push('ż'));
    assert_eq!(password_key(PasswordKey::Other(Some('\t')), false, true, false), PasswordAction::Ignore);
    assert_eq!(password_key(PasswordKey::Other(None), false, true, false), PasswordAction::Ignore);
    for c in ['\0', '\x1f', '\x7f', '\u{9f}', 'a', ' ', '\u{a0}'] {
        assert_eq!(is_control(c), c.is_control());
    }
}

#[test]
fn greeter_picks_first_user() {
    let entries = vec![
        HomeEntry { name: "zoe".into(), is_dir: true },
        HomeEntry { name: "lost+found".into(), is_dir: true },
        HomeEntry { name: "anna.txt".into(), is_dir: false },
        HomeEntry { name: "bob".into(), is_dir: true },
    ];
    assert_eq!(pick_username(None, &entries), Some("bob".to_string()));
    assert_eq!(pick_username(Some("carl".into()), &entries), Some("carl".to_string()));
    assert_eq!(pick_username(None, &vec![HomeEntry { name: "lost+found".into(), is_dir: true }]), None);
}

#[test]
fn wallpapers_filtered_and_sorted() {
    let items = vec![
        DirItem { path: "/w/zeta.PNG".into(), is_file: true },
        DirItem { path: "/w/anim.gif".into(), is_file: true },
        DirItem { path: "/w/notes.txt".into(), is_file: true },
        DirItem { path: "/w/.jpg".into(), is_file: true },
        DirItem { path: "/w/dir.jpg".into(), is_file: false },
        DirItem { path: "/w/Beach.Jpeg".into(), is_file: true },
        DirItem { path: "/w/noext".into(), is_file: true },
        DirItem { path: "/w/b.webp".into(), is_file: true },
    ];
    let got: Vec<(String, bool)> =
        select_wallpapers(&items).into_iter().map(|e| (e.path, e.is_gif)).collect();
    assert_eq!(
        got,
        vec![
            ("/w/Beach.Jpeg".to_string(), false),
            ("/w/anim.gif".to_string(), true),
            ("/w/b.webp".to_string(), false),
            ("/w/zeta.PNG".to_string(), false),
        ]
    );
}

#[test]
fn calendar_february_2024() {
    let cells = month_grid(2024, 2, 10);
    assert_eq!(cells.len(), 35);
    assert_eq!((cells[0].day, cells[0].col, cells[0].row, cells[0].other_month), (29, 0, 1, true));
    assert_eq!(cells[2].day, 31);
    assert_eq!((cells[3].day, cells[3].col, cells[3].other_month), (1, 3, false));
    let ten = cells[12];
    assert_eq!((ten.day, ten.col, ten.row, ten.today, ten.weekend), (10, 5, 2, true, true));
    assert_eq!((cells[31].day, cells[31].other_month), (29, false));
    assert_eq!((cells[32].day, cells[34].day, cells[34].col), (1, 3, 6));
    assert!(cells[32].other_month);
    assert_eq!(cells.iter().filter(|c| c.today).count(), 1);
}

#[test]
fn calendar_columns_match_weekdays() {
    for (y, m) in [(2023, 1), (2024, 3), (2025, 6), (2026, 2), (2021, 8), (1999, 12)] {
        let cells = month_grid(y, m, 1);
        assert_eq!(cells.len() % 7, 0);
        for c in cells.iter().filter(|c| !c.other_month) {
            let d = NaiveDate::from_ymd_opt(y, m, c.day).unwrap();
            assert_eq!(c.col as u32, d.weekday().num_days_from_monday());
            assert_eq!(c.weekend, c.col >= 5);
        }
        let last = cells.iter().filter(|c| !c.other_month).map(|c| c.day).max().unwrap();
        let next = if m == 12 { NaiveDate::from_ymd_opt(y + 1, 1, 1) } else { NaiveDate::from_ymd_opt(y, m + 1, 1) };
        assert_eq!(last, next.unwrap().pred_opt().unwrap().day());
    }
    assert_eq!(day_headers(), vec!["Mo", "Tu", "We", "Th", "Fr", "Sa", "Su"]);
}

#[test]
fn calendar_month_starting_monday_has_no_leading_days() {
    let cells = month_grid(2024, 1, 40);
    assert_eq!((cells[0].day, cells[0].other_month), (1, false));
    assert!(cells.iter().all(|c| !c.today));
}

#[test]
fn clock_text_pads_fields() {
    let c = clock_text(2024, 3, 5, 7, 4);
    assert_eq!(c.hours, "07");
    assert_eq!(c.minutes, "04");
    assert_eq!(c.date, "Mar 05, 2024");
    let c = clock_text(999, 12, 31, 23, 59);
    assert_eq!(c.hours, "23");
    assert_eq!(c.minutes, "59");
    assert_eq!(c.date, "Dec 31, 0999");
}

#[test]
fn calendar_month_titles() {
    assert_eq!(month_title(2024, 2, 29), "February 2024");
    assert_eq!(month_title(-44, 3, 15), "March -0044");
    assert_eq!(month_title(12345, 9, 1), "September +12345");
}

#[test]
fn counter_values_become_ids() {
    assert_eq!(id_of_counter(0), 1);
    assert_eq!(id_of_counter(1), 1);
    assert_eq!(id_of_counter(7), 7);
    assert_eq!(id_of_counter(u32::MAX), u32::MAX);
}

#[test]
fn calendar_edge_years_of_chrono_range() {
    for (y, m) in [(MIN_YEAR, 2), (MIN_YEAR, 12), (MAX_YEAR, 1), (MAX_YEAR, 11)] {
        let cells = month_grid(y, m, 1);
        assert_eq!(cells.len() % 7, 0);
        let days: Vec<u32> = cells.iter().filter(|c| !c.other_month).map(|c| c.day).collect();
        let first = NaiveDate::from_ymd_opt(y, m, 1).unwrap();
        let len = (1..=31).filter(|d| NaiveDate::from_ymd_opt(y, m, *d).is_some()).count() as u32;
        assert_eq!(days, (1..=len).collect::<Vec<u32>>());
        let start = first.weekday().num_days_from_monday() as usize;
        assert_eq!((cells[start].day, cells[start].other_month), (1, false));
        if start > 0 {
            let prev_last = first.pred_opt().unwrap().day();
            assert_eq!((cells[start - 1].day, cells[start - 1].other_month), (prev_last, true));
        }
    }
}

#[test]
fn wallpapers_of_one_name_keep_listing_order() {
    let items = vec![
        DirItem { path: "/b/x.png".into(), is_file: true },
        DirItem { path: "/a/y.png".into(), is_file: true },
        DirItem { path: "/a/x.png".into(), is_file: true },
        DirItem { path: "/c/x.PNG".into(), is_file: true },
    ];
    let paths: Vec<String> = select_wallpapers(&items).into_iter().map(|e| e.path).collect();
    assert_eq!(paths, vec!["/c/x.PNG", "/b/x.png", "/a/x.png", "/a/y.png"]);
}

#[test]
fn calendar_redrawn_only_when_the_day_changes() {
    let d = Day { year: 2024, month: 2, day: 29 };
    assert_eq!(calendar_refresh(d, d), (false, d));
    let next = Day { year: 2024, month: 3, day: 1 };
    assert_eq!(calendar_refresh(d, next), (true, next));
}

#[test]
fn thumbnail_loads_of_an_older_generation_are_dropped() {
    let g = next_generation(0);
    assert_eq!(g, 1);
    assert!(load_wanted(g, g));
    let h = next_generation(g);
    assert_eq!(h, 2);
    assert!(!load_wanted(h, g));
}
