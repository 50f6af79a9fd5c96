//! The `org.freedesktop.Notifications` server side: which id a request gets,
//! and what is handed on to the notification stack.
use vstd::prelude::*;
use std::sync::mpsc::Sender;

verus! {

/// A notification as the bus delivered it, after the hints were read.
pub struct NotifyRequest {
    pub app_name: String,
    pub replaces_id: u32,
    pub app_icon: String,
    pub summary: String,
    pub body: String,
    pub urgency: u8,
    pub expire_timeout: i32,
}

/// The hints of a `Notify` call that the server reads: `urgency` when it is
/// a byte, and `image-path` when it is a string.
pub struct NotifyHints {
    pub urgency: Option<u8>,
    pub image_path: Option<String>,
}

/// Declares `std::sync::mpsc::Sender` so that it can stand in fields and
/// signatures; nothing inside a sender is visible to the proofs.
#[verifier::external_type_specification]
#[verifier::external_body]
#[verifier::reject_recursive_types(T)]
pub struct ExSender<T>(std::sync::mpsc::Sender<T>);

/// The urgency a request is shown with: the hint, or normal (1) without one.
pub open spec fn urgency_of(hints: NotifyHints) -> u8 {
    match hints.urgency {
        Some(u) => u,
        None => 1,
    }
}

/// The icon a request is shown with: `app_icon` unless it is empty, else the
/// `image-path` hint, else nothing.
pub open spec fn icon_of(app_icon: Seq<char>, hints: NotifyHints) -> Seq<char> {
    if app_icon.len() > 0 {
        app_icon
    } else {
        match hints.image_path {
            Some(p) => p@,
            None => Seq::empty(),
        }
    }
}

/// Builds the request that a `Notify` call hands on.
pub fn make_request(
    app_name: &str,
    replaces_id: u32,
    app_icon: &str,
    summary: &str,
    body: &str,
    hints: NotifyHints,
    expire_timeout: i32,
) -> (r: NotifyRequest)
    ensures
        r.app_name@ == app_name@,
        r.replaces_id == replaces_id,
        r.app_icon@ == icon_of(app_icon@, hints),
        r.summary@ == summary@,
        r.body@ == body@,
        r.urgency == urgency_of(hints),
        r.expire_timeout == expire_timeout,
{
    let urgency = match hints.urgency {
        Some(u) => u,
        None => 1,
    };
    let icon = if !app_icon.is_empty() {
        String::from_str(app_icon)
    } else {
        match hints.image_path {
            Some(p) => p,
            None => String::new(),
        }
    };
    NotifyRequest {
        app_name: String::from_str(app_name),
        replaces_id,
        app_icon: icon,
        summary: String::from_str(summary),
        body: String::from_str(body),
        urgency,
        expire_timeout,
    }
}

/// The id a counter value gives: the value itself, except that 0 (which the
/// counter reaches only by wrapping around) gives 1.
pub open spec fn counter_id(v: u32) -> u32 {
    if v == 0 {
        1
    } else {
        v
    }
}

/// The id the counter value `v` gives; see `counter_id`.
pub fn id_of_counter(v: u32) -> (id: u32)
    ensures
        id == counter_id(v),
{
    if v == 0 {
        1
    } else {
        v
    }
}

/// The counter after an id was taken from it: one more, wrapping from
/// `u32::MAX` to 0.
pub open spec fn next_counter(c: u32) -> u32 {
    if c == u32::MAX {
        0
    } else {
        (c + 1) as u32
    }
}

/// The counter of a new server after `n` fresh ids were taken from it.
pub open spec fn counter_after(n: nat) -> u32
    decreases n,
{
    if n == 0 {
        1
    } else {
        next_counter(counter_after((n - 1) as nat))
    }
}

/// A new server hands out the fresh ids 1, 2, 3, ... in call order: the
/// fresh id taken after `n` others is `n + 1`, so the first `u32::MAX` fresh
/// ids are all different. Calls with a `replaces_id` take none.
pub proof fn lemma_fresh_ids_count_up(n: nat)
    requires
        n < u32::MAX,
    ensures
        counter_after(n) == n + 1,
        counter_id(counter_after(n)) == n + 1,
    decreases n,
{
    if n > 0 {
        lemma_fresh_ids_count_up((n - 1) as nat);
    }
}

/// One `notify` call on a server whose counter is `c`, with `replaces_id`
/// `r`: the id it answers and the counter afterwards.
pub open spec fn notify_step(c: u32, r: u32) -> (u32, u32) {
    if r > 0 {
        (r, c)
    } else {
        (counter_id(c), next_counter(c))
    }
}

/// The counter of a new server after calls with the `replaces_id`s `rs`.
pub open spec fn counter_after_calls(rs: Seq<u32>) -> u32
    decreases rs.len(),
{
    if rs.len() == 0 {
        1
    } else {
        notify_step(counter_after_calls(rs.drop_last()), rs.last()).1
    }
}

/// The id that the `i`-th of the calls with `replaces_id`s `rs` gets from a
/// new server.
pub open spec fn call_id(rs: Seq<u32>, i: int) -> u32 {
    notify_step(counter_after_calls(rs.take(i)), rs[i]).0
}

/// How many of the calls `rs` ask for a fresh id (`replaces_id` 0).
pub open spec fn fresh_calls(rs: Seq<u32>) -> nat
    decreases rs.len(),
{
    if rs.len() == 0 {
        0
    } else {
        fresh_calls(rs.drop_last()) + if rs.last() == 0 {
            1nat
        } else {
            0nat
        }
    }
}

proof fn lemma_counter_after_calls(rs: Seq<u32>)
    ensures
        counter_after_calls(rs) == counter_after(fresh_calls(rs)),
    decreases rs.len(),
{
    if rs.len() > 0 {
        lemma_counter_after_calls(rs.drop_last());
    }
}

proof fn lemma_fresh_calls_grow(rs: Seq<u32>, i: int, j: int)
    requires
        0 <= i <= j <= rs.len(),
    ensures
        fresh_calls(rs.take(i)) <= fresh_calls(rs.take(j)),
        i < j && rs[i] == 0 ==> fresh_calls(rs.take(i)) < fresh_calls(rs.take(j)),
    decreases j - i,
{
    if i < j {
        lemma_fresh_calls_grow(rs, i, j - 1);
        assert(rs.take(j).drop_last() =~= rs.take(j - 1));
        assert(rs.take(j).last() == rs[j - 1]);
    }
}

/// A sequence of `notify` calls on a new server, with the `replaces_id`s
/// `rs` (each call moves the counter as `notify` states, through
/// `notify_step`): every id is at least 1; a call with a `replaces_id`
/// answers it; the fresh calls answer 1, 2, 3, ... in call order, so no two
/// of them get the same id, for up to `u32::MAX` fresh calls.
pub proof fn lemma_notify_sequence(rs: Seq<u32>)
    requires
        fresh_calls(rs) <= u32::MAX,
    ensures
        forall|i: int| 0 <= i < rs.len() ==> #[trigger] call_id(rs, i) >= 1,
        forall|i: int| 0 <= i < rs.len() && rs[i] > 0 ==> #[trigger] call_id(rs, i) == rs[i],
        forall|i: int|
            0 <= i < rs.len() && rs[i] == 0 ==> #[trigger] call_id(rs, i) == fresh_calls(rs.take(i))
                + 1,
        forall|i: int, j: int|
            0 <= i < j < rs.len() && rs[i] == 0 && rs[j] == 0 ==> #[trigger] call_id(rs, i)
                != #[trigger] call_id(rs, j),
{
    assert forall|i: int| 0 <= i < rs.len() && rs[i] == 0 implies #[trigger] call_id(rs, i)
        == fresh_calls(rs.take(i)) + 1 by {
        lemma_fresh_calls_grow(rs, i, rs.len() as int);
        assert(rs.take(rs.len() as int) =~= rs);
        lemma_counter_after_calls(rs.take(i));
        lemma_fresh_ids_count_up(fresh_calls(rs.take(i)));
    }
    assert forall|i: int, j: int|
        0 <= i < j < rs.len() && rs[i] == 0 && rs[j] == 0 implies #[trigger] call_id(rs, i)
        != #[trigger] call_id(rs, j) by {
        lemma_fresh_calls_grow(rs, i, j);
        lemma_fresh_calls_grow(rs, j, rs.len() as int);
        assert(rs.take(rs.len() as int) =~= rs);
        lemma_counter_after_calls(rs.take(i));
        lemma_fresh_ids_count_up(fresh_calls(rs.take(i)));
        lemma_counter_after_calls(rs.take(j));
        lemma_fresh_ids_count_up(fresh_calls(rs.take(j)));
    }
}

/// The notification daemon's bus object.
pub struct NotificationServer {
    tx: Sender<NotifyRequest>,
    next_id: u32,
}

impl NotificationServer {
    /// A server that hands requests to `tx`, numbering from 1.
    pub fn new(tx: Sender<NotifyRequest>) -> (s: Self)
        ensures
            s.sender() == tx,
            s.counter() == 1,
    {
        Self { tx, next_id: 1 }
    }

    /// The channel that requests are handed to.
    pub closed spec fn sender(&self) -> Sender<NotifyRequest> {
        self.tx
    }

    /// The value the next fresh id is taken from.
    pub closed spec fn counter(&self) -> u32 {
        self.next_id
    }

    /// The channel that requests are handed to.
    pub fn channel(&self) -> (c: &Sender<NotifyRequest>)
        ensures
            *c == self.sender(),
    {
        &self.tx
    }

    /// Takes the next id from the counter: its value, or 1 where the counter
    /// wrapped around to 0; the counter moves on by one.
    fn alloc_id(&mut self) -> (id: u32)
        ensures
            id == counter_id(old(self).counter()),
            final(self).counter() == next_counter(old(self).counter()),
            final(self).sender() == old(self).sender(),
    {
        let v = self.next_id;
        self.next_id = v.wrapping_add(1);
        id_of_counter(v)
    }

    /// The optional features the server implements.
    pub fn get_capabilities(&self) -> (caps: Vec<String>)
        ensures
            caps@.len() == 2,
            caps@[0]@ == "body"@,
            caps@[1]@ == "icon-static"@,
    {
        let mut caps: Vec<String> = Vec::new();
        caps.push(String::from_str("body"));
        caps.push(String::from_str("icon-static"));
        caps
    }

    /// Accepts a notification: answers its id, which is `replaces_id` when
    /// that is set and a fresh id from the counter otherwise, together with
    /// the request to hand on to the notification stack.
    pub fn notify(
        &mut self,
        app_name: &str,
        replaces_id: u32,
        app_icon: &str,
        summary: &str,
        body: &str,
        actions: Vec<String>,
        hints: NotifyHints,
        expire_timeout: i32,
    ) -> (r: (u32, NotifyRequest))
        ensures
            (r.0, final(self).counter()) == notify_step(old(self).counter(), replaces_id),
            replaces_id > 0 ==> r.0 == replaces_id && final(self).counter() == old(self).counter(),
            replaces_id == 0 ==> r.0 == counter_id(old(self).counter()) && final(self).counter()
                == next_counter(old(self).counter()),
            r.0 >= 1,
            final(self).sender() == old(self).sender(),
            r.1.app_name@ == app_name@,
            r.1.replaces_id == replaces_id,
            r.1.app_icon@ == icon_of(app_icon@, hints),
            r.1.summary@ == summary@,
            r.1.body@ == body@,
            r.1.urgency == urgency_of(hints),
            r.1.expire_timeout == expire_timeout,
    {
        let id = if replaces_id > 0 {
            replaces_id
        } else {
            self.alloc_id()
        };
        let req = make_request(
            app_name,
            replaces_id,
            app_icon,
            summary,
            body,
            hints,
            expire_timeout,
        );
        (id, req)
    }

    /// Closing is not supported: notifications expire on their own.
    pub fn close_notification(&self, id: u32) {
    }

    /// The server's name, vendor, version and the specification version it follows.
    pub fn get_server_information(&self, version: &str) -> (info: (String, String, String, String))
        ensures
            info.0@ == "hyprnotify"@,
            info.1@ == "mrozelek"@,
            info.2@ == version@,
            info.3@ == "1.2"@,
    {
        (
            String::from_str("hyprnotify"),
            String::from_str("mrozelek"),
            String::from_str(version),
            String::from_str("1.2"),
        )
    }
}

} // verus!
