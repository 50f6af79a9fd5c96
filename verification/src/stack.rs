//! The on-screen stack of notifications: at most four windows, one below the
//! other from the top edge, and a first-in first-out queue for the rest.
use vstd::prelude::*;
use crate::colors::Colors;
use crate::notify::NotifyRequest;

verus! {

/// At most this many notifications are on screen at once.
pub const MAX_VISIBLE: usize = 4;

/// Vertical gap between two notification windows.
pub const GAP: i32 = 4;

/// Distance of the first window from the top edge.
pub const TOP_OFFSET: i32 = 4;

/// A notification waiting to be shown.
pub struct NotifyData {
    pub id: u32,
    pub summary: String,
    pub body: String,
    pub icon: String,
    pub urgency: u8,
}

/// The height a window is laid out with: a summary alone takes 30 pixels,
/// a summary with a body 45.
pub open spec fn height_for(body: Seq<char>) -> i32 {
    if body.len() == 0 {
        30
    } else {
        45
    }
}

/// Estimated height of a notification window with the given body.
pub fn window_height(body: &str) -> (h: i32)
    ensures
        h == height_for(body@),
{
    if body.is_empty() {
        30
    } else {
        45
    }
}

/// How long a notification stays before it dismisses itself, by urgency:
/// low (0) 3 s, critical (2) never (0), anything else 5 s.
pub open spec fn timeout_for(urgency: u8) -> u64 {
    if urgency == 0 {
        3000
    } else if urgency == 2 {
        0
    } else {
        5000
    }
}

/// The auto-dismiss delay in milliseconds; 0 means the window stays.
pub fn dismiss_timeout_ms(urgency: u8) -> (ms: u64)
    ensures
        ms == timeout_for(urgency),
{
    match urgency {
        0 => 3000,
        2 => 0,
        _ => 5000,
    }
}

/// The style sheet of a notification window: the surface colour as its
/// background, 8 pixels of padding, and the foreground colour for the
/// summary and, at 55% opacity, for the body.
pub open spec fn notification_css_text(surface: Seq<char>, fg: Seq<char>) -> Seq<char> {
    "\n            window {\n                background-color: "@ + surface + ";\n                border-radius: 8px;\n                padding: 8px;\n            }\n            .summary {\n                font-size: 11px;\n                font-weight: bold;\n                color: "@ + fg + ";\n            }\n            .body {\n                font-size: 9px;\n                color: alpha("@ + fg + ", 0.55);\n            }\n            image {\n                -gtk-icon-filter: none;\n                -gtk-icon-style: regular;\n            }\n            "@
}

/// Builds the style sheet of a notification window drawn with `colors`.
pub fn notification_css(colors: &Colors) -> (css: String)
    ensures
        css@ == notification_css_text(colors.surface@, colors.fg@),
{
    let s = String::from_str("\n            window {\n                background-color: ");
    let s = s.concat(colors.surface.as_str());
    let s = s.concat(";\n                border-radius: 8px;\n                padding: 8px;\n            }\n            .summary {\n                font-size: 11px;\n                font-weight: bold;\n                color: ");
    let s = s.concat(colors.fg.as_str());
    let s = s.concat(";\n            }\n            .body {\n                font-size: 9px;\n                color: alpha(");
    let s = s.concat(colors.fg.as_str());
    s.concat(", 0.55);\n            }\n            image {\n                -gtk-icon-filter: none;\n                -gtk-icon-style: regular;\n            }\n            ")
}

/// An on-screen notification: its id, height and distance from the top edge.
#[derive(Clone, Copy)]
pub struct Slot {
    pub id: u32,
    pub height: i32,
    pub margin_top: i32,
}

/// The distance from the top edge of the `i`-th window when the windows of
/// `slots` are stacked in order, `GAP` apart.
pub open spec fn layout_top(slots: Seq<Slot>, i: int) -> int
    decreases i,
{
    if i <= 0 {
        TOP_OFFSET as int
    } else {
        layout_top(slots, i - 1) + slots[i - 1].height + GAP
    }
}

/// `slots` with every window moved to its stacked position.
pub open spec fn relaid(slots: Seq<Slot>) -> Seq<Slot> {
    Seq::new(
        slots.len(),
        |i: int| Slot { id: slots[i].id, height: slots[i].height, margin_top: layout_top(slots, i) as i32 },
    )
}

/// The index of the first window showing `id`, or `slots.len()`.
pub open spec fn slot_index(slots: Seq<Slot>, id: u32) -> nat
    decreases slots.len(),
{
    if slots.len() == 0 {
        0
    } else if slots[0].id == id {
        0
    } else {
        1 + slot_index(slots.drop_first(), id)
    }
}

/// The state of the stack as the contracts see it.
pub struct StackView {
    pub slots: Seq<Slot>,
    pub queue: Seq<NotifyData>,
    pub next_id: u32,
}

/// Windows laid out well: at most `MAX_VISIBLE` of them, each of a known
/// height and at its stacked position.
pub open spec fn slots_wf(slots: Seq<Slot>) -> bool {
    &&& slots.len() <= MAX_VISIBLE
    &&& forall|i: int|
        0 <= i < slots.len() ==> {
            &&& (#[trigger] slots[i]).height == 30 || slots[i].height == 45
            &&& slots[i].margin_top == layout_top(slots, i)
        }
}

/// A well-formed stack: windows laid out well, a queue only behind a full
/// screen, and a non-zero next id.
pub open spec fn stack_wf(v: StackView) -> bool {
    &&& slots_wf(v.slots)
    &&& v.queue.len() > 0 ==> v.slots.len() == MAX_VISIBLE
    &&& v.next_id >= 1
}

/// A window to open: what it shows and where.
pub struct ShowWindow {
    pub data: NotifyData,
    pub margin_top: i32,
}

/// What adding a notification leads to.
pub enum AddOutcome {
    /// The screen is full; the notification waits in the queue.
    Queued,
    /// A window is to be opened.
    Show(ShowWindow),
}

/// What dismissing a notification leads to.
pub struct RemoveOutcome {
    /// The index of the window to close, if a window showed the id.
    pub removed: Option<usize>,
    /// The new distance from the top of each remaining window, in order.
    pub margins: Vec<i32>,
    /// The queued notification that takes the freed place.
    pub shown: Option<ShowWindow>,
}

/// The stack of notification windows and the queue behind it.
pub struct Stack {
    active: Vec<Slot>,
    queue: Vec<NotifyData>,
    next_id: u32,
    colors: Colors,
}

impl View for Stack {
    type V = StackView;

    closed spec fn view(&self) -> StackView {
        StackView { slots: self.active@, queue: self.queue@, next_id: self.next_id }
    }
}

proof fn lemma_layout_bounds(slots: Seq<Slot>, i: int)
    requires
        0 <= i <= slots.len(),
        forall|j: int| 0 <= j < slots.len() ==> 30 <= (#[trigger] slots[j]).height <= 45,
    ensures
        TOP_OFFSET + 34 * i <= layout_top(slots, i) <= TOP_OFFSET + 49 * i,
    decreases i,
{
    if i > 0 {
        lemma_layout_bounds(slots, i - 1);
    }
}

proof fn lemma_layout_prefix(a: Seq<Slot>, b: Seq<Slot>, i: int)
    requires
        0 <= i <= a.len(),
        i <= b.len(),
        forall|j: int| 0 <= j < i ==> (#[trigger] a[j]).height == b[j].height,
    ensures
        layout_top(a, i) == layout_top(b, i),
    decreases i,
{
    if i > 0 {
        lemma_layout_prefix(a, b, i - 1);
    }
}

impl Stack {
    /// An empty stack drawn with `colors`.
    pub fn new(colors: Colors) -> (s: Self)
        ensures
            stack_wf(s@),
            s@.slots.len() == 0,
            s@.queue.len() == 0,
            s@.next_id == 1,
            s.colors() == colors,
    {
        Self { active: Vec::new(), queue: Vec::new(), next_id: 1, colors }
    }

    /// The palette new windows are drawn with.
    pub closed spec fn colors(&self) -> Colors {
        self.colors
    }

    /// The palette new windows are drawn with.
    pub fn palette(&self) -> (c: &Colors)
        ensures
            *c == self.colors(),
    {
        &self.colors
    }

    /// Hands out the next notification id: 1, 2, ... up to `u32::MAX`, then 1 again.
    pub fn next_id(&mut self) -> (id: u32)
        requires
            stack_wf(old(self)@),
        ensures
            stack_wf(final(self)@),
            id == old(self)@.next_id,
            id >= 1,
            final(self)@.next_id == (if id == u32::MAX {
                1
            } else {
                (id + 1) as u32
            }),
            final(self)@.slots == old(self)@.slots,
            final(self)@.queue == old(self)@.queue,
            final(self).colors() == old(self).colors(),
    {
        let id = self.next_id;
        let n = self.next_id.wrapping_add(1);
        self.next_id = if n == 0 {
            1
        } else {
            n
        };
        id
    }

    fn next_margin_top(&self) -> (y: i32)
        requires
            slots_wf(self@.slots),
        ensures
            y == layout_top(self@.slots, self@.slots.len() as int),
    {
        let mut y: i32 = TOP_OFFSET;
        let mut i: usize = 0;
        proof {
            lemma_layout_bounds(self@.slots, self@.slots.len() as int);
        }
        while i < self.active.len()
            invariant
                slots_wf(self@.slots),
                self@.slots == self.active@,
                i <= self.active.len(),
                y == layout_top(self@.slots, i as int),
            decreases self.active.len() - i,
        {
            proof {
                lemma_layout_bounds(self@.slots, i + 1);
            }
            y = y + self.active[i].height + GAP;
            i = i + 1;
        }
        y
    }

    fn place(&mut self, data: NotifyData) -> (w: ShowWindow)
        requires
            slots_wf(old(self)@.slots),
            old(self)@.slots.len() < MAX_VISIBLE,
        ensures
            slots_wf(final(self)@.slots),
            final(self)@.next_id == old(self)@.next_id,
            final(self)@.queue == old(self)@.queue,
            final(self).colors() == old(self).colors(),
            w.data == data,
            w.margin_top == layout_top(old(self)@.slots, old(self)@.slots.len() as int),
            final(self)@.slots == old(self)@.slots.push(
                Slot { id: data.id, height: height_for(data.body@), margin_top: w.margin_top },
            ),
    {
        let margin_top = self.next_margin_top();
        let height = window_height(data.body.as_str());
        let ghost old_slots = self@.slots;
        self.active.push(Slot { id: data.id, height, margin_top });
        proof {
            let s = self@.slots;
            assert forall|i: int| 0 <= i < s.len() implies {
                &&& (#[trigger] s[i]).height == 30 || s[i].height == 45
                &&& s[i].margin_top == layout_top(s, i)
            } by {
                lemma_layout_prefix(s, old_slots, i);
                if i < old_slots.len() {
                    assert(s[i] == old_slots[i]);
                }
            }
        }
        ShowWindow { data, margin_top }
    }

    /// Shows `data` below the windows on screen, or queues it when
    /// `MAX_VISIBLE` windows are already there.
    pub fn add(&mut self, data: NotifyData) -> (out: AddOutcome)
        requires
            stack_wf(old(self)@),
        ensures
            stack_wf(final(self)@),
            final(self)@.next_id == old(self)@.next_id,
            final(self).colors() == old(self).colors(),
            old(self)@.slots.len() < MAX_VISIBLE ==> {
                &&& out matches AddOutcome::Show(w)
                &&& w.data == data
                &&& w.margin_top == layout_top(old(self)@.slots, old(self)@.slots.len() as int)
                &&& final(self)@.slots == old(self)@.slots.push(
                    Slot { id: data.id, height: height_for(data.body@), margin_top: w.margin_top },
                )
                &&& final(self)@.queue == old(self)@.queue
            },
            old(self)@.slots.len() >= MAX_VISIBLE ==> {
                &&& out is Queued
                &&& final(self)@.slots == old(self)@.slots
                &&& final(self)@.queue == old(self)@.queue.push(data)
            },
    {
        if self.active.len() >= MAX_VISIBLE {
            self.queue.push(data);
            return AddOutcome::Queued;
        }
        AddOutcome::Show(self.place(data))
    }

    fn find(&self, id: u32) -> (k: usize)
        ensures
            k == slot_index(self@.slots, id),
            k <= self@.slots.len(),
            k < self@.slots.len() ==> self@.slots[k as int].id == id,
            forall|j: int| 0 <= j < k ==> self@.slots[j].id != id,
    {
        let mut k: usize = 0;
        while k < self.active.len() && self.active[k].id != id
            invariant
                k <= self.active.len(),
                self@.slots == self.active@,
                forall|j: int| 0 <= j < k ==> self@.slots[j].id != id,
            decreases self.active.len() - k,
        {
            k = k + 1;
        }
        proof {
            lemma_slot_index(self@.slots, id, k as int);
        }
        k
    }

    fn reposition(&mut self) -> (margins: Vec<i32>)
        requires
            old(self)@.slots.len() <= MAX_VISIBLE,
            forall|i: int|
                0 <= i < old(self)@.slots.len() ==> (#[trigger] old(self)@.slots[i]).height == 30
                    || old(self)@.slots[i].height == 45,
        ensures
            final(self)@.slots == relaid(old(self)@.slots),
            final(self)@.queue == old(self)@.queue,
            final(self)@.next_id == old(self)@.next_id,
            final(self).colors() == old(self).colors(),
            margins@.len() == old(self)@.slots.len(),
            forall|i: int|
                0 <= i < margins@.len() ==> #[trigger] margins@[i] == layout_top(
                    old(self)@.slots,
                    i,
                ),
    {
        let ghost orig = self@.slots;
        let mut margins: Vec<i32> = Vec::new();
        let mut y: i32 = TOP_OFFSET;
        let mut i: usize = 0;
        proof {
            lemma_layout_bounds(orig, orig.len() as int);
        }
        while i < self.active.len()
            invariant
                orig.len() <= MAX_VISIBLE,
                forall|j: int| 0 <= j < orig.len() ==> (#[trigger] orig[j]).height == 30 || orig[j].height == 45,
                self.active@.len() == orig.len(),
                i <= orig.len(),
                y == layout_top(orig, i as int),
                margins@.len() == i,
                forall|j: int| 0 <= j < i ==> #[trigger] margins@[j] == layout_top(orig, j),
                forall|j: int| 0 <= j < i ==> #[trigger] self.active@[j] == relaid(orig)[j],
                forall|j: int| i <= j < orig.len() ==> #[trigger] self.active@[j] == orig[j],
                self@.queue == old(self)@.queue,
                self@.next_id == old(self)@.next_id,
                self.colors() == old(self).colors(),
            decreases orig.len() - i,
        {
            proof {
                lemma_layout_bounds(orig, i + 1);
                lemma_layout_bounds(orig, i as int);
            }
            let mut slot = self.active[i];
            slot.margin_top = y;
            self.active.set(i, slot);
            margins.push(y);
            y = y + slot.height + GAP;
            i = i + 1;
        }
        proof {
            assert(self@.slots =~= relaid(orig));
        }
        margins
    }

    /// Dismisses the notification `id`: its window closes, the windows below
    /// move up, and the oldest queued notification, if any, takes the freed place.
    pub fn remove(&mut self, id: u32) -> (out: RemoveOutcome)
        requires
            stack_wf(old(self)@),
        ensures
            stack_wf(final(self)@),
            final(self)@.next_id == old(self)@.next_id,
            final(self).colors() == old(self).colors(),
            ({
                let k = slot_index(old(self)@.slots, id);
                let rest = old(self)@.slots.remove(k as int);
                if k >= old(self)@.slots.len() {
                    &&& out.removed is None
                    &&& out.margins@.len() == 0
                    &&& out.shown is None
                    &&& final(self)@ == old(self)@
                } else {
                    &&& out.removed == Some(k as usize)
                    &&& out.margins@.len() == rest.len()
                    &&& forall|i: int|
                        0 <= i < rest.len() ==> #[trigger] out.margins@[i] == layout_top(rest, i)
                    &&& if old(self)@.queue.len() > 0 {
                        let next = old(self)@.queue[0];
                        let top = layout_top(rest, rest.len() as int);
                        &&& out.shown matches Some(w)
                        &&& w.data == next
                        &&& w.margin_top == top
                        &&& final(self)@.queue == old(self)@.queue.drop_first()
                        &&& final(self)@.slots == relaid(rest).push(
                            Slot { id: next.id, height: height_for(next.body@), margin_top: top as i32 },
                        )
                    } else {
                        &&& out.shown is None
                        &&& final(self)@.queue == old(self)@.queue
                        &&& final(self)@.slots == relaid(rest)
                    }
                }
            }),
    {
        let k = self.find(id);
        if k >= self.active.len() {
            return RemoveOutcome { removed: None, margins: Vec::new(), shown: None };
        }
        let ghost before = self@;
        self.active.remove(k);
        let ghost rest = self@.slots;
        proof {
            assert(rest =~= before.slots.remove(k as int));
            assert forall|i: int| 0 <= i < rest.len() implies (#[trigger] rest[i]).height == 30
                || rest[i].height == 45 by {
                if i < k {
                    assert(rest[i] == before.slots[i]);
                } else {
                    assert(rest[i] == before.slots[i + 1]);
                }
            }
        }
        let margins = self.reposition();
        proof {
            let s = self@.slots;
            lemma_layout_bounds(rest, rest.len() as int);
            assert forall|i: int| 0 <= i < s.len() implies {
                &&& (#[trigger] s[i]).height == 30 || s[i].height == 45
                &&& s[i].margin_top == layout_top(s, i)
            } by {
                lemma_layout_bounds(rest, i);
                lemma_layout_prefix(s, rest, i);
            }
        }
        let mut shown: Option<ShowWindow> = None;
        if self.queue.len() > 0 && self.active.len() < MAX_VISIBLE {
            let data = self.queue.remove(0);
            let ghost mid = self@;
            proof {
                assert(mid.queue =~= before.queue.drop_first());
            }
            shown = Some(self.place(data));
            proof {
                lemma_layout_prefix(mid.slots, rest, rest.len() as int);
            }
        }
        RemoveOutcome { removed: Some(k), margins, shown }
    }

    /// Replaces the palette that new windows are drawn with.
    pub fn reload_colors(&mut self, colors: Colors)
        requires
            stack_wf(old(self)@),
        ensures
            stack_wf(final(self)@),
            final(self)@ == old(self)@,
            final(self).colors() == colors,
    {
        self.colors = colors;
    }

    /// Accepts a request from the bus: numbers it with the stack's own
    /// counter and adds it.
    pub fn push_request(&mut self, req: NotifyRequest) -> (out: AddOutcome)
        requires
            stack_wf(old(self)@),
        ensures
            stack_wf(final(self)@),
            final(self).colors() == old(self).colors(),
            final(self)@.next_id == (if old(self)@.next_id == u32::MAX {
                1
            } else {
                (old(self)@.next_id + 1) as u32
            }),
            ({
                let data = NotifyData {
                    id: old(self)@.next_id,
                    summary: req.summary,
                    body: req.body,
                    icon: req.app_icon,
                    urgency: req.urgency,
                };
                &&& old(self)@.slots.len() < MAX_VISIBLE ==> {
                    &&& out matches AddOutcome::Show(w)
                    &&& w.data == data
                    &&& w.margin_top == layout_top(old(self)@.slots, old(self)@.slots.len() as int)
                    &&& final(self)@.slots == old(self)@.slots.push(
                        Slot { id: data.id, height: height_for(data.body@), margin_top: w.margin_top },
                    )
                    &&& final(self)@.queue == old(self)@.queue
                }
                &&& old(self)@.slots.len() >= MAX_VISIBLE ==> {
                    &&& out is Queued
                    &&& final(self)@.slots == old(self)@.slots
                    &&& final(self)@.queue == old(self)@.queue.push(data)
                }
            }),
    {
        let id = self.next_id();
        self.add(
            NotifyData {
                id,
                summary: req.summary,
                body: req.body,
                icon: req.app_icon,
                urgency: req.urgency,
            },
        )
    }
}

proof fn lemma_layout_grows(slots: Seq<Slot>, i: int, j: int)
    requires
        0 <= i < j <= slots.len(),
        forall|k: int| 0 <= k < slots.len() ==> (#[trigger] slots[k]).height >= 0,
    ensures
        layout_top(slots, i) + slots[i].height + GAP <= layout_top(slots, j),
    decreases j - i,
{
    if j > i + 1 {
        lemma_layout_grows(slots, i, j - 1);
    }
}

/// On a well-formed stack no two windows overlap: each window ends, with a
/// gap, above the top of every window after it.
pub proof fn lemma_windows_do_not_overlap(v: StackView, i: int, j: int)
    requires
        stack_wf(v),
        0 <= i < j < v.slots.len(),
    ensures
        v.slots[i].margin_top + v.slots[i].height + GAP <= v.slots[j].margin_top,
{
    assert(v.slots[i].height == 30 || v.slots[i].height == 45);
    assert(v.slots[j].height == 30 || v.slots[j].height == 45);
    lemma_layout_grows(v.slots, i, j);
}

proof fn lemma_slot_index(slots: Seq<Slot>, id: u32, k: int)
    requires
        0 <= k <= slots.len(),
        forall|j: int| 0 <= j < k ==> slots[j].id != id,
        k == slots.len() || slots[k].id == id,
    ensures
        slot_index(slots, id) == k,
    decreases k,
{
    if k > 0 {
        lemma_slot_index(slots.drop_first(), id, k - 1);
    }
}

} // verus!
